//! Finding the words of a list that a partly typed word may stand for.

use crate::text::has_prefix;
use fuzzt::algorithms::JaroWinkler;
use vstd::prelude::*;

verus! {

/// How a partly typed word is matched against a list.
#[derive(Clone, Copy, Debug, PartialEq, Eq, Structural)]
pub enum CompletionStrategy {
    /// The words that begin with what was typed, in the order of the list.
    Prefix,
    /// The words most similar to what was typed, the most similar first.
    Fuzzy,
}

/// The words that begin with the given text, in the order of the list.
pub open spec fn prefix_matches(partial: Seq<char>, words: Seq<Seq<char>>) -> Seq<Seq<char>> {
    words.filter(|word: Seq<char>| partial.is_prefix_of(word))
}

/// The words that `fuzzt::get_top_n` picks for the given text from the list,
/// scored by Jaro-Winkler similarity, with the crate's own cutoff and count.
pub uninterp spec fn fuzzy_top_matches(partial: Seq<char>, words: Seq<Seq<char>>) -> Seq<Seq<char>>;

/// The matches of a text in a list under a strategy.
pub open spec fn matches_of(
    strategy: CompletionStrategy,
    partial: Seq<char>,
    words: Seq<Seq<char>>,
) -> Seq<Seq<char>> {
    match strategy {
        CompletionStrategy::Prefix => prefix_matches(partial, words),
        CompletionStrategy::Fuzzy => fuzzy_top_matches(partial, words),
    }
}

/// Calls `fuzzt::get_top_n` with the Jaro-Winkler scorer and leaves the
/// cutoff, the count and the processor at the crate's defaults.
///
/// Not proved: that the result is what `fuzzy_top_matches` names, that it
/// holds at most three words, which is the crate's default count, and that
/// each of them is a word of the list.
#[verifier::external_body]
fn fuzzy_complete(partial: &str, words: &Vec<String>) -> (matches: Vec<String>)
    ensures
        matches.deep_view() == fuzzy_top_matches(partial@, words.deep_view()),
        matches.len() <= 3,
        forall|i: int|
            0 <= i < matches.len() ==> words.deep_view().contains(#[trigger] matches[i]@),
{
    let words: Vec<&str> = words.iter().map(|w| w.as_str()).collect();
    fuzzt::get_top_n(partial, &words, None, None, None, Some(&JaroWinkler))
        .into_iter()
        .map(|s| s.to_string())
        .collect()
}

/// Picks the words of the list that begin with the given text.
pub fn prefix_complete(partial: &str, words: &Vec<String>) -> (matches: Vec<String>)
    ensures
        matches.deep_view() == prefix_matches(partial@, words.deep_view()),
{
    let ghost pred = |word: Seq<char>| partial@.is_prefix_of(word);
    let ghost all = words.deep_view();
    let mut matches: Vec<String> = Vec::new();
    let mut i: usize = 0;
    proof {
        reveal(Seq::filter);
        assert(all.take(0) =~= Seq::<Seq<char>>::empty());
        assert(matches.deep_view() =~= all.take(0).filter(pred));
    }
    while i < words.len()
        invariant
            i <= words.len(),
            all == words.deep_view(),
            pred == |word: Seq<char>| partial@.is_prefix_of(word),
            matches.deep_view() == all.take(i as int).filter(pred),
        decreases words.len() - i,
    {
        let ghost before = matches.deep_view();
        let word = &words[i];
        proof {
            reveal(Seq::filter);
            assert(all.take(i + 1).drop_last() =~= all.take(i as int));
            assert(all.take(i + 1).last() == word@);
        }
        if has_prefix(word.as_str(), partial) {
            matches.push(word.clone());
            proof {
                assert(matches.deep_view() =~= before.push(word@));
            }
        }
        i = i + 1;
    }
    proof {
        assert(all.take(words.len() as int) =~= all);
    }
    matches
}

/// Picks the matches of a text in a list under a strategy. Every match is a
/// word of the list, and matching by similarity gives three at most.
pub fn find_matches(strategy: CompletionStrategy, partial: &str, words: &Vec<String>) -> (matches:
    Vec<String>)
    ensures
        matches.deep_view() == matches_of(strategy, partial@, words.deep_view()),
        forall|i: int|
            0 <= i < matches.len() ==> words.deep_view().contains(#[trigger] matches[i]@),
        strategy == CompletionStrategy::Fuzzy ==> matches.len() <= 3,
{
    match strategy {
        CompletionStrategy::Prefix => {
            let matches = prefix_complete(partial, words);
            proof {
                let pred = |word: Seq<char>| partial@.is_prefix_of(word);
                assert forall|i: int| 0 <= i < matches.len() implies words.deep_view().contains(
                    #[trigger] matches[i]@,
                ) by {
                    assert(matches.deep_view()[i] == matches[i]@);
                    assert(words.deep_view().filter(pred).contains(matches[i]@));
                    words.deep_view().lemma_filter_contains_rev(pred, matches[i]@);
                }
            }
            matches
        },
        CompletionStrategy::Fuzzy => fuzzy_complete(partial, words),
    }
}

} // verus!
