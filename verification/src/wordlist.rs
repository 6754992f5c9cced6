//! The word list of wormhole codes: making a code, and completing one that
//! is being typed.
//!
//! A code is a run of parts joined by dashes. The part that follows `n`
//! dashes is a word of the list at place `n` modulo the number of lists.

use crate::matching::{find_matches, matches_of, CompletionStrategy};
use crate::pgp_words::{lemma_lines_in_order, pgp_table, PGP_WORDS};
use crate::text::{
    count_dashes, dash_count, find_first_dash, find_last_dash, first_dash, last_dash, last_word,
    lemma_first_dash, lemma_last_dash, split_last_dash, stem,
};
use rand::rngs::OsRng;
use rand::seq::SliceRandom;
use vstd::prelude::*;
use vstd::string::*;
use vstd::utf8::*;

verus! {

/// The lists of words that codes are made of.
#[derive(PartialEq)]
pub struct Wordlist {
    /// How many words a code is made of.
    pub num_words: usize,
    /// The lists that the words are taken from, in turn.
    pub words: Vec<Vec<String>>,
    /// How a partly typed word is completed.
    pub strategy: CompletionStrategy,
}

/// A stem and a word as one completion: the word alone after an empty stem,
/// else the stem, a dash and the word.
pub open spec fn completion(stem: Seq<char>, word: Seq<char>) -> Seq<char> {
    if stem.len() == 0 {
        word
    } else {
        stem + seq!['-'] + word
    }
}

/// Whether the entry is the completion of some word of the list after the
/// stem.
pub open spec fn completes_from(list: Seq<Seq<char>>, stem: Seq<char>, entry: Seq<char>) -> bool {
    exists|word: Seq<char>| list.contains(word) && entry == completion(stem, word)
}

/// Each of the words as a completion after the stem.
pub open spec fn completions(stem: Seq<char>, words: Seq<Seq<char>>) -> Seq<Seq<char>> {
    Seq::new(words.len(), |i: int| completion(stem, words[i]))
}

/// The parts joined by dashes.
pub open spec fn joined(parts: Seq<Seq<char>>) -> Seq<char>
    decreases parts.len(),
{
    if parts.len() == 0 {
        Seq::empty()
    } else if parts.len() == 1 {
        parts[0]
    } else {
        joined(parts.drop_last()) + seq!['-'] + parts.last()
    }
}

/// What of a text stands before a cursor, which counts bytes of the text's
/// UTF-8 form. A cursor at or behind the end, or none, leaves all of it.
pub open spec fn text_before(text: Seq<char>, cursor: Option<usize>) -> Seq<char> {
    match cursor {
        Some(pos) if pos < encode_utf8(text).len() => decode_utf8(
            encode_utf8(text).subrange(0, pos as int),
        ),
        _ => text,
    }
}

/// The part of a text that a position lies in, where the position counts
/// characters: from behind the last dash before the position up to the first
/// dash at or after it.
pub open spec fn part_at(text: Seq<char>, at: int) -> Seq<char> {
    text.subrange(last_dash(text.take(at)) + 1, at + first_dash(text.skip(at)))
}

/// Whether the parts are a possible choice of `count` words from the lists,
/// the part at each place taken from the list whose turn it is.
pub open spec fn is_choice(lists: Seq<Seq<Seq<char>>>, count: nat, parts: Seq<Seq<char>>) -> bool {
    if lists.len() == 0 {
        parts.len() == 0
    } else {
        &&& parts.len() == count
        &&& forall|i: int|
            0 <= i < count ==> lists[i % (lists.len() as int)].contains(#[trigger] parts[i])
    }
}

/// Picks one word of a list with `SliceRandom::choose` of rand, drawing from
/// the operating system's generator, `OsRng`.
///
/// Not proved: that the result is a word of the list. Which word it is
/// depends on chance, so nothing more is said of it. Should the operating
/// system refuse to give random bytes, rand stops the program.
#[verifier::external_body]
fn pick_word(words: &Vec<String>) -> (word: &String)
    requires
        words.len() > 0,
    ensures
        words@.contains(*word),
{
    words.choose(&mut OsRng).unwrap()
}

/// Joins the parts with dashes.
pub fn join_words(parts: &Vec<String>) -> (code: String)
    ensures
        code@ == joined(parts.deep_view()),
{
    let ghost all = parts.deep_view();
    let mut code = String::new();
    let mut i: usize = 0;
    proof {
        assert(all.take(0) =~= Seq::<Seq<char>>::empty());
    }
    while i < parts.len()
        invariant
            i <= parts.len(),
            all == parts.deep_view(),
            code@ == joined(all.take(i as int)),
        decreases parts.len() - i,
    {
        proof {
            reveal_strlit("-");
            assert(all.take(i + 1).drop_last() =~= all.take(i as int));
            assert(all.take(i + 1).last() == parts[i as int]@);
            assert("-"@ =~= seq!['-']);
        }
        if i > 0 {
            code.append("-");
        } else {
            proof {
                assert(all.take(1)[0] == parts[0]@);
                assert(code@ + parts[0]@ =~= parts[0]@);
            }
        }
        code.append(parts[i].as_str());
        i = i + 1;
    }
    proof {
        assert(all.take(parts.len() as int) =~= all);
    }
    code
}

/// Puts each of the words behind the stem.
pub fn build_completions(stem: &str, words: Vec<String>) -> (result: Vec<String>)
    ensures
        result.deep_view() == completions(stem@, words.deep_view()),
{
    let ghost all = words.deep_view();
    let mut result: Vec<String> = Vec::new();
    let mut i: usize = 0;
    while i < words.len()
        invariant
            i <= words.len(),
            all == words.deep_view(),
            result.len() == i,
            forall|j: int| 0 <= j < i ==> (#[trigger] result[j])@ == completion(stem@, all[j]),
        decreases words.len() - i,
    {
        let mut entry = String::new();
        entry.append(stem);
        if !stem.is_empty() {
            proof {
                reveal_strlit("-");
                assert("-"@ =~= seq!['-']);
            }
            entry.append("-");
        }
        entry.append(words[i].as_str());
        proof {
            assert(all[i as int] == words[i as int]@);
            assert(entry@ =~= completion(stem@, all[i as int]));
        }
        result.push(entry);
        i = i + 1;
    }
    proof {
        assert(result.deep_view() =~= completions(stem@, all));
    }
    result
}

impl Wordlist {
    /// A word list that completes by similarity.
    pub fn new(num_words: usize, words: Vec<Vec<String>>) -> (list: Wordlist)
        ensures
            list.num_words == num_words,
            list.words == words,
            list.strategy == CompletionStrategy::Fuzzy,
    {
        Wordlist { num_words, words, strategy: CompletionStrategy::Fuzzy }
    }

    /// The same word list with another way of completing.
    pub fn with_strategy(self, strategy: CompletionStrategy) -> (list: Wordlist)
        ensures
            list.num_words == self.num_words,
            list.words == self.words,
            list.strategy == strategy,
    {
        Wordlist { num_words: self.num_words, words: self.words, strategy }
    }

    /// The list whose turn it is after the given text.
    pub open spec fn list_after(&self, text: Seq<char>) -> Seq<Seq<char>> {
        self.words.deep_view()[(dash_count(text) as int) % (self.words.len() as int)]
    }

    /// The codes that a partly typed code may be completed to.
    ///
    /// What stands behind the last dash of the code is matched against the
    /// list whose turn it is, and each match is put in its place.
    pub fn get_completions(&self, prefix: &str) -> (result: Vec<String>)
        requires
            self.words.len() > 0,
        ensures
            result.deep_view() == completions(
                stem(prefix@),
                matches_of(self.strategy, last_word(prefix@), self.list_after(prefix@)),
            ),
            forall|i: int|
                0 <= i < result.len() ==> completes_from(
                    self.list_after(prefix@),
                    stem(prefix@),
                    (#[trigger] result[i])@,
                ),
            self.strategy == CompletionStrategy::Fuzzy ==> result.len() <= 3,
    {
        let count_dashes = count_dashes(prefix);
        let words = &self.words[count_dashes % self.words.len()];
        let (prefix_without_last, last_partial) = split_last_dash(prefix);
        let matches = find_matches(self.strategy, last_partial, words);
        let ghost found = matches.deep_view();
        proof {
            assert(words.deep_view() == self.list_after(prefix@));
            assert forall|i: int| 0 <= i < found.len() implies self.list_after(prefix@).contains(
                #[trigger] found[i],
            ) by {
                assert(found[i] == matches[i]@);
            }
        }
        let result = build_completions(prefix_without_last, matches);
        proof {
            assert(result.deep_view().len() == found.len());
            assert forall|i: int| 0 <= i < result.len() implies completes_from(
                self.list_after(prefix@),
                stem(prefix@),
                (#[trigger] result[i])@,
            ) by {
                assert(result.deep_view()[i] == result[i]@);
                assert(self.list_after(prefix@).contains(found[i]));
            }
        }
        result
    }

    /// The list whose turn it is at the cursor: the one after what stands
    /// before the cursor, which counts bytes.
    pub fn get_wordlist(&self, prefix: &str, cursor_pos: Option<usize>) -> (list: &Vec<String>)
        requires
            self.words.len() > 0,
            cursor_pos matches Some(pos) ==> pos >= prefix.spec_bytes().len() || is_char_boundary(
                prefix.spec_bytes(),
                pos as int,
            ),
        ensures
            *list == self.words[(dash_count(text_before(prefix@, cursor_pos)) as int) % (
            self.words.len() as int)],
    {
        proof {
            broadcast use encode_utf8_decode_utf8, encode_utf8_valid_utf8;

        }
        let limited_prefix = match cursor_pos {
            Some(pos) if pos < prefix.as_bytes().len() => {
                let (before, _) = prefix.split_at(pos);
                proof {
                    assert(pos < prefix.spec_bytes().len());
                    assert(before.spec_bytes() == prefix.spec_bytes().subrange(0, pos as int));
                    assert(decode_utf8(before.spec_bytes()) == before@);
                    assert(before@ == text_before(prefix@, cursor_pos));
                }
                before
            },
            _ => {
                proof {
                    assert(prefix@ == text_before(prefix@, cursor_pos));
                }
                prefix
            },
        };
        let count_dashes = count_dashes(limited_prefix);
        &self.words[count_dashes % self.words.len()]
    }

    /// Makes a code of `num_words` random words, joined by dashes.
    pub fn choose_words(&self) -> (code: String)
        requires
            forall|i: int|
                0 <= i < self.num_words && self.words.len() > 0 ==> (#[trigger] self.words[i % (
                self.words.len() as int)]).len() > 0,
        ensures
            exists|parts: Seq<Seq<char>>|
                is_choice(self.words.deep_view(), self.num_words as nat, parts) && code@ == joined(
                    parts,
                ),
    {
        let mut components: Vec<String> = Vec::new();
        if self.words.len() > 0 {
            let mut i: usize = 0;
            while i < self.num_words
                invariant
                    i <= self.num_words,
                    self.words.len() > 0,
                    components.len() == i,
                    forall|j: int|
                        0 <= j < self.num_words ==> (#[trigger] self.words[j % (
                        self.words.len() as int)]).len() > 0,
                    forall|j: int|
                        0 <= j < i ==> self.words.deep_view()[j % (
                        self.words.len() as int)].contains(#[trigger] components.deep_view()[j]),
                decreases self.num_words - i,
            {
                let ghost before = components.deep_view();
                let list = &self.words[i % self.words.len()];
                proof {
                    assert(self.words[(i as int) % (self.words.len() as int)].len() > 0);
                }
                let word = pick_word(list);
                proof {
                    let at = choose|k: int| 0 <= k < list@.len() && list@[k] == *word;
                    assert(list.deep_view()[at] == word@);
                    assert(self.words.deep_view()[(i as int) % (self.words.len() as int)]
                        == list.deep_view());
                }
                components.push(word.clone());
                proof {
                    assert(components.deep_view() =~= before.push(word@));
                }
                i = i + 1;
            }
        }
        let code = join_words(&components);
        proof {
            assert(is_choice(
                self.words.deep_view(),
                self.num_words as nat,
                components.deep_view(),
            ));
        }
        code
    }
}

/// The part of a code that the cursor lies in, where the cursor counts
/// bytes: what stands between the last dash before the cursor and the first
/// dash at or after it.
pub fn extract_partial_from_prefix<'a>(prefix: &'a str, pos: usize) -> (partial: &'a str)
    requires
        is_char_boundary(prefix.spec_bytes(), pos as int),
    ensures
        partial@ == part_at(
            prefix@,
            decode_utf8(prefix.spec_bytes().subrange(0, pos as int)).len() as int,
        ),
{
    let total = prefix.unicode_len();
    let (before, after) = prefix.split_at(pos);
    proof {
        broadcast use encode_utf8_decode_utf8, encode_utf8_valid_utf8;

        let bytes = prefix.spec_bytes();
        assert(decode_utf8(before.spec_bytes()) == before@);
        assert(decode_utf8(after.spec_bytes()) == after@);
        assert(decode_utf8(bytes) == prefix@);
        decode_utf8_split(bytes, pos as int);
        assert(prefix@ =~= before@ + after@);
        assert(prefix@.take(before@.len() as int) =~= before@);
        assert(prefix@.skip(before@.len() as int) =~= after@);
        lemma_last_dash(before@);
        lemma_first_dash(after@);
    }
    let current_word_start = match find_last_dash(before) {
        Some(i) => i + 1,
        None => 0,
    };
    let current_word_end = before.unicode_len() + find_first_dash(after);
    prefix.substring_char(current_word_start, current_word_end)
}

/// Lays the PGP word list out in two columns: first the words that follow
/// an even number of dashes, then those that follow an odd number. Each word
/// goes to the place of its byte value.
pub fn load_pgpwords() -> (words: Vec<Vec<String>>)
    ensures
        words.deep_view() == pgp_table(),
        words.len() == 2,
        words[0].len() == 256,
        words[1].len() == 256,
{
    let mut even_words: Vec<String> = Vec::with_capacity(256);
    let mut odd_words: Vec<String> = Vec::with_capacity(256);
    while even_words.len() < 256
        invariant
            even_words.len() == odd_words.len(),
            even_words.len() <= 256,
        decreases 256 - even_words.len(),
    {
        even_words.push(String::new());
        odd_words.push(String::new());
    }
    let mut line: usize = 0;
    while line < 256
        invariant
            line <= 256,
            even_words.len() == 256,
            odd_words.len() == 256,
            forall|j: int| 0 <= j < line ==> (#[trigger] even_words[j])@ == PGP_WORDS[j].2@,
            forall|j: int| 0 <= j < line ==> (#[trigger] odd_words[j])@ == PGP_WORDS[j].1@,
        decreases 256 - line,
    {
        let (byte, short, long) = PGP_WORDS[line];
        let index = byte as usize;
        proof {
            lemma_lines_in_order();
            assert(PGP_WORDS[line as int].0 == line);
        }
        even_words.set(index, long.to_owned());
        odd_words.set(index, short.to_owned());
        line = line + 1;
    }
    let mut words: Vec<Vec<String>> = Vec::new();
    proof {
        assert(even_words.deep_view() =~= pgp_table()[0]);
        assert(odd_words.deep_view() =~= pgp_table()[1]);
    }
    words.push(even_words);
    words.push(odd_words);
    proof {
        assert(words.deep_view() =~= pgp_table());
    }
    words
}

/// The PGP word list for codes of the given number of words.
pub fn default_wordlist(num_words: usize) -> (list: Wordlist)
    ensures
        list.num_words == num_words,
        list.words.deep_view() == pgp_table(),
        list.words.len() == 2,
        list.words[0].len() == 256,
        list.words[1].len() == 256,
        list.strategy == CompletionStrategy::Fuzzy,
{
    Wordlist { num_words, words: load_pgpwords(), strategy: CompletionStrategy::Fuzzy }
}

} // verus!
