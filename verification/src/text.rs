//! Dashes in wormhole codes: counting them and cutting a code at them.

use vstd::prelude::*;
use vstd::std_specs::iter::IteratorSpec;
use vstd::string::*;

verus! {

/// How many dashes the text holds.
pub open spec fn dash_count(text: Seq<char>) -> nat
    decreases text.len(),
{
    if text.len() == 0 {
        0
    } else if text.last() == '-' {
        dash_count(text.drop_last()) + 1
    } else {
        dash_count(text.drop_last())
    }
}

/// The position of the last dash of the text, or -1 if it holds none.
pub open spec fn last_dash(text: Seq<char>) -> int
    decreases text.len(),
{
    if text.len() == 0 {
        -1
    } else if text.last() == '-' {
        text.len() - 1
    } else {
        last_dash(text.drop_last())
    }
}

/// The position of the first dash of the text, or its length if it holds
/// none.
pub open spec fn first_dash(text: Seq<char>) -> int
    decreases text.len(),
{
    if text.len() == 0 {
        0
    } else if text[0] == '-' {
        0
    } else {
        1 + first_dash(text.drop_first())
    }
}

/// What stands before the last dash of the text; nothing if it holds none.
pub open spec fn stem(text: Seq<char>) -> Seq<char> {
    if last_dash(text) < 0 {
        Seq::empty()
    } else {
        text.take(last_dash(text))
    }
}

/// What stands after the last dash of the text; all of it if it holds none.
pub open spec fn last_word(text: Seq<char>) -> Seq<char> {
    text.skip(last_dash(text) + 1)
}

/// The last dash lies inside the text, is a dash, and none follows it.
pub proof fn lemma_last_dash(text: Seq<char>)
    ensures
        -1 <= last_dash(text) < text.len(),
        last_dash(text) >= 0 ==> text[last_dash(text)] == '-',
        forall|i: int| last_dash(text) < i < text.len() ==> text[i] != '-',
    decreases text.len(),
{
    if text.len() > 0 && text.last() != '-' {
        let earlier = text.drop_last();
        lemma_last_dash(earlier);
        assert forall|i: int| last_dash(text) < i < text.len() implies text[i] != '-' by {
            if i < earlier.len() {
                assert(text[i] == earlier[i]);
            }
        }
    }
}

/// The first dash lies inside the text or at its end, is a dash where it
/// lies inside, and none comes before it.
pub proof fn lemma_first_dash(text: Seq<char>)
    ensures
        0 <= first_dash(text) <= text.len(),
        first_dash(text) < text.len() ==> text[first_dash(text)] == '-',
        forall|i: int| 0 <= i < first_dash(text) ==> text[i] != '-',
    decreases text.len(),
{
    if text.len() > 0 && text[0] != '-' {
        let rest = text.drop_first();
        lemma_first_dash(rest);
        assert forall|i: int| 0 <= i < first_dash(text) implies text[i] != '-' by {
            if i > 0 {
                assert(text[i] == rest[i - 1]);
            }
        }
    }
}

/// A position that holds a dash, or is the end of the text, and has no dash
/// before it is the position of the first dash.
pub proof fn lemma_first_dash_is(text: Seq<char>, at: int)
    requires
        0 <= at <= text.len(),
        at < text.len() ==> text[at] == '-',
        forall|i: int| 0 <= i < at ==> text[i] != '-',
    ensures
        first_dash(text) == at,
{
    lemma_first_dash(text);
    let found = first_dash(text);
    if found < at {
        assert(text[found] == '-');
    }
}

/// Counts the dashes of a text.
pub fn count_dashes(text: &str) -> (count: usize)
    ensures
        count == dash_count(text@),
{
    let total = text.unicode_len();
    let mut count: usize = 0;
    for c in it: text.chars()
        invariant
            it.seq() == text@,
            total == text@.len(),
            count <= it.index(),
            count == dash_count(text@.take(it.index() as int)),
    {
        proof {
            let k = it.index() as int;
            assert(text@.take(k + 1).drop_last() =~= text@.take(k));
        }
        if c == '-' {
            count = count + 1;
        }
    }
    proof {
        assert(text@.take(text@.len() as int) =~= text@);
    }
    count
}

/// Finds the last dash of a text.
pub fn find_last_dash(text: &str) -> (at: Option<usize>)
    ensures
        match at {
            Some(i) => i == last_dash(text@),
            None => last_dash(text@) == -1,
        },
{
    let total = text.unicode_len();
    let mut found: Option<usize> = None;
    let mut at: usize = 0;
    for c in it: text.chars()
        invariant
            it.seq() == text@,
            total == text@.len(),
            at == it.index(),
            match found {
                Some(i) => i == last_dash(text@.take(it.index() as int)),
                None => last_dash(text@.take(it.index() as int)) == -1,
            },
    {
        proof {
            let k = it.index() as int;
            assert(text@.take(k + 1).drop_last() =~= text@.take(k));
        }
        if c == '-' {
            found = Some(at);
        }
        at = at + 1;
    }
    proof {
        assert(text@.take(text@.len() as int) =~= text@);
    }
    found
}

/// Finds the first dash of a text; the number of its characters if it holds
/// none.
pub fn find_first_dash(text: &str) -> (at: usize)
    ensures
        at == first_dash(text@),
{
    let total = text.unicode_len();
    let mut at: usize = 0;
    for c in it: text.chars()
        invariant
            it.seq() == text@,
            total == text@.len(),
            at == it.index(),
            forall|j: int| 0 <= j < it.index() ==> text@[j] != '-',
    {
        if c == '-' {
            proof {
                lemma_first_dash_is(text@, at as int);
            }
            return at;
        }
        at = at + 1;
    }
    proof {
        lemma_first_dash_is(text@, total as int);
    }
    total
}

/// Cuts a text at its last dash: what stands before the dash and what
/// stands after it. A text without a dash has nothing before and all of
/// itself after.
pub fn split_last_dash(text: &str) -> (parts: (&str, &str))
    ensures
        parts.0@ == stem(text@),
        parts.1@ == last_word(text@),
{
    proof {
        lemma_last_dash(text@);
    }
    match find_last_dash(text) {
        Some(i) => {
            let total = text.unicode_len();
            let before = text.substring_char(0, i);
            let after = text.substring_char(i + 1, total);
            proof {
                assert(text@.subrange(0, i as int) =~= text@.take(i as int));
                assert(text@.subrange(i + 1, total as int) =~= text@.skip(i + 1));
            }
            (before, after)
        },
        None => {
            let before = text.substring_char(0, 0);
            proof {
                assert(text@.subrange(0, 0) =~= Seq::<char>::empty());
                assert(text@.skip(0) =~= text@);
            }
            (before, text)
        },
    }
}

/// Whether the word begins with the given text.
pub fn has_prefix(word: &str, start: &str) -> (holds: bool)
    ensures
        holds == start@.is_prefix_of(word@),
{
    let mut rest = word.chars();
    for c in it: start.chars()
        invariant
            it.seq() == start@,
            it.index() <= word@.len(),
            rest.remaining() == word@.skip(it.index() as int),
            forall|j: int| 0 <= j < it.index() ==> word@[j] == start@[j],
    {
        match rest.next() {
            Some(d) => {
                if d != c {
                    proof {
                        let k = it.index() as int;
                        assert(word@[k] != start@[k]);
                    }
                    return false;
                }
                proof {
                    let k = it.index() as int;
                    assert(word@.skip(k).drop_first() =~= word@.skip(k + 1));
                }
            },
            None => {
                return false;
            },
        }
    }
    proof {
        assert(start@ =~= word@.subrange(0, start@.len() as int));
    }
    true
}

} // verus!
