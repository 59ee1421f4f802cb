//! Reading the task list's text inputs: a dotted project path, a
//! space-separated tag list, and a recurrence count.
use vstd::prelude::*;

use crate::text::{
    chars_of, split, split_on, split_whitespace, strings_view, trim, trimmed, whitespace_words,
};

verus! {

/// Whether every character of `s` is an ASCII digit.
pub open spec fn all_digits(s: Seq<char>) -> bool {
    forall|i: int| 0 <= i < s.len() ==> '0' <= #[trigger] s[i] <= '9'
}

/// The number that the decimal digits `s` spell.
pub open spec fn digits_value(s: Seq<char>) -> nat
    decreases s.len(),
{
    if s.len() == 0 {
        0
    } else {
        digits_value(s.drop_last()) * 10 + ((s.last() as int) - 48) as nat
    }
}

/// The value `str::parse::<u16>` reads a text as, or `None` where it refuses
/// it: an optional `+` followed by at least one decimal digit and nothing
/// else, with a value of at most 65535.
pub open spec fn parsed_u16(s: Seq<char>) -> Option<u16> {
    let d = if s.len() > 0 && s[0] == '+' {
        s.drop_first()
    } else {
        s
    };
    if d.len() > 0 && all_digits(d) && digits_value(d) <= 65535 {
        Some(digits_value(d) as u16)
    } else {
        None
    }
}

/// A number spelled by digits is at least the number its first `k` digits
/// spell.
proof fn lemma_digits_value_prefix(s: Seq<char>, k: int)
    requires
        0 <= k <= s.len(),
    ensures
        digits_value(s.take(k)) <= digits_value(s),
    decreases s.len(),
{
    if k < s.len() {
        lemma_digits_value_prefix(s.drop_last(), k);
        assert(s.drop_last().take(k) =~= s.take(k));
    } else {
        assert(s.take(k) =~= s);
    }
}

/// Reads a text as `str::parse::<u16>` does: an optional `+` and at least
/// one decimal digit, with a value of at most 65535.
pub(crate) fn parse_u16(s: &str) -> (r: Option<u16>)
    ensures
        r == parsed_u16(s@),
{
    let v = chars_of(s);
    let start: usize = if v.len() > 0 && v[0] == '+' {
        1
    } else {
        0
    };
    let ghost d = if s@.len() > 0 && s@[0] == '+' {
        s@.drop_first()
    } else {
        s@
    };
    assert(d =~= v@.subrange(start as int, v@.len() as int));
    if start == v.len() {
        return None;
    }
    let mut acc: u32 = 0;
    let mut i: usize = start;
    while i < v.len()
        invariant
            start <= i <= v@.len(),
            d == v@.subrange(start as int, v@.len() as int),
            d.len() > 0,
            parsed_u16(s@) == (if all_digits(d) && digits_value(d) <= 65535 {
                Some(digits_value(d) as u16)
            } else {
                None
            }),
            all_digits(d.take(i - start)),
            acc == digits_value(d.take(i - start)),
            acc <= 65535,
        decreases v.len() - i,
    {
        let c = v[i];
        let k = i - start;
        proof {
            assert(d.take(k + 1).drop_last() =~= d.take(k as int));
            assert(d.take(k + 1).last() == c);
        }
        if !('0' <= c && c <= '9') {
            proof {
                assert(!('0' <= d[k as int] && d[k as int] <= '9'));
            }
            return None;
        }
        acc = acc * 10 + ((c as u32) - 48);
        if acc > 65535 {
            proof {
                if all_digits(d) {
                    lemma_digits_value_prefix(d, k + 1);
                }
            }
            return None;
        }
        i = i + 1;
    }
    assert(d.take(d.len() as int) =~= d);
    Some(acc as u16)
}

/// The project path a project input names: nothing for blank input,
/// otherwise the trimmed text split at every dot.
pub open spec fn project_from_input(s: Seq<char>) -> Seq<Seq<char>> {
    if trimmed(s).len() == 0 {
        seq![]
    } else {
        split_on(trimmed(s), '.')
    }
}

/// The tags a tag input names: its words, trimmed, and one empty tag more
/// when the input ends with a space (the user is starting a new tag).
pub open spec fn tags_from_input(s: Seq<char>) -> Seq<Seq<char>> {
    if s.len() == 0 {
        seq![]
    } else {
        let words = whitespace_words(s).map_values(|w: Seq<char>| trimmed(w));
        if s.last() == ' ' {
            words.push(seq![])
        } else {
            words
        }
    }
}

/// Reads a project input.
pub fn parse_project(input: &str) -> (r: Vec<String>)
    ensures
        strings_view(r@) == project_from_input(input@),
{
    let t = trim(input);
    if t.is_empty() {
        let r: Vec<String> = Vec::new();
        assert(strings_view(r@) =~= seq![]);
        r
    } else {
        split(t, '.')
    }
}

/// Reads a tag input.
pub fn parse_tags(input: &str) -> (r: Vec<String>)
    ensures
        strings_view(r@) == tags_from_input(input@),
{
    if input.is_empty() {
        let r: Vec<String> = Vec::new();
        assert(strings_view(r@) =~= seq![]);
        return r;
    }
    let c = chars_of(input);
    let new_end = c[c.len() - 1] == ' ';
    let words = split_whitespace(input);
    let ghost wv = whitespace_words(input@);
    let mut tags: Vec<String> = Vec::new();
    let mut i: usize = 0;
    while i < words.len()
        invariant
            wv == whitespace_words(input@),
            strings_view(words@) == wv,
            i <= words@.len(),
            strings_view(tags@) == wv.take(i as int).map_values(|w: Seq<char>| trimmed(w)),
        decreases words.len() - i,
    {
        let w = trim(words[i].as_str());
        let ghost before = strings_view(tags@);
        tags.push(w.to_owned());
        proof {
            assert(wv[i as int] == words@[i as int]@);
            assert(strings_view(tags@) =~= before.push(trimmed(wv[i as int])));
            assert(wv.take(i + 1).map_values(|w: Seq<char>| trimmed(w)) =~= wv.take(
                i as int,
            ).map_values(|w: Seq<char>| trimmed(w)).push(trimmed(wv[i as int])));
            assert(strings_view(tags@) =~= wv.take(i + 1).map_values(|w: Seq<char>| trimmed(w)));
        }
        i = i + 1;
    }
    proof {
        assert(wv.take(words@.len() as int) =~= wv);
    }
    if new_end {
        let ghost before = strings_view(tags@);
        tags.push(String::new());
        assert(strings_view(tags@) =~= before.push(seq![]));
    }
    tags
}

} // verus!
