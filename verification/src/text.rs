//! Character-level text helpers: views of string lists, substring search,
//! joining and splitting, and the few standard-library string calls the
//! task logic relies on.
use vstd::prelude::*;

verus! {

/// The character sequences of a list of strings.
pub open spec fn strings_view(v: Seq<String>) -> Seq<Seq<char>> {
    v.map_values(|s: String| s@)
}

/// `needle` occurs in `hay` starting at position `i`.
pub open spec fn occurs_at(hay: Seq<char>, needle: Seq<char>, i: int) -> bool {
    &&& 0 <= i
    &&& i + needle.len() <= hay.len()
    &&& hay.subrange(i, i + needle.len()) == needle
}

/// `needle` is a substring of `hay` (the empty string is a substring of every string).
pub open spec fn has_substring(hay: Seq<char>, needle: Seq<char>) -> bool {
    exists|i: int| occurs_at(hay, needle, i)
}

/// The pieces of `parts` written one after another with `sep` between neighbours.
pub open spec fn joined(parts: Seq<Seq<char>>, sep: Seq<char>) -> Seq<char>
    decreases parts.len(),
{
    if parts.len() == 0 {
        seq![]
    } else if parts.len() == 1 {
        parts[0]
    } else {
        joined(parts.drop_last(), sep) + sep + parts.last()
    }
}

/// The pieces of `s` between occurrences of `sep`, as `str::split` with a
/// character pattern yields them: always at least one piece, possibly empty.
pub open spec fn split_on(s: Seq<char>, sep: char) -> Seq<Seq<char>>
    decreases s.len(),
{
    if s.len() == 0 {
        seq![seq![]]
    } else {
        let pieces = split_on(s.drop_last(), sep);
        if s.last() == sep {
            pieces.push(seq![])
        } else {
            pieces.update(pieces.len() - 1, pieces.last().push(s.last()))
        }
    }
}

/// The result of `str::to_lowercase` on a string.
pub uninterp spec fn lowercase_of(s: Seq<char>) -> Seq<char>;

/// The result of `str::trim` on a string.
pub uninterp spec fn trimmed(s: Seq<char>) -> Seq<char>;

/// The result of `str::split_whitespace` on a string, one entry per word.
pub uninterp spec fn whitespace_words(s: Seq<char>) -> Seq<Seq<char>>;

/// Calls `str::to_lowercase`. Claimed: the result is the named function
/// `lowercase_of` of the input, and it is empty exactly when the input is
/// (every character lowercases to at least one character). What each
/// character maps to, by the Unicode tables, is not stated.
#[verifier::external_body]
pub(crate) fn to_lowercase(s: &str) -> (r: String)
    ensures
        r@ == lowercase_of(s@),
        r@.len() == 0 <==> s@.len() == 0,
{
    s.to_lowercase()
}

/// Calls `str::trim`. Claimed: the result is the named function `trimmed` of
/// the input. Which characters count as whitespace is not stated.
#[verifier::external_body]
pub(crate) fn trim(s: &str) -> (r: &str)
    ensures
        r@ == trimmed(s@),
{
    s.trim()
}

/// Calls `str::split_whitespace` and owns each word. Claimed: the words are
/// the named function `whitespace_words` of the input; nothing more is stated.
#[verifier::external_body]
pub(crate) fn split_whitespace(s: &str) -> (r: Vec<String>)
    ensures
        strings_view(r@) == whitespace_words(s@),
{
    s.split_whitespace().map(str::to_owned).collect()
}

/// Calls `str::chars` and collects the characters. Claimed: they are the
/// characters of `s`, in order.
#[verifier::external_body]
pub(crate) fn chars_of(s: &str) -> (r: Vec<char>)
    ensures
        r@ == s@,
{
    s.chars().collect()
}

/// Collects characters into a `String`. Claimed: the string holds exactly
/// those characters, in order.
#[verifier::external_body]
pub(crate) fn string_from_chars(v: &[char]) -> (r: String)
    ensures
        r@ == v@,
{
    v.iter().collect()
}

/// Whether two strings hold the same characters.
pub fn same_text(a: &str, b: &str) -> (r: bool)
    ensures
        r == (a@ == b@),
{
    let x = chars_of(a);
    let y = chars_of(b);
    if x.len() != y.len() {
        return false;
    }
    let mut i: usize = 0;
    while i < x.len()
        invariant
            x@ == a@,
            y@ == b@,
            x.len() == y.len(),
            i <= x.len(),
            forall|j: int| 0 <= j < i ==> x@[j] == y@[j],
        decreases x.len() - i,
    {
        if x[i] != y[i] {
            return false;
        }
        i = i + 1;
    }
    assert(x@ =~= y@);
    true
}

/// Whether `needle` occurs at position `i` of `hay`.
fn matches_at(hay: &Vec<char>, needle: &Vec<char>, i: usize) -> (r: bool)
    requires
        i + needle@.len() <= hay@.len(),
    ensures
        r == occurs_at(hay@, needle@, i as int),
{
    let hl = hay.len();
    let mut k: usize = 0;
    while k < needle.len()
        invariant
            hl == hay@.len(),
            i + needle@.len() <= hay@.len(),
            k <= needle.len(),
            forall|j: int| 0 <= j < k ==> hay@[i + j] == needle@[j],
        decreases needle.len() - k,
    {
        if hay[i + k] != needle[k] {
            assert(hay@.subrange(i as int, i + needle@.len())[k as int] != needle@[k as int]);
            return false;
        }
        k = k + 1;
    }
    assert(hay@.subrange(i as int, i + needle@.len()) =~= needle@);
    true
}

/// Whether `needle` is a substring of `hay`, as `str::contains` with a string pattern.
pub fn contains(hay: &str, needle: &str) -> (r: bool)
    ensures
        r == has_substring(hay@, needle@),
{
    let h = chars_of(hay);
    let n = chars_of(needle);
    if n.len() > h.len() {
        assert forall|i: int| !occurs_at(h@, n@, i) by {}
        return false;
    }
    if n.len() == 0 {
        proof {
            lemma_empty_is_substring(hay@);
            assert(needle@ =~= seq![]);
        }
        return true;
    }
    let hl = h.len();
    let bound = hl - n.len() + 1;
    let mut i: usize = 0;
    while i < bound
        invariant
            h@ == hay@,
            n@ == needle@,
            hl == h@.len(),
            1 <= n@.len() <= hl,
            bound == hl - n@.len() + 1,
            i <= bound,
            forall|j: int| 0 <= j < i ==> !occurs_at(h@, n@, j),
        decreases hl - i,
    {
        if matches_at(&h, &n, i) {
            return true;
        }
        i = i + 1;
    }
    assert forall|j: int| !occurs_at(h@, n@, j) by {
        if 0 <= j < i {
        }
    }
    false
}

/// Lemma: the empty string is a substring of every string.
pub proof fn lemma_empty_is_substring(hay: Seq<char>)
    ensures
        has_substring(hay, seq![]),
{
    assert(hay.subrange(0, 0) =~= seq![]);
    assert(occurs_at(hay, seq![], 0));
}

/// The strings of `parts` joined with `sep`, as `[String]::join` does.
pub fn join(parts: &[String], sep: &str) -> (r: String)
    ensures
        r@ == joined(strings_view(parts@), sep@),
{
    let s = chars_of(sep);
    let mut out: Vec<char> = Vec::new();
    let ghost view = strings_view(parts@);
    let mut i: usize = 0;
    while i < parts.len()
        invariant
            view == strings_view(parts@),
            s@ == sep@,
            i <= parts@.len(),
            out@ == joined(view.take(i as int), sep@),
        decreases parts.len() - i,
    {
        let p = chars_of(parts[i].as_str());
        assert(view.take(i + 1).drop_last() =~= view.take(i as int));
        if i > 0 {
            let mut k: usize = 0;
            let ghost before = out@;
            while k < s.len()
                invariant
                    k <= s@.len(),
                    out@ == before + s@.take(k as int),
                decreases s.len() - k,
            {
                out.push(s[k]);
                k = k + 1;
                assert(out@ =~= before + s@.take(k as int));
            }
            assert(s@.take(s@.len() as int) =~= s@);
        }
        let mut k: usize = 0;
        let ghost before = out@;
        while k < p.len()
            invariant
                k <= p@.len(),
                out@ == before + p@.take(k as int),
            decreases p.len() - k,
        {
            out.push(p[k]);
            k = k + 1;
            assert(out@ =~= before + p@.take(k as int));
        }
        assert(p@.take(p@.len() as int) =~= p@);
        assert(view[i as int] == parts@[i as int]@);
        if i == 0 {
            assert(out@ =~= view.take(1)[0]);
        }
        i = i + 1;
    }
    assert(view.take(parts@.len() as int) =~= view);
    string_from_chars(out.as_slice())
}

/// `s` split at every occurrence of `sep`, as `str::split` with a character.
pub fn split(s: &str, sep: char) -> (r: Vec<String>)
    ensures
        strings_view(r@) == split_on(s@, sep),
{
    let c = chars_of(s);
    let mut done: Vec<String> = Vec::new();
    let mut current: Vec<char> = Vec::new();
    let mut i: usize = 0;
    while i < c.len()
        invariant
            c@ == s@,
            i <= c@.len(),
            strings_view(done@).push(current@) == split_on(c@.take(i as int), sep),
        decreases c.len() - i,
    {
        assert(c@.take(i + 1).drop_last() =~= c@.take(i as int));
        let ghost prev = strings_view(done@).push(current@);
        if c[i] == sep {
            let piece = string_from_chars(current.as_slice());
            done.push(piece);
            current = Vec::new();
            assert(strings_view(done@) =~= prev);
            assert(strings_view(done@).push(current@) =~= prev.push(seq![]));
        } else {
            current.push(c[i]);
            assert(strings_view(done@).push(current@) =~= prev.update(
                prev.len() - 1,
                prev.last().push(c@[i as int]),
            ));
        }
        i = i + 1;
    }
    assert(c@.take(c@.len() as int) =~= c@);
    let piece = string_from_chars(current.as_slice());
    let ghost before = strings_view(done@).push(current@);
    done.push(piece);
    assert(strings_view(done@) =~= before);
    done
}

} // verus!

verus! {

/// The Unicode scalar value of a character.
pub open spec fn char_code(c: char) -> u32 {
    c as u32
}

/// Characters with the same scalar value are the same character.
pub proof fn lemma_char_code_injective(x: char, y: char)
    ensures
        char_code(x) == char_code(y) ==> x == y,
{
}

/// The Unicode scalar value of a character.
pub fn code_of(c: char) -> (r: u32)
    ensures
        r == char_code(c),
{
    c as u32
}

} // verus!

verus! {

/// The texts of `parts` written one after another.
pub open spec fn concatenated(parts: Seq<Seq<char>>) -> Seq<char>
    decreases parts.len(),
{
    if parts.len() == 0 {
        seq![]
    } else {
        concatenated(parts.drop_last()) + parts.last()
    }
}

/// The character sequences of a list of string slices.
pub open spec fn strs_view(v: Seq<&str>) -> Seq<Seq<char>> {
    v.map_values(|s: &str| s@)
}

/// The texts of `parts` written one after another.
pub fn concat_strs(parts: &Vec<&str>) -> (r: String)
    ensures
        r@ == concatenated(strs_view(parts@)),
{
    let ghost view = strs_view(parts@);
    let mut out: Vec<char> = Vec::new();
    let mut i: usize = 0;
    while i < parts.len()
        invariant
            view == strs_view(parts@),
            i <= parts@.len(),
            out@ == concatenated(view.take(i as int)),
        decreases parts.len() - i,
    {
        let p = chars_of(parts[i]);
        let ghost before = out@;
        let mut k: usize = 0;
        while k < p.len()
            invariant
                k <= p@.len(),
                out@ == before + p@.take(k as int),
            decreases p.len() - k,
        {
            out.push(p[k]);
            k = k + 1;
            assert(out@ =~= before + p@.take(k as int));
        }
        assert(p@.take(p@.len() as int) =~= p@);
        assert(view.take(i + 1).drop_last() =~= view.take(i as int));
        assert(view[i as int] == parts@[i as int]@);
        i = i + 1;
    }
    assert(view.take(parts@.len() as int) =~= view);
    string_from_chars(out.as_slice())
}

/// Two texts written one after another.
pub proof fn lemma_concatenated_two(a: Seq<char>, b: Seq<char>)
    ensures
        concatenated(seq![a, b]) == a + b,
{
    assert(seq![a, b].drop_last() =~= seq![a]);
    assert(seq![a].drop_last() =~= Seq::<Seq<char>>::empty());
    assert(concatenated(Seq::<Seq<char>>::empty()) == Seq::<char>::empty());
    assert(concatenated(seq![a]) == Seq::<char>::empty() + a);
    assert(Seq::<char>::empty() + a =~= a);
}

/// Three texts written one after another.
pub proof fn lemma_concatenated_three(a: Seq<char>, b: Seq<char>, c: Seq<char>)
    ensures
        concatenated(seq![a, b, c]) == a + b + c,
{
    assert(seq![a, b, c].drop_last() =~= seq![a, b]);
    lemma_concatenated_two(a, b);
}

/// Four texts written one after another.
pub proof fn lemma_concatenated_four(a: Seq<char>, b: Seq<char>, c: Seq<char>, d: Seq<char>)
    ensures
        concatenated(seq![a, b, c, d]) == a + b + c + d,
{
    assert(seq![a, b, c, d].drop_last() =~= seq![a, b, c]);
    lemma_concatenated_three(a, b, c);
}

/// Five texts written one after another.
pub proof fn lemma_concatenated_five(a: Seq<char>, b: Seq<char>, c: Seq<char>, d: Seq<char>, e: Seq<char>)
    ensures
        concatenated(seq![a, b, c, d, e]) == a + b + c + d + e,
{
    assert(seq![a, b, c, d, e].drop_last() =~= seq![a, b, c, d]);
    lemma_concatenated_four(a, b, c, d);
}

proof fn lemma_split_on_nonempty(s: Seq<char>, sep: char)
    ensures
        split_on(s, sep).len() >= 1,
    decreases s.len(),
{
    if s.len() > 0 {
        lemma_split_on_nonempty(s.drop_last(), sep);
    }
}

/// Law: the pieces of a text split at a character, joined again with that
/// character, give the text back.
pub proof fn law_join_split(s: Seq<char>, sep: char)
    ensures
        joined(split_on(s, sep), seq![sep]) == s,
    decreases s.len(),
{
    if s.len() > 0 {
        let t = s.drop_last();
        let x = s.last();
        let p = split_on(t, sep);
        law_join_split(t, sep);
        lemma_split_on_nonempty(t, sep);
        if x == sep {
            assert(p.push(seq![]).drop_last() =~= p);
            assert(joined(p, seq![sep]) + seq![sep] + Seq::<char>::empty() =~= s);
        } else {
            let q = p.update(p.len() - 1, p.last().push(x));
            assert(s =~= t.push(x));
            if p.len() == 1 {
                assert(q[0] =~= s);
            } else {
                assert(q.drop_last() =~= p.drop_last());
                assert(q.last() == p.last().push(x));
                assert(joined(p, seq![sep]) == joined(p.drop_last(), seq![sep]) + seq![sep] + p.last());
                assert(joined(q, seq![sep]) == joined(p.drop_last(), seq![sep]) + seq![sep] + p.last().push(x));
                assert(joined(p.drop_last(), seq![sep]) + seq![sep] + p.last().push(x) =~= (joined(
                    p.drop_last(),
                    seq![sep],
                ) + seq![sep] + p.last()).push(x));
            }
        }
    }
}

/// Splitting after a separator and a text without separators adds that
/// text as a last piece.
proof fn lemma_split_on_append(a: Seq<char>, sep: char, b: Seq<char>)
    requires
        !b.contains(sep),
    ensures
        split_on(a + seq![sep] + b, sep) == split_on(a, sep).push(b),
    decreases b.len(),
{
    if b.len() == 0 {
        assert(b =~= Seq::<char>::empty());
        assert(a + seq![sep] + b =~= a.push(sep));
        assert((a.push(sep)).drop_last() =~= a);
    } else {
        let b0 = b.drop_last();
        assert(b0.push(b.last()) =~= b);
        assert(!b0.contains(sep)) by {
            if b0.contains(sep) {
                let k = choose|k: int| 0 <= k < b0.len() && b0[k] == sep;
                assert(b[k] == sep);
            }
        }
        lemma_split_on_append(a, sep, b0);
        let whole = a + seq![sep] + b;
        assert(whole.drop_last() =~= a + seq![sep] + b0);
        assert(whole.last() == b.last());
        assert(b.last() != sep) by {
            assert(b[b.len() - 1] == b.last());
        }
        let p = split_on(a, sep).push(b0);
        assert(p.update(p.len() - 1, p.last().push(b.last())) =~= split_on(a, sep).push(b));
    }
}

/// Law: pieces without the separator, joined with it and split at it
/// again, give the pieces back (for at least one piece).
pub proof fn law_split_join(parts: Seq<Seq<char>>, sep: char)
    requires
        parts.len() >= 1,
        forall|i: int| 0 <= i < parts.len() ==> !(#[trigger] parts[i]).contains(sep),
    ensures
        split_on(joined(parts, seq![sep]), sep) == parts,
    decreases parts.len(),
{
    if parts.len() == 1 {
        lemma_split_plain(parts[0], sep);
        assert(seq![parts[0]] =~= parts);
    } else {
        let init = parts.drop_last();
        assert forall|i: int| 0 <= i < init.len() implies !(#[trigger] init[i]).contains(sep) by {
            assert(init[i] == parts[i]);
        }
        law_split_join(init, sep);
        assert(!parts.last().contains(sep)) by {
            assert(parts[parts.len() - 1] == parts.last());
        }
        lemma_split_on_append(joined(init, seq![sep]), sep, parts.last());
        assert(init.push(parts.last()) =~= parts);
    }
}

/// A text without the separator splits into itself alone.
proof fn lemma_split_plain(b: Seq<char>, sep: char)
    requires
        !b.contains(sep),
    ensures
        split_on(b, sep) == seq![b],
    decreases b.len(),
{
    if b.len() == 0 {
        assert(b =~= Seq::<char>::empty());
        assert(seq![Seq::<char>::empty()] =~= seq![b]);
    } else {
        let b0 = b.drop_last();
        assert(!b0.contains(sep)) by {
            if b0.contains(sep) {
                let k = choose|k: int| 0 <= k < b0.len() && b0[k] == sep;
                assert(b[k] == sep);
            }
        }
        lemma_split_plain(b0, sep);
        assert(b.last() != sep) by {
            assert(b[b.len() - 1] == b.last());
        }
        assert(b0.push(b.last()) =~= b);
        assert(seq![b0].update(0, b0.push(b.last())) =~= seq![b]);
    }
}

} // verus!
