//! Character-level helpers for `str` and `String`.
//!
//! Strings are modelled by their view, a `Seq<char>`. Everything here is
//! stated over that view.

use vstd::prelude::*;
use vstd::string::StringExecFns;
use crate::spans::{lemma_next_delimiter, next_delimiter};

verus! {

/// `String::push` of the standard library appends one character to the end
/// of the string and leaves the rest as it was.
pub assume_specification[ String::push ](s: &mut String, ch: char)
    ensures
        final(s)@ == old(s)@.push(ch),
;

/// The texts of a sequence of strings, in order.
pub open spec fn texts(v: Seq<String>) -> Seq<Seq<char>> {
    Seq::new(v.len(), |i: int| v[i]@)
}

/// The characters of `s`, in order.
pub fn chars_of(s: &str) -> (v: Vec<char>)
    ensures
        v@ == s@,
{
    let mut v: Vec<char> = Vec::new();
    for c in it: s.chars()
        invariant
            it.seq() == s@,
            v@ == it.seq().take(it.index() as int),
    {
        v.push(c);
    }
    v
}

/// Whether `a` and `b` hold the same characters.
pub fn str_eq(a: &str, b: &str) -> (r: bool)
    ensures
        r == (a@ == b@),
{
    let x = chars_of(a);
    let y = chars_of(b);
    if x.len() != y.len() {
        return false;
    }
    let mut i: usize = 0;
    while i < x.len()
        invariant
            i <= x.len(),
            x.len() == y.len(),
            x@ == a@,
            y@ == b@,
            forall|k: int| 0 <= k < i ==> x@[k] == y@[k],
        decreases x.len() - i,
    {
        if x[i] != y[i] {
            return false;
        }
        i = i + 1;
    }
    assert(a@ =~= b@);
    true
}

/// The string made of the characters `v[from..to]`.
pub fn string_of_range(v: &Vec<char>, from: usize, to: usize) -> (s: String)
    requires
        from <= to <= v.len(),
    ensures
        s@ == v@.subrange(from as int, to as int),
{
    let mut s = String::new();
    let mut i: usize = from;
    while i < to
        invariant
            from <= i <= to <= v.len(),
            s@ == v@.subrange(from as int, i as int),
        decreases to - i,
    {
        s.push(v[i]);
        i = i + 1;
    }
    s
}

/// Whether `c` occurs in `s`.
pub fn contains_char(s: &str, c: char) -> (r: bool)
    ensures
        r == s@.contains(c),
{
    let v = chars_of(s);
    let mut i: usize = 0;
    while i < v.len()
        invariant
            i <= v.len(),
            v@ == s@,
            forall|k: int| 0 <= k < i ==> v@[k] != c,
        decreases v.len() - i,
    {
        if v[i] == c {
            return true;
        }
        i = i + 1;
    }
    false
}

/// The lower-case form of a text, as `str::to_lowercase` of the standard
/// library gives it.
pub uninterp spec fn lowercase_text(text: Seq<char>) -> Seq<char>;

/// `str::to_lowercase` of the standard library: the lower-case form of
/// `s`, which depends on nothing but the characters of `s`.
#[verifier::external_body]
pub(crate) fn to_lowercase(s: &str) -> (lower: String)
    ensures
        lower@ == lowercase_text(s@),
{
    s.to_lowercase()
}

/// What is left of `s` behind `prefix`, if `s` starts with `prefix`.
pub fn strip_prefix(s: &str, prefix: &str) -> (rest: Option<String>)
    ensures
        match rest {
            Some(r) => prefix@.is_prefix_of(s@) && r@ == s@.skip(prefix@.len() as int),
            None => !prefix@.is_prefix_of(s@),
        },
{
    let text = chars_of(s);
    let head = chars_of(prefix);
    if head.len() > text.len() {
        return None;
    }
    let mut i: usize = 0;
    while i < head.len()
        invariant
            i <= head.len() <= text.len(),
            text@ == s@,
            head@ == prefix@,
            forall|k: int| 0 <= k < i ==> head@[k] == text@[k],
        decreases head.len() - i,
    {
        if head[i] != text[i] {
            assert(prefix@[i as int] != s@.subrange(0, prefix@.len() as int)[i as int]);
            return None;
        }
        i = i + 1;
    }
    assert(prefix@ =~= s@.subrange(0, prefix@.len() as int));
    let rest = string_of_range(&text, head.len(), text.len());
    assert(rest@ =~= s@.skip(prefix@.len() as int));
    Some(rest)
}

/// The texts `parts` written one after the other with `sep` between them.
pub open spec fn joined(parts: Seq<Seq<char>>, sep: Seq<char>) -> Seq<char>
    decreases parts.len(),
{
    if parts.len() == 0 {
        Seq::empty()
    } else if parts.len() == 1 {
        parts[0]
    } else {
        joined(parts.drop_last(), sep) + sep + parts.last()
    }
}

/// Writes `parts` one after the other with `sep` between them.
pub fn join(parts: &Vec<String>, sep: &str) -> (out: String)
    ensures
        out@ == joined(texts(parts@), sep@),
{
    let mut out = String::new();
    let mut i: usize = 0;
    let ghost all = texts(parts@);
    assert(all.take(0) =~= Seq::<Seq<char>>::empty());
    while i < parts.len()
        invariant
            i <= parts.len(),
            all == texts(parts@),
            out@ == joined(all.take(i as int), sep@),
        decreases parts.len() - i,
    {
        let ghost before = out@;
        if i > 0 {
            out.append(sep);
        }
        out.append(parts[i].as_str());
        proof {
            let next = all.take(i + 1);
            assert(next.drop_last() =~= all.take(i as int));
            assert(next.last() == parts[i as int]@);
            if i == 0 {
                assert(out@ =~= parts[i as int]@);
            } else {
                assert(out@ =~= before + sep@ + parts[i as int]@);
            }
        }
        i = i + 1;
    }
    assert(all.take(parts.len() as int) =~= all);
    out
}

/// Whether `c` is a white space character.
pub open spec fn is_white_space(c: char) -> bool {
    ||| c == ' '
    ||| '\u{9}' <= c <= '\u{d}'
    ||| c == '\u{85}'
    ||| c == '\u{a0}'
    ||| c == '\u{1680}'
    ||| '\u{2000}' <= c <= '\u{200a}'
    ||| c == '\u{2028}'
    ||| c == '\u{2029}'
    ||| c == '\u{202f}'
    ||| c == '\u{205f}'
    ||| c == '\u{3000}'
}

/// Whether `c` is a white space character.
pub fn white_space(c: char) -> (r: bool)
    ensures
        r == is_white_space(c),
{
    c == ' ' || ('\u{9}' <= c && c <= '\u{d}') || c == '\u{85}' || c == '\u{a0}' || c == '\u{1680}'
        || ('\u{2000}' <= c && c <= '\u{200a}') || c == '\u{2028}' || c == '\u{2029}' || c
        == '\u{202f}' || c == '\u{205f}' || c == '\u{3000}'
}

/// The first place at or after `from` that holds no white space, or the
/// length of `text`.
pub open spec fn first_black(text: Seq<char>, from: int) -> int
    decreases text.len() - from,
{
    if from < 0 || from >= text.len() {
        text.len() as int
    } else if !is_white_space(text[from]) {
        from
    } else {
        first_black(text, from + 1)
    }
}

/// The place behind the last character before `to` that is no white
/// space, or `start` where only white space stands between the two.
pub open spec fn last_black_end(text: Seq<char>, start: int, to: int) -> int
    decreases to - start,
{
    if to <= start || to > text.len() {
        start
    } else if !is_white_space(text[to - 1]) {
        to
    } else {
        last_black_end(text, start, to - 1)
    }
}

/// A text without the white space at its ends.
pub open spec fn trimmed_text(text: Seq<char>) -> Seq<char> {
    let start = first_black(text, 0);
    text.subrange(start, last_black_end(text, start, text.len() as int))
}

/// `s` without the white space at its ends.
pub fn trim(s: &str) -> (trimmed: String)
    ensures
        trimmed@ == trimmed_text(s@),
{
    let v = chars_of(s);
    let mut start: usize = 0;
    while start < v.len() && white_space(v[start])
        invariant
            start <= v.len(),
            first_black(v@, 0) == first_black(v@, start as int),
        decreases v.len() - start,
    {
        start = start + 1;
    }
    let mut end: usize = v.len();
    while end > start && white_space(v[end - 1])
        invariant
            start <= end <= v.len(),
            last_black_end(v@, start as int, v.len() as int) == last_black_end(
                v@,
                start as int,
                end as int,
            ),
        decreases end - start,
    {
        end = end - 1;
    }
    string_of_range(&v, start, end)
}

/// The pieces of `s` from `from` on that lie between occurrences of `sep`.
/// There is always at least one piece; pieces may be empty.
pub open spec fn split_from(s: Seq<char>, sep: char, from: int) -> Seq<Seq<char>>
    decreases s.len() - from,
{
    let next = next_delimiter(s, sep, sep, from);
    if from < 0 || from > s.len() {
        Seq::empty()
    } else if next >= s.len() {
        seq![s.subrange(from, s.len() as int)]
    } else {
        proof {
            lemma_next_delimiter(s, sep, sep, from);
        }
        seq![s.subrange(from, next)] + split_from(s, sep, next + 1)
    }
}

/// The pieces of `s` that lie between occurrences of `sep`.
pub fn split(s: &str, sep: char) -> (parts: Vec<String>)
    ensures
        texts(parts@) == split_from(s@, sep, 0),
{
    let v = chars_of(s);
    let mut parts: Vec<String> = Vec::new();
    let mut start: usize = 0;
    assert(texts(parts@) =~= Seq::<Seq<char>>::empty());
    loop
        invariant_except_break
            start <= v.len(),
            v@ == s@,
            texts(parts@) + split_from(v@, sep, start as int) == split_from(v@, sep, 0),
        ensures
            v@ == s@,
            texts(parts@) == split_from(v@, sep, 0),
        decreases v.len() - start,
    {
        let mut end: usize = start;
        while end < v.len() && v[end] != sep
            invariant
                start <= end <= v.len(),
                next_delimiter(v@, sep, sep, start as int) == next_delimiter(
                    v@,
                    sep,
                    sep,
                    end as int,
                ),
            decreases v.len() - end,
        {
            end = end + 1;
        }
        let piece = string_of_range(&v, start, end);
        let ghost before = texts(parts@);
        parts.push(piece);
        proof {
            assert(texts(parts@) =~= before + seq![piece@]);
            if end < v.len() {
                let rest = split_from(v@, sep, end + 1);
                assert(split_from(v@, sep, start as int) == seq![piece@] + rest);
                assert((before + seq![piece@]) + rest =~= before + (seq![piece@] + rest));
            } else {
                assert(split_from(v@, sep, start as int) == seq![piece@]);
            }
        }
        if end >= v.len() {
            break;
        }
        start = end + 1;
    }
    parts
}

} // verus!
