//! Delimited spans in a text, and their replacement.
//!
//! A span is an opening delimiter, a name that holds neither delimiter, and
//! a closing delimiter. An opener that meets another opener or the end of the
//! text before a closer starts no span and is plain text, as is a closer
//! that no span claims.

use vstd::prelude::*;
use crate::strings::{chars_of, string_of_range, texts};

verus! {

/// The text that stands in for a span whose name has no value.
pub open spec fn undefined_text() -> Seq<char> {
    "UNDEFINED"@
}

/// The first position at or after `from` that holds `open` or `close`, or
/// the length of `s` if there is none.
pub open spec fn next_delimiter(s: Seq<char>, open: char, close: char, from: int) -> int
    decreases s.len() - from,
{
    if from < 0 || from >= s.len() {
        s.len() as int
    } else if s[from] == open || s[from] == close {
        from
    } else {
        next_delimiter(s, open, close, from + 1)
    }
}

/// Where the span that would open at `i` ends: the first delimiter after `i`.
pub open spec fn span_end(s: Seq<char>, open: char, close: char, i: int) -> int {
    next_delimiter(s, open, close, i + 1)
}

/// Whether a span opens at position `i`: an opener stands there, and the
/// first delimiter after it is a closer.
pub open spec fn span_at(s: Seq<char>, open: char, close: char, i: int) -> bool {
    &&& 0 <= i < s.len()
    &&& s[i] == open
    &&& span_end(s, open, close, i) < s.len()
    &&& s[span_end(s, open, close, i)] == close
}

/// The name of the span that opens at `i`.
pub open spec fn span_name(s: Seq<char>, open: char, close: char, i: int) -> Seq<char> {
    s.subrange(i + 1, span_end(s, open, close, i))
}

/// The first delimiter at or after `from` lies between `from` and the end,
/// and nothing before it is a delimiter.
pub proof fn lemma_next_delimiter(s: Seq<char>, open: char, close: char, from: int)
    requires
        0 <= from <= s.len(),
    ensures
        from <= next_delimiter(s, open, close, from) <= s.len(),
        forall|k: int|
            from <= k < next_delimiter(s, open, close, from) ==> s[k] != open && s[k] != close,
        next_delimiter(s, open, close, from) < s.len() ==> s[next_delimiter(s, open, close, from)]
            == open || s[next_delimiter(s, open, close, from)] == close,
    decreases s.len() - from,
{
    if from < s.len() && s[from] != open && s[from] != close {
        lemma_next_delimiter(s, open, close, from + 1);
    }
}

/// The names of the spans of `s` that open at or after `from`, in order.
pub open spec fn span_names(s: Seq<char>, open: char, close: char, from: int) -> Seq<Seq<char>>
    decreases s.len() - from,
{
    if from < 0 || from >= s.len() {
        Seq::empty()
    } else if span_at(s, open, close, from) {
        proof {
            lemma_next_delimiter(s, open, close, from + 1);
        }
        seq![span_name(s, open, close, from)] + span_names(
            s,
            open,
            close,
            span_end(s, open, close, from) + 1,
        )
    } else {
        span_names(s, open, close, from + 1)
    }
}

/// The `k`-th fill, or the stand-in text where `fills` has no `k`-th item.
pub open spec fn fill_or_undefined(fills: Seq<Seq<char>>, k: int) -> Seq<char> {
    if 0 <= k < fills.len() {
        fills[k]
    } else {
        undefined_text()
    }
}

/// The part of `s` from `from` on, with each span replaced: the first span
/// by `fills[k]`, the next by `fills[k + 1]`, and so on. Everything outside
/// a span is kept as it is.
pub open spec fn splice(
    s: Seq<char>,
    open: char,
    close: char,
    fills: Seq<Seq<char>>,
    from: int,
    k: int,
) -> Seq<char>
    decreases s.len() - from,
{
    if from < 0 || from >= s.len() {
        Seq::empty()
    } else if span_at(s, open, close, from) {
        proof {
            lemma_next_delimiter(s, open, close, from + 1);
        }
        fill_or_undefined(fills, k) + splice(
            s,
            open,
            close,
            fills,
            span_end(s, open, close, from) + 1,
            k + 1,
        )
    } else {
        seq![s[from]] + splice(s, open, close, fills, from + 1, k)
    }
}

/// A text in which `open` does not occur has no span.
pub proof fn lemma_no_opener_no_span(s: Seq<char>, open: char, close: char, from: int)
    requires
        !s.contains(open),
        0 <= from,
    ensures
        span_names(s, open, close, from) == Seq::<Seq<char>>::empty(),
    decreases s.len() - from,
{
    if from < s.len() {
        assert(s.contains(s[from]));
        lemma_no_opener_no_span(s, open, close, from + 1);
    }
}

/// A name without delimiters between an opener and a closer is one span,
/// and nothing else in that text is.
pub proof fn lemma_single_span(name: Seq<char>, open: char, close: char, fills: Seq<Seq<char>>, k: int)
    requires
        open != close,
        !name.contains(open),
        !name.contains(close),
    ensures
        span_names(seq![open] + name + seq![close], open, close, 0) == seq![name],
        splice(seq![open] + name + seq![close], open, close, fills, 0, k) == fill_or_undefined(
            fills,
            k,
        ),
{
    let s = seq![open] + name + seq![close];
    let end: int = name.len() as int + 1;
    assert forall|i: int| 1 <= i < end implies s[i] != open && s[i] != close by {
        assert(s[i] == name[i - 1]);
        assert(name.contains(name[i - 1]));
    }
    lemma_delimiter_after_name(s, open, close, 1, end);
    assert(s[end] == close);
    assert(span_at(s, open, close, 0));
    assert(span_name(s, open, close, 0) =~= name) by {
        assert forall|i: int| 0 <= i < name.len() implies s[i + 1] == name[i] by {}
    }
    assert(span_names(s, open, close, end + 1) == Seq::<Seq<char>>::empty());
    assert(span_names(s, open, close, 0) =~= seq![name]);
    assert(splice(s, open, close, fills, end + 1, k + 1) == Seq::<char>::empty());
    assert(splice(s, open, close, fills, 0, k) =~= fill_or_undefined(fills, k));
}

/// Where no delimiter stands from `from` up to `end`, and one stands at
/// `end`, the first delimiter from `from` on is the one at `end`.
pub proof fn lemma_delimiter_after_name(s: Seq<char>, open: char, close: char, from: int, end: int)
    requires
        0 <= from <= end < s.len(),
        forall|i: int| from <= i < end ==> s[i] != open && s[i] != close,
        s[end] == open || s[end] == close,
    ensures
        next_delimiter(s, open, close, from) == end,
    decreases end - from,
{
    if from < end {
        lemma_delimiter_after_name(s, open, close, from + 1, end);
    }
}

/// A text without spans is unchanged by splicing, whatever the fills.
pub proof fn lemma_splice_without_spans(
    s: Seq<char>,
    open: char,
    close: char,
    fills: Seq<Seq<char>>,
    from: int,
    k: int,
)
    requires
        0 <= from <= s.len(),
        span_names(s, open, close, from).len() == 0,
    ensures
        splice(s, open, close, fills, from, k) == s.subrange(from, s.len() as int),
    decreases s.len() - from,
{
    if from < s.len() {
        if span_at(s, open, close, from) {
            assert(span_names(s, open, close, from).len() > 0);
        } else {
            lemma_splice_without_spans(s, open, close, fills, from + 1, k);
            assert(seq![s[from]] + s.subrange(from + 1, s.len() as int) =~= s.subrange(
                from,
                s.len() as int,
            ));
        }
    } else {
        assert(s.subrange(from, s.len() as int) =~= Seq::<char>::empty());
    }
}

/// The first delimiter of `v` at or after `from`.
fn find_delimiter(v: &Vec<char>, open: char, close: char, from: usize) -> (j: usize)
    requires
        from <= v.len(),
    ensures
        j == next_delimiter(v@, open, close, from as int),
        from <= j <= v.len(),
{
    let mut j: usize = from;
    while j < v.len() && v[j] != open && v[j] != close
        invariant
            from <= j <= v.len(),
            next_delimiter(v@, open, close, from as int) == next_delimiter(
                v@,
                open,
                close,
                j as int,
            ),
        decreases v.len() - j,
    {
        j = j + 1;
    }
    j
}

/// The names of the spans of `content`, in order.
pub fn span_names_of(content: &str, open: char, close: char) -> (names: Vec<String>)
    ensures
        texts(names@) == span_names(content@, open, close, 0),
{
    let v = chars_of(content);
    let mut names: Vec<String> = Vec::new();
    let mut i: usize = 0;
    assert(texts(names@) =~= Seq::<Seq<char>>::empty());
    while i < v.len()
        invariant
            i <= v.len(),
            v@ == content@,
            texts(names@) + span_names(v@, open, close, i as int) == span_names(v@, open, close, 0),
        decreases v.len() - i,
    {
        if v[i] == open {
            let j = find_delimiter(&v, open, close, i + 1);
            if j < v.len() && v[j] == close {
                let name = string_of_range(&v, i + 1, j);
                proof {
                    let rest = span_names(v@, open, close, j + 1);
                    assert(span_names(v@, open, close, i as int) == seq![name@] + rest);
                    assert(texts(names@.push(name)) =~= texts(names@) + seq![name@]);
                    assert(texts(names@.push(name)) + rest =~= texts(names@) + (seq![name@] + rest));
                }
                names.push(name);
                i = j + 1;
            } else {
                i = i + 1;
            }
        } else {
            i = i + 1;
        }
    }
    assert(texts(names@) + Seq::<Seq<char>>::empty() =~= texts(names@));
    names
}

/// `content` with each of its spans replaced by the fill of the same rank:
/// the first span by `fills[0]`, and so on. A span beyond the last fill is
/// replaced by `UNDEFINED`.
pub fn splice_spans(content: &str, open: char, close: char, fills: &Vec<String>) -> (out: String)
    ensures
        out@ == splice(content@, open, close, texts(fills@), 0, 0),
{
    let v = chars_of(content);
    let mut out = String::new();
    let mut i: usize = 0;
    let mut k: usize = 0;
    assert(out@ + splice(v@, open, close, texts(fills@), 0, 0) =~= splice(
        v@,
        open,
        close,
        texts(fills@),
        0,
        0,
    ));
    while i < v.len()
        invariant
            i <= v.len(),
            k <= i,
            v@ == content@,
            out@ + splice(v@, open, close, texts(fills@), i as int, k as int) == splice(
                v@,
                open,
                close,
                texts(fills@),
                0,
                0,
            ),
        decreases v.len() - i,
    {
        let ghost before = out@;
        let ghost tail = splice(v@, open, close, texts(fills@), i as int, k as int);
        if v[i] == open {
            let j = find_delimiter(&v, open, close, i + 1);
            if j < v.len() && v[j] == close {
                if k < fills.len() {
                    out.append(fills[k].as_str());
                } else {
                    out.append("UNDEFINED");
                }
                proof {
                    let rest = splice(v@, open, close, texts(fills@), j + 1, k + 1);
                    let fill = fill_or_undefined(texts(fills@), k as int);
                    assert(tail == fill + rest);
                    assert(out@ == before + fill);
                    assert((before + fill) + rest =~= before + (fill + rest));
                }
                i = j + 1;
                k = k + 1;
            } else {
                out.push(v[i]);
                proof {
                    let rest = splice(v@, open, close, texts(fills@), i + 1, k as int);
                    assert(tail == seq![v@[i as int]] + rest);
                    assert(before.push(v@[i as int]) + rest =~= before + (seq![v@[i as int]] + rest));
                }
                i = i + 1;
            }
        } else {
            out.push(v[i]);
            proof {
                let rest = splice(v@, open, close, texts(fills@), i + 1, k as int);
                assert(tail == seq![v@[i as int]] + rest);
                assert(before.push(v@[i as int]) + rest =~= before + (seq![v@[i as int]] + rest));
            }
            i = i + 1;
        }
    }
    assert(out@ + Seq::<char>::empty() =~= out@);
    out
}

} // verus!
