//! How a resolved text becomes a value: booleans and unsigned numbers.

use vstd::prelude::*;
use crate::strings::{chars_of, str_eq};

verus! {

/// A type whose values can be written out as text in a template.
pub trait Templated: Sized {
    /// The value that `text` denotes, if it denotes one.
    spec fn from_text(text: Seq<char>) -> Option<Self>;

    /// Reads a value from `text`.
    fn parse_text(text: &str) -> (r: Option<Self>)
        ensures
            r == Self::from_text(text@),
    ;

    /// A copy of the value.
    fn duplicate(&self) -> (r: Self)
        ensures
            r == *self,
    ;
}

/// Whether `c` is one of the ten decimal digits.
pub open spec fn is_digit(c: char) -> bool {
    '0' <= c <= '9'
}

/// The number that the decimal digits `digits` write.
pub open spec fn decimal(digits: Seq<char>) -> nat
    decreases digits.len(),
{
    if digits.len() == 0 {
        0
    } else {
        (decimal(digits.drop_last()) * 10 + (digits.last() as nat - '0' as nat)) as nat
    }
}

/// The digits of an unsigned number text: the text itself, without the `+`
/// that may stand in front.
pub open spec fn unsigned_digits(text: Seq<char>) -> Seq<char> {
    if text.len() > 0 && text[0] == '+' {
        text.drop_first()
    } else {
        text
    }
}

/// The number that `text` denotes: an optional `+`, then at least one digit
/// and nothing else.
pub open spec fn unsigned_number(text: Seq<char>) -> Option<nat> {
    let digits = unsigned_digits(text);
    if digits.len() > 0 && (forall|i: int| 0 <= i < digits.len() ==> is_digit(#[trigger] digits[i])) {
        Some(decimal(digits))
    } else {
        None
    }
}

/// A number grows with every digit written behind it.
pub proof fn lemma_decimal_grows(digits: Seq<char>, n: int)
    requires
        0 <= n <= digits.len(),
        forall|i: int| 0 <= i < digits.len() ==> is_digit(#[trigger] digits[i]),
    ensures
        decimal(digits.take(n)) <= decimal(digits),
    decreases digits.len() - n,
{
    if n < digits.len() {
        lemma_decimal_grows(digits, n + 1);
        assert(digits.take(n + 1).drop_last() =~= digits.take(n));
        assert(is_digit(digits[n]));
    } else {
        assert(digits.take(n) =~= digits);
    }
}

/// Reads an unsigned number no larger than `max`.
fn parse_unsigned(text: &str, max: u64) -> (r: Option<u64>)
    requires
        max >= 9,
    ensures
        r == match unsigned_number(text@) {
            Some(n) => if n <= max {
                Some(n as u64)
            } else {
                None
            },
            None => None,
        },
{
    let v = chars_of(text);
    let start: usize = if v.len() > 0 && v[0] == '+' {
        1
    } else {
        0
    };
    let ghost digits = unsigned_digits(text@);
    assert(digits =~= v@.subrange(start as int, v.len() as int));
    if start == v.len() {
        return None;
    }
    let mut acc: u64 = 0;
    let mut i: usize = start;
    assert(digits.take(0) =~= Seq::<char>::empty());
    while i < v.len()
        invariant
            start <= i <= v.len(),
            v@ == text@,
            digits == v@.subrange(start as int, v.len() as int),
            digits == unsigned_digits(text@),
            digits.len() > 0,
            max >= 9,
            forall|k: int| 0 <= k < i - start ==> is_digit(#[trigger] digits[k]),
            acc == decimal(digits.take(i - start)),
            acc <= max,
        decreases v.len() - i,
    {
        let c = v[i];
        assert(c == digits[i - start]);
        if c < '0' || c > '9' {
            assert(!is_digit(digits[i - start]));
            return None;
        }
        let d: u64 = (c as u64) - ('0' as u64);
        proof {
            assert(digits.take(i - start + 1).drop_last() =~= digits.take(i - start));
            assert(decimal(digits.take(i - start + 1)) == acc * 10 + d);
        }
        if acc > (max - d) / 10 {
            proof {
                assert(acc * 10 + d > max);
                if forall|k: int| 0 <= k < digits.len() ==> is_digit(#[trigger] digits[k]) {
                    lemma_decimal_grows(digits, i - start + 1);
                }
            }
            return None;
        }
        acc = acc * 10 + d;
        i = i + 1;
    }
    assert(digits.take(digits.len() as int) =~= digits);
    Some(acc)
}

/// The decimal digit of `d`, a number below ten.
pub open spec fn digit(d: nat) -> char {
    if d == 0 {
        '0'
    } else if d == 1 {
        '1'
    } else if d == 2 {
        '2'
    } else if d == 3 {
        '3'
    } else if d == 4 {
        '4'
    } else if d == 5 {
        '5'
    } else if d == 6 {
        '6'
    } else if d == 7 {
        '7'
    } else if d == 8 {
        '8'
    } else {
        '9'
    }
}

/// The decimal digits of `n`, without leading zeros.
pub open spec fn digits_of(n: nat) -> Seq<char>
    decreases n,
{
    if n < 10 {
        seq![digit(n)]
    } else {
        digits_of(n / 10).push(digit(n % 10))
    }
}

/// The digits of a number write that number.
pub proof fn lemma_digits_round_trip(n: nat)
    ensures
        digits_of(n).len() > 0,
        forall|i: int| 0 <= i < digits_of(n).len() ==> is_digit(#[trigger] digits_of(n)[i]),
        decimal(digits_of(n)) == n,
        unsigned_number(digits_of(n)) == Some(n),
    decreases n,
{
    if n < 10 {
        assert(digits_of(n).drop_last() =~= Seq::<char>::empty());
        assert(decimal(digits_of(n).drop_last()) == 0);
    } else {
        lemma_digits_round_trip(n / 10);
        assert(digits_of(n).drop_last() =~= digits_of(n / 10));
    }
    assert(digits_of(n)[0] != '+');
}

/// Appends the decimal digits of `n` to `out`.
fn push_digits(n: usize, out: &mut String)
    ensures
        final(out)@ == old(out)@ + digits_of(n as nat),
    decreases n,
{
    if n >= 10 {
        push_digits(n / 10, out);
    }
    let ghost before = out@;
    let d = n % 10;
    let c = if d == 0 {
        '0'
    } else if d == 1 {
        '1'
    } else if d == 2 {
        '2'
    } else if d == 3 {
        '3'
    } else if d == 4 {
        '4'
    } else if d == 5 {
        '5'
    } else if d == 6 {
        '6'
    } else if d == 7 {
        '7'
    } else if d == 8 {
        '8'
    } else {
        '9'
    };
    out.push(c);
    proof {
        if n >= 10 {
            assert(out@ =~= old(out)@ + digits_of(n as nat));
        } else {
            assert(out@ =~= old(out)@ + digits_of(n as nat));
        }
    }
}

/// The number `n` written in decimal digits.
pub fn number_text(n: usize) -> (text: String)
    ensures
        text@ == digits_of(n as nat),
{
    let mut out = String::new();
    push_digits(n, &mut out);
    assert(out@ =~= digits_of(n as nat));
    out
}

impl Templated for u64 {
    open spec fn from_text(text: Seq<char>) -> Option<u64> {
        match unsigned_number(text) {
            Some(n) => if n <= u64::MAX {
                Some(n as u64)
            } else {
                None
            },
            None => None,
        }
    }

    fn parse_text(text: &str) -> (r: Option<u64>) {
        parse_unsigned(text, u64::MAX)
    }

    fn duplicate(&self) -> (r: u64) {
        *self
    }
}

impl Templated for usize {
    open spec fn from_text(text: Seq<char>) -> Option<usize> {
        match unsigned_number(text) {
            Some(n) => if n <= usize::MAX {
                Some(n as usize)
            } else {
                None
            },
            None => None,
        }
    }

    fn parse_text(text: &str) -> (r: Option<usize>) {
        match parse_unsigned(text, usize::MAX as u64) {
            Some(n) => Some(n as usize),
            None => None,
        }
    }

    fn duplicate(&self) -> (r: usize) {
        *self
    }
}

impl Templated for bool {
    open spec fn from_text(text: Seq<char>) -> Option<bool> {
        if text == "true"@ {
            Some(true)
        } else if text == "false"@ {
            Some(false)
        } else {
            None
        }
    }

    fn parse_text(text: &str) -> (r: Option<bool>) {
        if str_eq(text, "true") {
            Some(true)
        } else if str_eq(text, "false") {
            Some(false)
        } else {
            None
        }
    }

    fn duplicate(&self) -> (r: bool) {
        *self
    }
}

} // verus!
