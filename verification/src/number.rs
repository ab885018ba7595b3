//! Numbers in decimal notation: reading one from a text and writing one
//! out.

use vstd::prelude::*;
use vstd::slice::slice_subrange;

verus! {

/// A decimal digit.
pub open spec fn is_digit(c: char) -> bool {
    '0' <= c <= '9'
}

/// The number that a decimal digit stands for.
pub open spec fn digit_value(c: char) -> nat {
    (c as int - '0' as int) as nat
}

/// The number that a text of decimal digits denotes.
pub open spec fn decimal_value(digits: Seq<char>) -> nat
    decreases digits.len(),
{
    if digits.len() == 0 {
        0
    } else {
        decimal_value(digits.drop_last()) * 10 + digit_value(digits.last())
    }
}

/// The part of a number's text that holds its digits: all of it but one
/// leading `+`.
pub open spec fn digits_of(s: Seq<char>) -> Seq<char> {
    if s.len() > 0 && s[0] == '+' {
        s.skip(1)
    } else {
        s
    }
}

/// The machine integer that `s` denotes: `s` is one or more decimal digits,
/// with or without one `+` before them, and their value fits.
pub open spec fn number_in(s: Seq<char>) -> Option<nat> {
    let digits = digits_of(s);
    if digits.len() > 0 && (forall|i: int| 0 <= i < digits.len() ==> is_digit(#[trigger] digits[i]))
        && decimal_value(digits) <= usize::MAX {
        Some(decimal_value(digits))
    } else {
        None
    }
}

/// The decimal digit that stands for a number below ten.
pub open spec fn digit_char(d: nat) -> char {
    ('0' as int + d) as char
}

/// A number in decimal notation, without sign or leading zeros.
pub open spec fn decimal_text(n: nat) -> Seq<char>
    decreases n,
{
    if n < 10 {
        seq![digit_char(n)]
    } else {
        decimal_text(n / 10).push(digit_char(n % 10))
    }
}

/// A text of digits denotes at least what any of its beginnings denotes.
proof fn lemma_value_grows(digits: Seq<char>, k: int)
    requires
        0 <= k <= digits.len(),
    ensures
        decimal_value(digits.take(k)) <= decimal_value(digits),
    decreases digits.len() - k,
{
    if k == digits.len() {
        assert(digits.take(k) =~= digits);
    } else {
        lemma_value_grows(digits.drop_last(), k);
        assert(digits.drop_last().take(k) =~= digits.take(k));
    }
}

/// A number's decimal notation is one or more digits that denote the
/// number.
pub proof fn lemma_decimal_text_value(n: nat)
    ensures
        decimal_text(n).len() > 0,
        forall|i: int| 0 <= i < decimal_text(n).len() ==> is_digit(#[trigger] decimal_text(n)[i]),
        decimal_value(decimal_text(n)) == n,
    decreases n,
{
    if n < 10 {
        assert(decimal_text(n).drop_last() =~= Seq::<char>::empty());
        assert(decimal_value(Seq::<char>::empty()) == 0);
    } else {
        lemma_decimal_text_value(n / 10);
        assert(decimal_text(n).drop_last() =~= decimal_text(n / 10));
    }
}

/// Reading what was written gives the number back: the decimal notation of
/// a machine integer denotes that integer.
pub proof fn lemma_number_reads_back(n: nat)
    requires
        n <= usize::MAX,
    ensures
        number_in(decimal_text(n)) == Some(n),
{
    lemma_decimal_text_value(n);
    assert(is_digit(decimal_text(n)[0]));
}

/// Reads the machine integer that a text denotes.
pub fn parse_number(s: &[char]) -> (number: Option<usize>)
    ensures
        match number {
            Some(n) => number_in(s@) == Some(n as nat),
            None => number_in(s@) is None,
        },
{
    let start: usize = if s.len() > 0 && s[0] == '+' {
        1
    } else {
        0
    };
    let digits = slice_subrange(s, start, s.len());
    assert(digits@ == digits_of(s@));
    if digits.len() == 0 {
        return None;
    }
    let mut value: usize = 0;
    let mut i: usize = 0;
    assert(digits@.take(0) =~= Seq::<char>::empty());
    while i < digits.len()
        invariant
            i <= digits.len(),
            digits@ == digits_of(s@),
            digits.len() > 0,
            forall|j: int| 0 <= j < i ==> is_digit(#[trigger] digits@[j]),
            value == decimal_value(digits@.take(i as int)),
        decreases digits.len() - i,
    {
        let c = digits[i];
        if c < '0' || c > '9' {
            return None;
        }
        let d: usize = (c as u32 - '0' as u32) as usize;
        proof {
            assert(digits@.take(i + 1).drop_last() =~= digits@.take(i as int));
            assert(digits@.take(i + 1).last() == c);
            assert(d == digit_value(c));
            lemma_value_grows(digits@, i + 1);
        }
        match value.checked_mul(10) {
            Some(tens) => match tens.checked_add(d) {
                Some(next) => {
                    value = next;
                },
                None => {
                    return None;
                },
            },
            None => {
                return None;
            },
        }
        i += 1;
    }
    assert(digits@.take(digits.len() as int) =~= digits@);
    Some(value)
}

/// The decimal digit for a number below ten.
fn digit(d: u8) -> (c: char)
    requires
        d < 10,
    ensures
        c == digit_char(d as nat),
{
    (48u8 + d) as char
}

/// Appends the decimal notation of `n` to `out`.
fn push_decimal(out: &mut String, n: usize)
    ensures
        final(out)@ == old(out)@ + decimal_text(n as nat),
    decreases n,
{
    if n >= 10 {
        push_decimal(out, n / 10);
    }
    out.push(digit((n % 10) as u8));
}

/// The decimal notation of `n`.
pub fn decimal(n: usize) -> (text: String)
    ensures
        text@ == decimal_text(n as nat),
{
    let mut text = String::new();
    push_decimal(&mut text, n);
    text
}

} // verus!
