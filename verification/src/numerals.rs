//! Decimal numerals: reading and writing unsigned numbers as digit characters.

use vstd::prelude::*;
use crate::text::{all_digits, is_digit_char};

verus! {

/// The character of a digit value below ten.
pub open spec fn digit_char(d: nat) -> char
    recommends
        d < 10,
{
    ((d + 48) as u8) as char
}

/// The value of a digit character.
pub open spec fn digit_value(c: char) -> nat
    recommends
        is_digit_char(c),
{
    ((c as u32) - 48) as nat
}

/// The decimal numeral of `n`, without leading zeros (`"0"` for zero).
pub open spec fn decimal_digits(n: nat) -> Seq<char>
    decreases n,
{
    if n < 10 {
        seq![digit_char(n)]
    } else {
        decimal_digits(n / 10).push(digit_char(n % 10))
    }
}

/// The decimal numeral of `n`, filled with zeros on the left up to `width` characters.
pub open spec fn zero_padded(n: nat, width: nat) -> Seq<char> {
    let d = decimal_digits(n);
    if d.len() >= width {
        d
    } else {
        Seq::new((width - d.len()) as nat, |i: int| '0') + d
    }
}

/// The number that a text of digits denotes (0 for the empty text).
pub open spec fn digits_value(s: Seq<char>) -> nat
    decreases s.len(),
{
    if s.len() == 0 {
        0
    } else {
        digits_value(s.drop_last()) * 10 + digit_value(s.last())
    }
}

/// A numeral has at least one character, and all of them are digits.
pub proof fn lemma_decimal_digits_shape(n: nat)
    ensures
        decimal_digits(n).len() >= 1,
        all_digits(decimal_digits(n)),
    decreases n,
{
    if n >= 10 {
        lemma_decimal_digits_shape(n / 10);
    }
}

/// Reading a numeral gives the number back.
pub proof fn lemma_digits_value_of_numeral(n: nat)
    ensures
        digits_value(decimal_digits(n)) == n,
    decreases n,
{
    if n < 10 {
        let s = decimal_digits(n);
        assert(s.drop_last() =~= Seq::<char>::empty());
        assert(digits_value(s.drop_last()) == 0);
    } else {
        lemma_digits_value_of_numeral(n / 10);
        let s = decimal_digits(n);
        assert(s.drop_last() =~= decimal_digits(n / 10));
    }
}

/// The digit character of `d`.
pub fn char_of_digit(d: u8) -> (c: char)
    requires
        d < 10,
    ensures
        c == digit_char(d as nat),
        is_digit_char(c),
{
    (d + 48) as char
}

/// The digit value of `c`.
pub fn digit_of_char(c: char) -> (d: u8)
    requires
        is_digit_char(c),
    ensures
        d == digit_value(c),
        d < 10,
{
    ((c as u32) - 48) as u8
}

/// Appends the decimal numeral of `n` to `out`.
pub fn push_decimal(out: &mut Vec<char>, n: u128)
    ensures
        final(out)@ == old(out)@ + decimal_digits(n as nat),
    decreases n,
{
    if n >= 10 {
        push_decimal(out, n / 10);
    }
    out.push(char_of_digit((n % 10) as u8));
    assert(final(out)@ =~= old(out)@ + decimal_digits(n as nat));
}

/// The decimal numeral of `n`.
pub fn decimal_chars(n: u128) -> (r: Vec<char>)
    ensures
        r@ == decimal_digits(n as nat),
{
    let mut r: Vec<char> = Vec::new();
    push_decimal(&mut r, n);
    assert(r@ =~= decimal_digits(n as nat));
    r
}

/// Appends the numeral of `n`, filled with zeros on the left up to `width` characters.
pub fn push_zero_padded(out: &mut Vec<char>, n: u128, width: usize)
    ensures
        final(out)@ == old(out)@ + zero_padded(n as nat, width as nat),
{
    let d = decimal_chars(n);
    let ghost before = out@;
    let mut k: usize = d.len();
    while k < width
        invariant
            k >= d.len(),
            k == d.len() || k <= width,
            out@ =~= before + Seq::new((k - d.len()) as nat, |i: int| '0'),
        decreases width - k,
    {
        out.push('0');
        k += 1;
    }
    let ghost zeros = out@;
    let mut i: usize = 0;
    while i < d.len()
        invariant
            i <= d.len(),
            out@ =~= zeros + d@.take(i as int),
        decreases d.len() - i,
    {
        out.push(d[i]);
        i += 1;
    }
    assert(d@.take(d.len() as int) =~= d@);
    assert(out@ =~= before + zero_padded(n as nat, width as nat));
}

/// Reads a text of digits as a number up to `limit`.
///
/// A text that is empty, holds anything but digits, or denotes more than
/// `limit` gives `None`.
pub fn parse_bounded(v: &Vec<char>, limit: u16) -> (r: Option<u16>)
    requires
        limit <= 6000,
    ensures
        r == (if v@.len() > 0 && all_digits(v@) && digits_value(v@) <= limit {
            Some(digits_value(v@) as u16)
        } else {
            None
        }),
{
    if v.len() == 0 {
        return None;
    }
    let mut acc: u16 = 0;
    let mut i: usize = 0;
    let mut over = false;
    assert(v@.take(0) =~= Seq::<char>::empty());
    while i < v.len()
        invariant
            i <= v.len(),
            limit <= 6000,
            all_digits(v@.take(i as int)),
            !over ==> acc == digits_value(v@.take(i as int)) && acc <= limit,
            over ==> digits_value(v@.take(i as int)) > limit,
        decreases v.len() - i,
    {
        let c = v[i];
        if !(c >= '0' && c <= '9') {
            assert(!is_digit_char(v@[i as int]));
            return None;
        }
        let ghost prev = v@.take(i as int);
        let ghost next = v@.take(i as int + 1);
        assert(next.drop_last() =~= prev);
        assert(next.last() == c);
        assert(all_digits(next)) by {
            assert forall|j: int| 0 <= j < next.len() implies is_digit_char(#[trigger] next[j]) by {
                if j < i {
                    assert(next[j] == prev[j]);
                }
            }
        }
        if !over {
            let d = digit_of_char(c);
            let grown: u16 = acc * 10 + d as u16;
            if grown > limit {
                over = true;
            } else {
                acc = grown;
            }
        }
        i += 1;
    }
    assert(v@.take(v.len() as int) =~= v@);
    if over {
        None
    } else {
        Some(acc)
    }
}

/// Reads a text of digits as a number up to 255.
///
/// A text that is empty, holds anything but digits, or denotes more than
/// 255 gives `None`.
pub fn parse_u8(v: &Vec<char>) -> (r: Option<u8>)
    ensures
        r == (if v@.len() > 0 && all_digits(v@) && digits_value(v@) <= 255 {
            Some(digits_value(v@) as u8)
        } else {
            None
        }),
{
    match parse_bounded(v, 255) {
        Some(n) => Some(n as u8),
        None => None,
    }
}

} // verus!
