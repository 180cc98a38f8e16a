//! Exact decimal numbers: a sign, the digits before the point and the digits after it.
//!
//! Numbers read from cells are kept as written, digit by digit, so that
//! truncation and rounding are exact and never depend on a binary approximation.

use vstd::prelude::*;
use crate::numerals::{char_of_digit, digit_char, digit_of_char, digit_value};
use crate::text::{all_digits, chars_range, find_char, first_index_of, is_all_digits,
    is_digit_char, lemma_first_index_is, lemma_first_index_of, string_of_chars, to_chars};

verus! {

/// A decimal number as digits; each digit is below ten and the most significant comes first.
#[derive(Debug, PartialEq, Eq)]
pub struct Decimal {
    /// Whether the number carries a minus sign.
    negative: bool,
    /// The digits before the decimal point, at least one.
    whole: Vec<u8>,
    /// The digits after the decimal point, possibly none.
    fraction: Vec<u8>,
}

/// The mathematical content of a [`Decimal`].
pub struct DecimalView {
    pub negative: bool,
    pub whole: Seq<u8>,
    pub fraction: Seq<u8>,
}

impl View for Decimal {
    type V = DecimalView;

    closed spec fn view(&self) -> DecimalView {
        DecimalView { negative: self.negative, whole: self.whole@, fraction: self.fraction@ }
    }
}

/// Every element is a digit value, below ten.
pub open spec fn digits_ok(s: Seq<u8>) -> bool {
    forall|i: int| 0 <= i < s.len() ==> #[trigger] s[i] < 10
}

/// The number that a sequence of digit values denotes (0 for none).
pub open spec fn digits_nat(s: Seq<u8>) -> nat
    decreases s.len(),
{
    if s.len() == 0 {
        0
    } else {
        digits_nat(s.drop_last()) * 10 + s.last() as nat
    }
}

/// The digit values of a text of digits.
pub open spec fn digit_values(s: Seq<char>) -> Seq<u8> {
    Seq::new(s.len(), |i: int| digit_value(s[i]) as u8)
}

/// The digit characters of a sequence of digit values.
pub open spec fn digit_chars(s: Seq<u8>) -> Seq<char> {
    Seq::new(s.len(), |i: int| digit_char(s[i] as nat))
}

impl DecimalView {
    /// At least one digit before the point, and every digit below ten.
    pub open spec fn wf(self) -> bool {
        self.whole.len() >= 1 && digits_ok(self.whole) && digits_ok(self.fraction)
    }

    /// The integer obtained by dropping the fraction: the whole part with the sign.
    pub open spec fn truncated(self) -> int {
        if self.negative {
            -(digits_nat(self.whole) as int)
        } else {
            digits_nat(self.whole) as int
        }
    }

    /// The number as text: an optional `-`, the whole digits and, if there
    /// are fraction digits, a `.` and those digits.
    pub open spec fn text(self) -> Seq<char> {
        (if self.negative {
            seq!['-']
        } else {
            Seq::<char>::empty()
        }) + digit_chars(self.whole) + (if self.fraction.len() > 0 {
            seq!['.'] + digit_chars(self.fraction)
        } else {
            Seq::<char>::empty()
        })
    }
}

/// The decimal number that a text denotes, if it is one: an optional `-`, at
/// least one digit and, optionally, a `.` followed by digits.
pub open spec fn decimal_of_text(s: Seq<char>) -> Option<DecimalView> {
    let negative = s.len() > 0 && s[0] == '-';
    let body = if negative {
        s.drop_first()
    } else {
        s
    };
    let dot = first_index_of(body, '.');
    let whole = body.take(dot);
    let fraction = if dot < body.len() {
        body.skip(dot + 1)
    } else {
        Seq::<char>::empty()
    };
    if whole.len() > 0 && all_digits(whole) && all_digits(fraction) {
        Some(
            DecimalView {
                negative,
                whole: digit_values(whole),
                fraction: digit_values(fraction),
            },
        )
    } else {
        None
    }
}

/// The digits with one added to the number they denote; a carry out of the
/// first digit puts a new `1` in front.
pub open spec fn incremented(s: Seq<u8>) -> Seq<u8>
    decreases s.len(),
{
    if s.len() == 0 {
        seq![1u8]
    } else if s.last() < 9 {
        s.drop_last().push((s.last() + 1) as u8)
    } else {
        incremented(s.drop_last()).push(0u8)
    }
}

/// The number rounded half away from zero to `places` fraction digits.
///
/// A number with no more than `places` fraction digits is left as it is.
/// Otherwise the digits up to that place are kept, and one is added to the
/// number they denote if the first digit dropped is 5 or more.
pub open spec fn rounded(d: DecimalView, places: nat) -> DecimalView {
    if d.fraction.len() <= places {
        d
    } else {
        let kept = d.whole + d.fraction.take(places as int);
        let digits = if d.fraction[places as int] >= 5 {
            incremented(kept)
        } else {
            kept
        };
        DecimalView {
            negative: d.negative,
            whole: digits.take(digits.len() - places),
            fraction: digits.skip(digits.len() - places),
        }
    }
}

/// Values that can be rounded to a number of decimal places.
pub trait RoundDecimal: Sized {
    /// The value rounded half away from zero to `decimals` fraction digits.
    fn round_decimal(&self, decimals: u8) -> Self;
}

/// Adding one keeps digits digits, and lengthens them by one digit at most.
pub proof fn lemma_incremented_shape(s: Seq<u8>)
    requires
        digits_ok(s),
    ensures
        digits_ok(incremented(s)),
        s.len() <= incremented(s).len() <= s.len() + 1,
        incremented(s).len() >= 1,
    decreases s.len(),
{
    if s.len() > 0 && s.last() >= 9 {
        lemma_incremented_shape(s.drop_last());
    }
}

/// Adding one to the digits adds one to the number they denote.
pub proof fn lemma_incremented_value(s: Seq<u8>)
    requires
        digits_ok(s),
    ensures
        digits_nat(incremented(s)) == digits_nat(s) + 1,
    decreases s.len(),
{
    if s.len() == 0 {
        let r = incremented(s);
        assert(r.drop_last() =~= Seq::<u8>::empty());
        assert(digits_nat(r.drop_last()) == 0);
    } else if s.last() < 9 {
        let r = incremented(s);
        assert(r.drop_last() =~= s.drop_last());
    } else {
        lemma_incremented_value(s.drop_last());
        let r = incremented(s);
        assert(r.drop_last() =~= incremented(s.drop_last()));
        assert(s.last() == 9);
    }
}

/// With nines from position `i` on, adding one turns them into zeros and
/// adds one to what stands before them.
proof fn lemma_incremented_nines(s: Seq<u8>, i: int)
    requires
        0 <= i <= s.len(),
        forall|j: int| i <= j < s.len() ==> s[j] == 9,
    ensures
        incremented(s) == incremented(s.take(i)) + Seq::new((s.len() - i) as nat, |j: int| 0u8),
    decreases s.len() - i,
{
    if i == s.len() {
        assert(s.take(i) =~= s);
        assert(incremented(s) + Seq::new(0nat, |j: int| 0u8) =~= incremented(s));
    } else {
        let t = s.drop_last();
        assert(s.last() == 9);
        lemma_incremented_nines(t, i);
        assert(t.take(i) =~= s.take(i));
        assert(incremented(t).push(0u8) =~= incremented(s.take(i)) + Seq::new(
            (s.len() - i) as nat,
            |j: int| 0u8,
        ));
    }
}

/// The digits with one added to the number they denote.
pub fn increment_digits(v: &Vec<u8>) -> (r: Vec<u8>)
    requires
        digits_ok(v@),
    ensures
        r@ == incremented(v@),
{
    let n = v.len();
    let mut i: usize = n;
    while i > 0 && v[i - 1] == 9
        invariant
            i <= n,
            n == v.len(),
            forall|j: int| i <= j < n ==> v@[j] == 9,
        decreases i,
    {
        i -= 1;
    }
    let mut r: Vec<u8> = Vec::new();
    if i == 0 {
        r.push(1);
        assert(v@.take(0) =~= Seq::<u8>::empty());
        assert(r@ =~= incremented(v@.take(0)));
    } else {
        let mut k: usize = 0;
        while k < i - 1
            invariant
                k <= i - 1,
                i <= n,
                n == v.len(),
                r@ =~= v@.take(k as int),
            decreases i - 1 - k,
        {
            r.push(v[k]);
            k += 1;
        }
        assert(v@[i - 1] < 10);
        r.push(v[i - 1] + 1);
        proof {
            let head = v@.take(i as int);
            assert(head.last() == v@[i - 1]);
            assert(head.drop_last() =~= v@.take(i - 1));
            assert(r@ =~= incremented(head));
        }
    }
    let ghost front = r@;
    let mut z: usize = i;
    while z < n
        invariant
            i <= z <= n,
            r@ =~= front + Seq::new((z - i) as nat, |j: int| 0u8),
        decreases n - z,
    {
        r.push(0);
        z += 1;
    }
    proof {
        lemma_incremented_nines(v@, i as int);
    }
    r
}

/// A copy of the digits `v[from..to]`.
fn digits_range(v: &Vec<u8>, from: usize, to: usize) -> (r: Vec<u8>)
    requires
        from <= to <= v.len(),
    ensures
        r@ == v@.subrange(from as int, to as int),
{
    let mut r: Vec<u8> = Vec::new();
    let mut i: usize = from;
    while i < to
        invariant
            from <= i <= to <= v.len(),
            r@ =~= v@.subrange(from as int, i as int),
        decreases to - i,
    {
        r.push(v[i]);
        i += 1;
    }
    r
}

/// The digit values of characters that are all digits.
fn digits_of_chars(v: &Vec<char>, from: usize, to: usize) -> (r: Vec<u8>)
    requires
        from <= to <= v.len(),
        all_digits(v@.subrange(from as int, to as int)),
    ensures
        r@ == digit_values(v@.subrange(from as int, to as int)),
        digits_ok(r@),
{
    let mut r: Vec<u8> = Vec::new();
    let mut i: usize = from;
    let ghost part = v@.subrange(from as int, to as int);
    while i < to
        invariant
            from <= i <= to <= v.len(),
            part == v@.subrange(from as int, to as int),
            all_digits(part),
            r.len() == i - from,
            forall|j: int| 0 <= j < r.len() ==> r@[j] == digit_value(part[j]) as u8 && r@[j] < 10,
        decreases to - i,
    {
        assert(part[i - from] == v@[i as int]);
        r.push(digit_of_char(v[i]));
        i += 1;
    }
    assert(r@ =~= digit_values(part));
    r
}

impl Decimal {
    /// Every value of the type is well formed: see [`DecimalView::wf`].
    #[verifier::type_invariant]
    spec fn wf(&self) -> bool {
        self@.wf()
    }

    /// A copy of the number.
    pub fn duplicate(&self) -> (r: Decimal)
        ensures
            r@ == self@,
            r@.wf(),
    {
        proof {
            use_type_invariant(self);
        }
        let whole = digits_range(&self.whole, 0, self.whole.len());
        let fraction = digits_range(&self.fraction, 0, self.fraction.len());
        assert(self.whole@.subrange(0, self.whole@.len() as int) =~= self.whole@);
        assert(self.fraction@.subrange(0, self.fraction@.len() as int) =~= self.fraction@);
        Decimal { negative: self.negative, whole, fraction }
    }

    /// The decimal number of an integer.
    pub fn from_int(value: i64) -> (r: Decimal)
        ensures
            r@.wf(),
            r@.truncated() == value,
            r@.fraction.len() == 0,
    {
        let negative = value < 0;
        let magnitude: u64 = if negative {
            if value == i64::MIN {
                9223372036854775808u64
            } else {
                (-value) as u64
            }
        } else {
            value as u64
        };
        let whole = digits_of_number(magnitude);
        Decimal { negative, whole, fraction: Vec::new() }
    }

    /// Reads a decimal number from text: an optional `-`, at least one digit
    /// and, optionally, a `.` followed by digits. Anything else gives `None`.
    pub fn parse(text: &str) -> (r: Option<Decimal>)
        ensures
            match r {
                Some(d) => decimal_of_text(text@) == Some(d@) && d@.wf(),
                None => decimal_of_text(text@) is None,
            },
    {
        let v = to_chars(text);
        Decimal::parse_chars(&v)
    }

    /// Reads a decimal number from characters, as [`Decimal::parse`] does from text.
    pub fn parse_chars(v: &Vec<char>) -> (r: Option<Decimal>)
        ensures
            match r {
                Some(d) => decimal_of_text(v@) == Some(d@) && d@.wf(),
                None => decimal_of_text(v@) is None,
            },
    {
        let negative = v.len() > 0 && v[0] == '-';
        let start: usize = if negative {
            1
        } else {
            0
        };
        let body = chars_range(v, start, v.len());
        proof {
            if negative {
                assert(body@ =~= v@.drop_first());
            } else {
                assert(body@ =~= v@);
            }
            lemma_first_index_of(body@, '.');
        }
        let dot = find_char(&body, '.');
        let whole_chars = chars_range(&body, 0, dot);
        let fraction_chars = if dot < body.len() {
            chars_range(&body, dot + 1, body.len())
        } else {
            Vec::new()
        };
        assert(whole_chars@ =~= body@.take(dot as int));
        if dot < body.len() {
            assert(fraction_chars@ =~= body@.skip(dot + 1));
        } else {
            assert(fraction_chars@ =~= Seq::<char>::empty());
        }
        if whole_chars.len() == 0 || !is_all_digits(&whole_chars) || !is_all_digits(
            &fraction_chars,
        ) {
            return None;
        }
        assert(whole_chars@.subrange(0, whole_chars@.len() as int) =~= whole_chars@);
        assert(fraction_chars@.subrange(0, fraction_chars@.len() as int) =~= fraction_chars@);
        let whole = digits_of_chars(&whole_chars, 0, whole_chars.len());
        let fraction = digits_of_chars(&fraction_chars, 0, fraction_chars.len());
        Some(Decimal { negative, whole, fraction })
    }

    /// The number as text: see [`DecimalView::text`].
    pub fn to_text(&self) -> (r: String)
        ensures
            r@ == self@.text(),
    {
        proof {
            use_type_invariant(self);
        }
        let mut out: Vec<char> = Vec::new();
        if self.negative {
            out.push('-');
        }
        let ghost sign = out@;
        let mut i: usize = 0;
        while i < self.whole.len()
            invariant
                i <= self.whole.len(),
                self@.wf(),
                out@ =~= sign + digit_chars(self.whole@.take(i as int)),
            decreases self.whole.len() - i,
        {
            assert(self.whole@[i as int] < 10);
            out.push(char_of_digit(self.whole[i]));
            i += 1;
        }
        assert(self.whole@.take(self.whole.len() as int) =~= self.whole@);
        if self.fraction.len() > 0 {
            out.push('.');
            let ghost front = out@;
            let mut k: usize = 0;
            while k < self.fraction.len()
                invariant
                    k <= self.fraction.len(),
                    self@.wf(),
                    out@ =~= front + digit_chars(self.fraction@.take(k as int)),
                decreases self.fraction.len() - k,
            {
                assert(self.fraction@[k as int] < 10);
                out.push(char_of_digit(self.fraction[k]));
                k += 1;
            }
            assert(self.fraction@.take(self.fraction.len() as int) =~= self.fraction@);
            assert(out@ =~= self@.text());
        } else {
            assert(out@ =~= self@.text());
        }
        string_of_chars(&out)
    }

    /// The integer obtained by dropping the fraction, if it fits in 64 bits.
    pub fn truncate(&self) -> (r: Option<i64>)
        ensures
            r == (if i64::MIN <= self@.truncated() <= i64::MAX {
                Some(self@.truncated() as i64)
            } else {
                None
            }),
    {
        proof {
            use_type_invariant(self);
        }
        let mut acc: u64 = 0;
        let mut over = false;
        let mut i: usize = 0;
        assert(self.whole@.take(0) =~= Seq::<u8>::empty());
        while i < self.whole.len()
            invariant
                i <= self.whole.len(),
                self@.wf(),
                !over ==> acc == digits_nat(self.whole@.take(i as int)) && acc
                    <= 9223372036854775808u64,
                over ==> digits_nat(self.whole@.take(i as int)) > 9223372036854775808u64,
            decreases self.whole.len() - i,
        {
            assert(self.whole@.take(i as int + 1).drop_last() =~= self.whole@.take(i as int));
            assert(self.whole@[i as int] < 10);
            if !over {
                let d = self.whole[i] as u128;
                let grown: u128 = (acc as u128) * 10 + d;
                if grown > 9223372036854775808u128 {
                    over = true;
                } else {
                    acc = grown as u64;
                }
            }
            i += 1;
        }
        assert(self.whole@.take(self.whole.len() as int) =~= self.whole@);
        if over {
            None
        } else if self.negative {
            if acc == 9223372036854775808u64 {
                Some(i64::MIN)
            } else {
                Some(-(acc as i64))
            }
        } else if acc == 9223372036854775808u64 {
            None
        } else {
            Some(acc as i64)
        }
    }

    /// Whether the number has no fraction digits.
    pub fn is_whole(&self) -> (r: bool)
        ensures
            r == (self@.fraction.len() == 0),
    {
        self.fraction.len() == 0
    }
}

/// The digits of a number, without leading zeros (one `0` for zero).
pub fn digits_of_number(n: u64) -> (r: Vec<u8>)
    ensures
        digits_ok(r@),
        r@.len() >= 1,
        digits_nat(r@) == n,
    decreases n,
{
    let mut r: Vec<u8> = if n >= 10 {
        digits_of_number(n / 10)
    } else {
        Vec::new()
    };
    let ghost front = r@;
    r.push((n % 10) as u8);
    proof {
        assert(r@.drop_last() =~= front);
        if n < 10 {
            assert(digits_nat(front) == 0);
        }
    }
    r
}

impl RoundDecimal for Decimal {
    /// Rounds half away from zero to `decimals` fraction digits: see [`rounded`].
    fn round_decimal(&self, decimals: u8) -> (r: Self)
        ensures
            r@.wf(),
            r@ == rounded(self@, decimals as nat),
    {
        self.round_to(decimals)
    }
}

impl Decimal {
    /// The number rounded half away from zero to `decimals` fraction digits.
    pub fn round_to(&self, decimals: u8) -> (r: Decimal)
        ensures
            r@.wf(),
            r@ == rounded(self@, decimals as nat),
    {
        proof {
            use_type_invariant(self);
        }
        let places = decimals as usize;
        if self.fraction.len() <= places {
            return self.duplicate();
        }
        let mut kept: Vec<u8> = digits_range(&self.whole, 0, self.whole.len());
        assert(kept@ =~= self.whole@);
        let mut i: usize = 0;
        while i < places
            invariant
                i <= places < self.fraction.len(),
                kept@ =~= self.whole@ + self.fraction@.take(i as int),
            decreases places - i,
        {
            kept.push(self.fraction[i]);
            i += 1;
        }
        assert(digits_ok(kept@)) by {
            assert forall|j: int| 0 <= j < kept@.len() implies #[trigger] kept@[j] < 10 by {
                if j < self.whole@.len() {
                    assert(kept@[j] == self.whole@[j]);
                } else {
                    assert(kept@[j] == self.fraction@[j - self.whole@.len()]);
                }
            }
        }
        let digits = if self.fraction[places] >= 5 {
            proof {
                lemma_incremented_shape(kept@);
            }
            increment_digits(&kept)
        } else {
            kept
        };
        let split = digits.len() - places;
        let whole = digits_range(&digits, 0, split);
        let fraction = digits_range(&digits, split, digits.len());
        assert(whole@ =~= digits@.take(split as int));
        assert(fraction@ =~= digits@.skip(split as int));
        Decimal { negative: self.negative, whole, fraction }
    }
}

/// Ten to the power `k`.
pub open spec fn pow10(k: nat) -> nat
    decreases k,
{
    if k == 0 {
        1
    } else {
        10 * pow10((k - 1) as nat)
    }
}

/// The number that a decimal denotes, times ten to the number of its
/// fraction digits, without the sign: the number that all its digits denote.
pub open spec fn scaled_magnitude(d: DecimalView) -> nat {
    digits_nat(d.whole + d.fraction)
}

/// A number divided by ten to the power `k` and rounded to the nearest
/// whole number, halves upwards.
pub open spec fn rounded_quotient(m: nat, k: nat) -> nat {
    m / pow10(k) + (if 2 * (m % pow10(k)) >= pow10(k) {
        1nat
    } else {
        0nat
    })
}

/// A power of ten is positive.
proof fn lemma_pow10_positive(k: nat)
    ensures
        pow10(k) > 0,
    decreases k,
{
    if k > 0 {
        lemma_pow10_positive((k - 1) as nat);
    }
}

/// Digits written one after the other denote the first number shifted by
/// the length of the second, plus the second.
pub proof fn lemma_digits_nat_concat(a: Seq<u8>, b: Seq<u8>)
    ensures
        digits_nat(a + b) == digits_nat(a) * pow10(b.len()) + digits_nat(b),
    decreases b.len(),
{
    if b.len() == 0 {
        assert(a + b =~= a);
        assert(pow10(0) == 1);
        assert(digits_nat(b) == 0);
        assert(digits_nat(a) * 1 == digits_nat(a)) by (nonlinear_arith);
    } else {
        let front = b.drop_last();
        lemma_digits_nat_concat(a, front);
        assert((a + b).drop_last() =~= a + front);
        assert((a + b).last() == b.last());
        let x = digits_nat(a);
        let p = pow10(front.len());
        let y = digits_nat(front);
        let l = b.last() as nat;
        assert(pow10(b.len()) == 10 * p);
        assert(digits_nat(a + b) == digits_nat(a + front) * 10 + l);
        assert(digits_nat(b) == y * 10 + l);
        assert((x * p + y) * 10 + l == x * (10 * p) + (y * 10 + l)) by (nonlinear_arith);
    }
}

/// Digits denote less than ten to the power of their number.
pub proof fn lemma_digits_nat_bound(s: Seq<u8>)
    requires
        digits_ok(s),
    ensures
        digits_nat(s) < pow10(s.len()),
    decreases s.len(),
{
    if s.len() > 0 {
        lemma_digits_nat_bound(s.drop_last());
        assert(s.last() < 10);
    }
}

/// Rounding is exact: the digits of the result denote the number that
/// all the digits of the argument denote, divided by ten to the number of
/// digits dropped and rounded to the nearest whole number, with a half
/// rounded away from zero. The sign is kept and exactly `places` fraction
/// digits remain.
pub proof fn lemma_rounded_value(d: DecimalView, places: nat)
    requires
        d.wf(),
        d.fraction.len() > places,
    ensures
        scaled_magnitude(rounded(d, places)) == rounded_quotient(
            scaled_magnitude(d),
            (d.fraction.len() - places) as nat,
        ),
        rounded(d, places).fraction.len() == places,
        rounded(d, places).negative == d.negative,
        rounded(d, places).wf(),
{
    let k = (d.fraction.len() - places) as nat;
    let kept = d.whole + d.fraction.take(places as int);
    let dropped = d.fraction.skip(places as int);
    let first = d.fraction[places as int];
    let rest = dropped.drop_first();
    let m = scaled_magnitude(d);
    let p = pow10(k);
    let q = pow10((k - 1) as nat);
    assert(d.whole + d.fraction =~= kept + dropped);
    assert(dropped =~= seq![first] + rest);
    assert(digits_ok(kept)) by {
        assert forall|j: int| 0 <= j < kept.len() implies #[trigger] kept[j] < 10 by {
            if j < d.whole.len() {
                assert(kept[j] == d.whole[j]);
            } else {
                assert(kept[j] == d.fraction[j - d.whole.len()]);
            }
        }
    }
    assert(digits_ok(dropped)) by {
        assert forall|j: int| 0 <= j < dropped.len() implies #[trigger] dropped[j] < 10 by {
            assert(dropped[j] == d.fraction[j + places]);
        }
    }
    assert(digits_ok(rest)) by {
        assert forall|j: int| 0 <= j < rest.len() implies #[trigger] rest[j] < 10 by {
            assert(rest[j] == dropped[j + 1]);
        }
    }
    lemma_digits_nat_concat(kept, dropped);
    lemma_digits_nat_concat(seq![first], rest);
    lemma_digits_nat_bound(dropped);
    lemma_digits_nat_bound(rest);
    lemma_pow10_positive(k);
    lemma_pow10_positive((k - 1) as nat);
    assert(seq![first].drop_last() =~= Seq::<u8>::empty());
    assert(digits_nat(seq![first].drop_last()) == 0);
    assert(seq![first].last() == first);
    assert(digits_nat(seq![first]) == first as nat);
    let x = digits_nat(kept);
    let y = digits_nat(dropped);
    let z = digits_nat(rest);
    let f = first as nat;
    assert(m == x * p + y);
    assert(y == f * q + z);
    assert(p == 10 * q);
    assert(m / p == x && m % p == y) by {
        vstd::arithmetic::div_mod::lemma_fundamental_div_mod_converse(
            m as int,
            p as int,
            x as int,
            y as int,
        );
    }
    assert((2 * y >= p) == (f >= 5)) by (nonlinear_arith)
        requires
            y == f * q + z,
            p == 10 * q,
            z < q,
            q > 0,
    ;
    lemma_incremented_shape(kept);
    lemma_incremented_value(kept);
    let digits = if first >= 5 {
        incremented(kept)
    } else {
        kept
    };
    let r = rounded(d, places);
    assert(r.whole + r.fraction =~= digits);
    assert(digits_ok(r.whole) && digits_ok(r.fraction)) by {
        assert forall|j: int| 0 <= j < r.whole.len() implies #[trigger] r.whole[j] < 10 by {
            assert(r.whole[j] == digits[j]);
        }
        assert forall|j: int| 0 <= j < r.fraction.len() implies #[trigger] r.fraction[j] < 10 by {
            assert(r.fraction[j] == digits[j + digits.len() - places]);
        }
    }
}

/// Rounding a second time to the same number of places changes nothing.
pub proof fn lemma_rounding_is_idempotent(d: DecimalView, places: nat)
    requires
        d.wf(),
    ensures
        rounded(rounded(d, places), places) == rounded(d, places),
{
    if d.fraction.len() > places {
        lemma_rounded_value(d, places);
    }
}

/// A number with no more fraction digits than asked for is left as it is.
pub proof fn lemma_short_fraction_is_kept(d: DecimalView, places: nat)
    requires
        d.fraction.len() <= places,
    ensures
        rounded(d, places) == d,
{
}

/// The digit characters of digits are digits, and reading them gives the digits back.
proof fn lemma_digit_chars_round_trip(s: Seq<u8>)
    requires
        digits_ok(s),
    ensures
        all_digits(digit_chars(s)),
        digit_values(digit_chars(s)) == s,
        forall|i: int| 0 <= i < s.len() ==> (#[trigger] digit_chars(s)[i]) != '.' && digit_chars(
            s,
        )[i] != '-',
{
    assert forall|i: int| 0 <= i < s.len() implies is_digit_char(#[trigger] digit_chars(s)[i])
        && digit_value(digit_chars(s)[i]) == s[i] by {
        assert(s[i] < 10);
    }
    assert(digit_values(digit_chars(s)) =~= s);
}

/// Writing a number as text and reading the text gives the number back.
pub proof fn lemma_text_round_trip(d: DecimalView)
    requires
        d.wf(),
    ensures
        decimal_of_text(d.text()) == Some(d),
{
    let w = digit_chars(d.whole);
    let f = digit_chars(d.fraction);
    lemma_digit_chars_round_trip(d.whole);
    lemma_digit_chars_round_trip(d.fraction);
    let tail = if d.fraction.len() > 0 {
        seq!['.'] + f
    } else {
        Seq::<char>::empty()
    };
    let body = w + tail;
    let s = d.text();
    if d.negative {
        assert(s =~= seq!['-'] + body);
        assert(s[0] == '-');
        assert(s.drop_first() =~= body);
    } else {
        assert(s =~= body);
        assert(s[0] == w[0]);
    }
    let dot = w.len() as int;
    assert forall|i: int| 0 <= i < dot implies body[i] != '.' by {
        assert(body[i] == w[i]);
    }
    if d.fraction.len() > 0 {
        assert(body[dot] == '.');
        lemma_first_index_is(body, '.', dot);
        assert(body.take(dot) =~= w);
        assert(body.skip(dot + 1) =~= f);
    } else {
        assert(body =~= w);
        lemma_first_index_is(body, '.', dot);
        assert(body.take(dot) =~= w);
    }
    let parsed = decimal_of_text(s);
    assert(parsed is Some);
    assert(parsed->0.whole == d.whole);
    assert(parsed->0.fraction =~= d.fraction);
}

impl Clone for Decimal {
    fn clone(&self) -> (r: Self)
        ensures
            r@ == self@,
    {
        self.duplicate()
    }
}

} // verus!
