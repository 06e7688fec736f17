//! Exact decimal amounts of coin.
//!
//! An amount is a decimal number `mantissa * 10^(-scale)`, the same
//! representation that `bigdecimal::BigDecimal` uses, with the mantissa held
//! as its sign and base-256 digits, of any length. All arithmetic on amounts
//! is done by `bigdecimal`; the
//! contracts below state what it computes in terms of the mathematical value.

use vstd::prelude::*;
use vstd::arithmetic::power::pow;
use vstd::arithmetic::power::lemma_pow_adds;
use vstd::arithmetic::power::lemma_pow_positive;
use vstd::arithmetic::power::lemma_pow0;
use vstd::arithmetic::mul::lemma_mul_is_associative;
use bigdecimal::BigDecimal;
use bigdecimal::num_bigint::{BigInt, Sign};
use std::str::FromStr;

verus! {

/// A decimal amount: its value is `mantissa * 10^(-scale)`, where the
/// mantissa is the integer whose sign is `negative` and whose magnitude has the
/// little-endian base-256 digits `magnitude`, the form in which `num_bigint`
/// hands out and takes the digits of a `BigInt`. Its size is not bounded.
#[derive(Clone, Debug, PartialEq, Eq)]
pub struct Amount {
    pub negative: bool,
    pub magnitude: Vec<u8>,
    pub scale: i64,
}

/// The number whose little-endian base-256 digits are `bytes`.
pub open spec fn le_value(bytes: Seq<u8>) -> nat
    decreases bytes.len(),
{
    if bytes.len() == 0 {
        0
    } else {
        bytes[0] as nat + 256 * le_value(bytes.drop_first())
    }
}

impl Amount {
    /// The mantissa: the digits read as an integer, with the sign.
    pub open spec fn mantissa(self) -> int {
        if self.negative {
            -(le_value(self.magnitude@) as int)
        } else {
            le_value(self.magnitude@) as int
        }
    }
}

impl View for Amount {
    /// The amount as (mantissa, scale).
    type V = (int, int);

    open spec fn view(&self) -> (int, int) {
        (self.mantissa(), self.scale as int)
    }
}

/// `10^n`.
pub open spec fn pow10(n: nat) -> int {
    pow(10, n)
}

/// The value of `a` multiplied by `10^s`, an integer whenever `s >= a.scale`.
pub open spec fn scaled(a: Amount, s: int) -> int {
    a.mantissa() * pow10((s - a.scale) as nat)
}

/// The larger of the two scales: both amounts are integers at this scale.
pub open spec fn max_scale(a: Amount, b: Amount) -> int {
    if a.scale >= b.scale {
        a.scale as int
    } else {
        b.scale as int
    }
}

/// Two scales whose difference, either way, fits in an `i64`: `bigdecimal`
/// aligns two amounts of such scales without overflow.
pub open spec fn scales_close(x: int, y: int) -> bool {
    x - y <= i64::MAX && y - x <= i64::MAX
}

/// What `BigDecimal::from_str` makes of a text: `Some((mantissa, scale))`
/// when it accepts the text, `None` when it refuses it.
pub uninterp spec fn parsed_decimal(text: Seq<char>) -> Option<(int, int)>;

/// The text that `BigDecimal`'s `Display` writes for `mantissa * 10^(-scale)`.
pub uninterp spec fn decimal_text(mantissa: int, scale: int) -> Seq<char>;

/// The amount (mantissa, scale) that a text denotes, or `None` when it is no
/// decimal number.
pub open spec fn amount_of_text(text: Seq<char>) -> Option<(int, int)> {
    parsed_decimal(text)
}

/// Count of trailing decimal zeros of a nonzero mantissa.
pub open spec fn trailing_zeros(m: int) -> nat
    decreases (if m < 0 { -m } else { m }),
{
    if m == 0 || m % 10 != 0 {
        0
    } else {
        1 + trailing_zeros(m / 10)
    }
}

/// The amount with its trailing zeros stripped, as `BigDecimal::normalized`
/// returns it: zero becomes `0` with scale `0`.
pub open spec fn normalized(v: (int, int)) -> (int, int) {
    if v.0 == 0 {
        (0, 0)
    } else {
        (v.0 / pow10(trailing_zeros(v.0)), v.1 - trailing_zeros(v.0))
    }
}

/// `(m, s)` is a canonical decimal: zero is `(0, 0)`, and a nonzero mantissa
/// has no trailing decimal zero.
pub open spec fn canonical(v: (int, int)) -> bool {
    if v.0 == 0 {
        v.1 == 0
    } else {
        v.0 % 10 != 0
    }
}

/// `(m1, s1)` and `(m2, s2)` denote the same number `m * 10^(-s)`: they agree
/// when both are counted at the larger of the two scales.
pub open spec fn same_number(a: (int, int), b: (int, int)) -> bool {
    let l = if a.1 >= b.1 { a.1 } else { b.1 };
    a.0 * pow10((l - a.1) as nat) == b.0 * pow10((l - b.1) as nat)
}

/// Two numbers agree at the larger of their scales exactly when they agree at
/// any scale at least as large.
pub proof fn lemma_same_number_at(a: (int, int), b: (int, int), l: int)
    requires
        l >= a.1,
        l >= b.1,
    ensures
        same_number(a, b) <==> a.0 * pow10((l - a.1) as nat) == b.0 * pow10((l - b.1) as nat),
{
    let m = if a.1 >= b.1 { a.1 } else { b.1 };
    let d = (l - m) as nat;
    let pa = pow10((m - a.1) as nat);
    let pb = pow10((m - b.1) as nat);
    let q = pow10(d);
    lemma_pow_adds(10, (m - a.1) as nat, d);
    lemma_pow_adds(10, (m - b.1) as nat, d);
    assert((m - a.1) as nat + d == (l - a.1) as nat);
    assert((m - b.1) as nat + d == (l - b.1) as nat);
    lemma_pow_positive(10, d);
    assert((a.0 * pa == b.0 * pb) <==> (a.0 * (pa * q) == b.0 * (pb * q))) by (nonlinear_arith)
        requires
            q > 0,
    ;
}

/// Agreeing on the number is transitive.
pub proof fn lemma_same_number_trans(a: (int, int), b: (int, int), c: (int, int))
    requires
        same_number(a, b),
        same_number(b, c),
    ensures
        same_number(a, c),
{
    let l0 = if a.1 >= b.1 { a.1 } else { b.1 };
    let l = if l0 >= c.1 { l0 } else { c.1 };
    lemma_same_number_at(a, b, l);
    lemma_same_number_at(b, c, l);
    lemma_same_number_at(a, c, l);
}

/// Agreeing on the number is symmetric.
pub proof fn lemma_same_number_sym(a: (int, int), b: (int, int))
    requires
        same_number(a, b),
    ensures
        same_number(b, a),
{
}

/// A nonzero integer is its part without trailing zeros times a power of ten
/// given by their count, and that part ends in a nonzero digit.
proof fn lemma_trailing_zeros_split(m: int)
    requires
        m != 0,
    ensures
        m == (m / pow10(trailing_zeros(m))) * pow10(trailing_zeros(m)),
        (m / pow10(trailing_zeros(m))) % 10 != 0,
    decreases abs(m),
{
    lemma_pow0(10);
    if m % 10 != 0 {
        assert(m / 1 == m) by (nonlinear_arith);
    } else {
        let k = m / 10;
        assert(m == 10 * k && k != 0 && abs(k) < abs(m)) by (nonlinear_arith)
            requires
                m % 10 == 0,
                m != 0,
                k == m / 10,
        ;
        lemma_trailing_zeros_split(k);
        let t = trailing_zeros(k);
        let p = pow10(t);
        let q = k / p;
        assert(trailing_zeros(m) == t + 1);
        assert(pow10(t + 1) == 10 * p) by {
            reveal(pow);
        }
        lemma_pow_positive(10, t);
        assert(m == q * (10 * p) && (q * (10 * p)) / (10 * p) == q) by (nonlinear_arith)
            requires
                m == 10 * k,
                k == q * p,
                p > 0,
        ;
    }
}

/// Law: `normalized` gives the canonical form of the same number.
pub proof fn lemma_normalized_canonical(v: (int, int))
    ensures
        canonical(normalized(v)),
        same_number(normalized(v), v),
{
    lemma_pow0(10);
    let n = normalized(v);
    if v.0 == 0 {
        assert(n.0 * pow10((v.1 - n.1) as nat) == 0) by (nonlinear_arith)
            requires
                n.0 == 0,
        ;
        if v.1 >= 0 {
            assert(v.0 * pow10(0) == 0) by (nonlinear_arith)
                requires
                    v.0 == 0,
            ;
        } else {
            assert(v.0 * pow10((0 - v.1) as nat) == 0) by (nonlinear_arith)
                requires
                    v.0 == 0,
            ;
            assert(n.0 * pow10(0) == 0) by (nonlinear_arith)
                requires
                    n.0 == 0,
            ;
        }
    } else {
        lemma_trailing_zeros_split(v.0);
        let t = trailing_zeros(v.0);
        assert((v.1 - n.1) as nat == t);
        assert(v.0 * pow10(0) == v.0) by (nonlinear_arith)
            requires
                pow10(0) == 1,
        ;
        let q = v.0 / pow10(t);
        assert(q != 0) by (nonlinear_arith)
            requires
                v.0 == q * pow10(t),
                v.0 != 0,
        ;
    }
}

/// Two canonical forms of the same number are the same.
pub proof fn lemma_canonical_unique(a: (int, int), b: (int, int))
    requires
        canonical(a),
        canonical(b),
        same_number(a, b),
    ensures
        a == b,
{
    lemma_pow0(10);
    if a.1 == b.1 {
        assert(a.0 * pow10(0) == a.0 && b.0 * pow10(0) == b.0) by (nonlinear_arith)
            requires
                pow10(0) == 1,
        ;
    } else {
        lemma_canonical_scale_le(a, b);
        lemma_canonical_scale_le(b, a);
    }
}

/// A canonical form of a number has no larger scale than another canonical
/// form of it.
proof fn lemma_canonical_scale_le(a: (int, int), b: (int, int))
    requires
        canonical(a),
        canonical(b),
        same_number(a, b),
    ensures
        b.1 <= a.1,
{
    if b.1 <= a.1 {
        return;
    }
    lemma_pow0(10);
    let d = (b.1 - a.1) as nat;
    let p = pow10((d - 1) as nat);
    assert(pow10(d) == 10 * p) by {
        reveal(pow);
    }
    lemma_pow_positive(10, (d - 1) as nat);
    assert(b.0 * pow10(0) == b.0) by (nonlinear_arith)
        requires
            pow10(0) == 1,
    ;
    // b.0 == a.0 * 10^d
    assert(b.0 == a.0 * (10 * p));
    assert(b.0 == 10 * (a.0 * p) && (b.0 == 0 <==> a.0 == 0)) by (nonlinear_arith)
        requires
            b.0 == a.0 * (10 * p),
            p > 0,
    ;
    assert((10 * (a.0 * p)) % 10 == 0) by (nonlinear_arith);
}

/// Stripping the trailing zeros of the amount leaves its scale within `i64`
/// (`BigDecimal::normalized` subtracts their count from the scale).
pub open spec fn normalizable(a: Amount) -> bool {
    a.scale - trailing_zeros(a.mantissa()) >= i64::MIN
}

/// Scaling up by `10^d` keeps the value.
pub proof fn lemma_scaled_shift(a: Amount, s: int, d: nat)
    requires
        s >= a.scale,
    ensures
        scaled(a, s + d) == scaled(a, s) * pow10(d),
{
    lemma_pow_adds(10, (s - a.scale) as nat, d);
    assert((s + d - a.scale) as nat == (s - a.scale) as nat + d);
    lemma_mul_is_associative(a.mantissa(), pow10((s - a.scale) as nat), pow10(d));
}

/// Calls `BigDecimal::from_str` on the text: the mantissa and scale of the
/// number it parses, `None` where it refuses the text.
#[verifier::external_body]
pub(crate) fn parse_amount(text: &str) -> (res: Option<Amount>)
    ensures
        match res {
            Some(a) => parsed_decimal(text@) == Some(a@),
            None => parsed_decimal(text@) is None,
        },
{
    match BigDecimal::from_str(text) {
        Ok(d) => {
            let (m, scale) = d.into_bigint_and_exponent();
            let (sign, magnitude) = m.to_bytes_le();
            Some(Amount { negative: sign == Sign::Minus, magnitude, scale })
        },
        Err(_) => None,
    }
}

/// Calls `BigDecimal + BigDecimal` (by value, left operand `a`). Where the two
/// scales differ by more than an `i64` holds, bigdecimal's alignment of the
/// scales panics ("subtraction overflow"), so they are left out. The sum is
/// exact and has the larger of the two scales.
#[verifier::external_body]
pub(crate) fn decimal_add(a: &Amount, b: &Amount) -> (r: Amount)
    requires
        scales_close(a.scale as int, b.scale as int),
    ensures
        r.scale == max_scale(*a, *b),
        r.mantissa() == scaled(*a, max_scale(*a, *b)) + scaled(*b, max_scale(*a, *b)),
{
    let x = BigDecimal::new(BigInt::from_bytes_le(if a.negative { Sign::Minus } else { Sign::Plus }, &a.magnitude), a.scale);
    let y = BigDecimal::new(BigInt::from_bytes_le(if b.negative { Sign::Minus } else { Sign::Plus }, &b.magnitude), b.scale);
    let (m, scale) = (x + y).into_bigint_and_exponent();
    let (sign, magnitude) = m.to_bytes_le();
    Amount { negative: sign == Sign::Minus, magnitude, scale }
}

/// Calls `BigDecimal -= &BigDecimal` on `a` with `b`. Where the two scales
/// differ by more than an `i64` holds, bigdecimal's alignment panics, so they
/// are left out. The difference is exact; its scale is `a`'s where `b` is
/// zero, `b`'s where `a` is zero (and `b` is not), the larger one otherwise.
#[verifier::external_body]
pub(crate) fn decimal_sub(a: &Amount, b: &Amount) -> (r: Amount)
    requires
        scales_close(a.scale as int, b.scale as int),
    ensures
        r.scale == (if b.mantissa() == 0 {
            a.scale as int
        } else if a.mantissa() == 0 {
            b.scale as int
        } else {
            max_scale(*a, *b)
        }),
        scaled(r, max_scale(*a, *b)) == scaled(*a, max_scale(*a, *b)) - scaled(*b, max_scale(*a, *b)),
{
    let mut x = BigDecimal::new(BigInt::from_bytes_le(if a.negative { Sign::Minus } else { Sign::Plus }, &a.magnitude), a.scale);
    let y = BigDecimal::new(BigInt::from_bytes_le(if b.negative { Sign::Minus } else { Sign::Plus }, &b.magnitude), b.scale);
    x -= &y;
    let (m, scale) = x.into_bigint_and_exponent();
    let (sign, magnitude) = m.to_bytes_le();
    Amount { negative: sign == Sign::Minus, magnitude, scale }
}

/// Calls `BigDecimal > BigDecimal`, which compares the values.
#[verifier::external_body]
pub(crate) fn decimal_gt(a: &Amount, b: &Amount) -> (res: bool)
    ensures
        res == (scaled(*a, max_scale(*a, *b)) > scaled(*b, max_scale(*a, *b))),
{
    let x = BigDecimal::new(BigInt::from_bytes_le(if a.negative { Sign::Minus } else { Sign::Plus }, &a.magnitude), a.scale);
    let y = BigDecimal::new(BigInt::from_bytes_le(if b.negative { Sign::Minus } else { Sign::Plus }, &b.magnitude), b.scale);
    x > y
}

/// Calls `BigDecimal::normalized`, which strips the trailing zeros of the
/// mantissa and lowers the scale by their count (an overflow where that count
/// takes the scale below `i64::MIN`, so that is left out); zero becomes `0`
/// at scale `0`.
#[verifier::external_body]
pub(crate) fn decimal_normalized(a: &Amount) -> (r: Amount)
    requires
        normalizable(*a),
    ensures
        r@ == normalized(a@),
{
    let x = BigDecimal::new(BigInt::from_bytes_le(if a.negative { Sign::Minus } else { Sign::Plus }, &a.magnitude), a.scale);
    let (m, scale) = x.normalized().into_bigint_and_exponent();
    let (sign, magnitude) = m.to_bytes_le();
    Amount { negative: sign == Sign::Minus, magnitude, scale }
}

/// Calls `BigDecimal`'s `Display` (through `to_string`).
#[verifier::external_body]
pub(crate) fn decimal_to_string(a: &Amount) -> (res: String)
    ensures
        res@ == decimal_text(a.mantissa(), a.scale as int),
{
    BigDecimal::new(BigInt::from_bytes_le(if a.negative { Sign::Minus } else { Sign::Plus }, &a.magnitude), a.scale).to_string()
}

/// The number whose little-endian decimal digits are `digits`.
pub open spec fn le10_value(digits: Seq<u8>) -> nat
    decreases digits.len(),
{
    if digits.len() == 0 {
        0
    } else {
        digits[0] as nat + 10 * le10_value(digits.drop_first())
    }
}

/// `|x|`.
pub open spec fn abs(x: int) -> int {
    if x < 0 {
        -x
    } else {
        x
    }
}

/// Calls `BigInt::to_radix_le(10)` on the mantissa: its decimal digits
/// (each below ten), least significant first.
#[verifier::external_body]
pub(crate) fn decimal_digits_le(a: &Amount) -> (d: Vec<u8>)
    ensures
        forall|i: int| 0 <= i < d@.len() ==> d@[i] < 10,
        le10_value(d@) == abs(a.mantissa()),
{
    BigInt::from_bytes_le(if a.negative { Sign::Minus } else { Sign::Plus }, &a.magnitude).to_radix_le(10).1
}

/// Digits that are all zero denote zero.
proof fn lemma_le10_all_zero(d: Seq<u8>)
    requires
        forall|i: int| 0 <= i < d.len() ==> d[i] == 0,
    ensures
        le10_value(d) == 0,
    decreases d.len(),
{
    if d.len() > 0 {
        lemma_le10_all_zero(d.drop_first());
    }
}

/// Where the first `c` decimal digits are zero and digit `c` is not, the
/// number is nonzero and has `c` trailing zeros.
proof fn lemma_le10_trailing_zeros(d: Seq<u8>, c: int)
    requires
        0 <= c < d.len(),
        forall|i: int| 0 <= i < d.len() ==> d[i] < 10,
        forall|i: int| 0 <= i < c ==> d[i] == 0,
        d[c] != 0,
    ensures
        le10_value(d) > 0,
        trailing_zeros(le10_value(d) as int) == c,
    decreases c,
{
    let v = le10_value(d) as int;
    let r = le10_value(d.drop_first()) as int;
    assert(v == d[0] + 10 * r);
    if c == 0 {
        let x = d[0] as int;
        assert((x + 10 * r) % 10 == x && x + 10 * r > 0) by (nonlinear_arith)
            requires
                0 < x < 10,
                r >= 0,
        ;
    } else {
        lemma_le10_trailing_zeros(d.drop_first(), c - 1);
        assert((10 * r) % 10 == 0 && (10 * r) / 10 == r && 10 * r > 0) by (nonlinear_arith)
            requires
                r > 0,
        ;
    }
}

/// A number and its negation have the same trailing zeros.
proof fn lemma_trailing_zeros_neg(m: int)
    ensures
        trailing_zeros(-m) == trailing_zeros(m),
        trailing_zeros(abs(m)) == trailing_zeros(m),
    decreases (if m < 0 { -m } else { m }),
{
    if m != 0 {
        assert(((-m) % 10 == 0) == (m % 10 == 0)) by (nonlinear_arith);
        if m % 10 == 0 {
            assert((-m) / 10 == -(m / 10)) by (nonlinear_arith)
                requires
                    m % 10 == 0,
            ;
            assert(-(m / 10) != 0 ==> abs(m / 10) < abs(m)) by (nonlinear_arith)
                requires
                    m % 10 == 0,
                    m != 0,
            ;
            if m / 10 != 0 {
                lemma_trailing_zeros_neg(m / 10);
            }
        }
    }
}

/// The little-endian base-256 digits of `n` (none for zero).
fn le_bytes(n: u64) -> (v: Vec<u8>)
    ensures
        le_value(v@) == n,
    decreases n,
{
    if n == 0 {
        Vec::new()
    } else {
        let mut v = le_bytes(n / 256);
        let ghost rest = v@;
        v.insert(0, (n % 256) as u8);
        assert(v@.drop_first() =~= rest);
        v
    }
}

impl Amount {
    /// The amount zero.
    pub fn zero() -> (r: Amount)
        ensures
            r@ == (0int, 0int),
    {
        Amount { negative: false, magnitude: Vec::new(), scale: 0 }
    }

    /// The amount `mantissa * 10^(-scale)`.
    pub fn new(mantissa: i64, scale: i64) -> (r: Amount)
        ensures
            r@ == (mantissa as int, scale as int),
    {
        let n: u64 = if mantissa < 0 {
            (-(mantissa as i128)) as u64
        } else {
            mantissa as u64
        };
        Amount { negative: mantissa < 0, magnitude: le_bytes(n), scale }
    }

    /// A copy of the amount.
    pub fn duplicate(&self) -> (r: Amount)
        ensures
            r@ == self@,
    {
        let magnitude = self.magnitude.clone();
        assert(magnitude@ =~= self.magnitude@);
        Amount { negative: self.negative, magnitude, scale: self.scale }
    }

    /// Whether the amount can be normalized (see `normalizable`).
    pub fn is_normalizable(&self) -> (res: bool)
        ensures
            res == normalizable(*self),
    {
        let d = decimal_digits_le(self);
        let mut c: usize = 0;
        while c < d.len() && d[c] == 0
            invariant
                0 <= c <= d@.len(),
                forall|i: int| 0 <= i < c ==> d@[i] == 0,
            decreases d.len() - c,
        {
            c = c + 1;
        }
        if c == d.len() {
            proof {
                lemma_le10_all_zero(d@);
            }
            return true;
        }
        proof {
            lemma_le10_trailing_zeros(d@, c as int);
            lemma_trailing_zeros_neg(self.mantissa());
        }
        self.scale as i128 - c as i128 >= i64::MIN as i128
    }

    /// Parses a decimal number, as `BigDecimal::from_str` does.
    pub fn parse(text: &str) -> (res: Option<Amount>)
        ensures
            match res {
                Some(a) => amount_of_text(text@) == Some(a@),
                None => amount_of_text(text@) is None,
            },
    {
        parse_amount(text)
    }

    /// The text of the number, as `BigDecimal`'s `Display` writes it.
    pub fn to_text(&self) -> (res: String)
        ensures
            res@ == decimal_text(self.mantissa(), self.scale as int),
    {
        decimal_to_string(self)
    }
}

} // verus!
