//! Fixed-point decimal numbers (a 96-bit signed mantissa and a power-of-ten
//! scale), with the arithmetic done by `rust_decimal`.
use vstd::prelude::*;

verus! {

/// The largest mantissa magnitude a decimal can hold: 2^96 - 1.
pub const MAX_MANTISSA: i128 = 0xFFFF_FFFF_FFFF_FFFF_FFFF_FFFF;

/// The largest scale (number of fractional decimal digits) a decimal can hold.
pub const MAX_SCALE: u32 = 28;

/// Whether `(mantissa, scale)` describes a representable decimal, the number
/// `mantissa / 10^scale`.
pub open spec fn valid_parts(parts: (i128, u32)) -> bool {
    &&& -MAX_MANTISSA <= parts.0 <= MAX_MANTISSA
    &&& parts.1 <= MAX_SCALE
}

/// What `rust_decimal::Decimal::checked_add` gives for two decimals, each
/// written as `(mantissa, scale)`; `None` where the sum overflows.
pub uninterp spec fn decimal_checked_add(lhs: (i128, u32), rhs: (i128, u32)) -> Option<(i128, u32)>;

/// What `rust_decimal::Decimal::checked_mul` gives for two decimals, each
/// written as `(mantissa, scale)`; `None` where the product overflows.
pub uninterp spec fn decimal_checked_mul(lhs: (i128, u32), rhs: (i128, u32)) -> Option<(i128, u32)>;

/// What `rust_decimal::Decimal::checked_div` gives for two decimals, each
/// written as `(mantissa, scale)`; `None` on division by zero or overflow.
pub uninterp spec fn decimal_checked_div(lhs: (i128, u32), rhs: (i128, u32)) -> Option<(i128, u32)>;

/// Ten to the power `n`.
pub open spec fn pow10(n: nat) -> int
    decreases n,
{
    if n == 0 {
        1
    } else {
        10 * pow10((n - 1) as nat)
    }
}

/// The value of a decimal in units of 10^-28, the finest scale a decimal
/// has: two decimals are equal as numbers (as `rust_decimal`'s `==` compares
/// them) exactly where their units are equal.
pub open spec fn units(d: (i128, u32)) -> int {
    d.0 * pow10((MAX_SCALE - d.1) as nat)
}

/// The larger of the scales of two decimals.
pub open spec fn max_scale_of(a: (i128, u32), b: (i128, u32)) -> u32 {
    if a.1 >= b.1 {
        a.1
    } else {
        b.1
    }
}

/// The mantissa of the sum of two decimals, both brought to the larger of
/// their scales.
pub open spec fn aligned_sum(a: (i128, u32), b: (i128, u32)) -> int {
    a.0 * pow10((max_scale_of(a, b) - a.1) as nat) + b.0 * pow10((max_scale_of(a, b) - b.1) as nat)
}

/// Whether the sum of two decimals, at the larger of their scales, fits in
/// 96 bits: then adding them rounds nothing.
pub open spec fn adds_exactly(a: (i128, u32), b: (i128, u32)) -> bool {
    -MAX_MANTISSA <= aligned_sum(a, b) <= MAX_MANTISSA
}

/// Ten to a power is positive, and powers multiply by adding exponents.
pub proof fn lemma_pow10(a: nat, b: nat)
    ensures
        pow10(a) >= 1,
        pow10(a + b) == pow10(a) * pow10(b),
    decreases a,
{
    if a > 0 {
        lemma_pow10((a - 1) as nat, b);
        assert(pow10(a + b) == 10 * pow10((a - 1 + b) as nat));
        assert(10 * (pow10((a - 1) as nat) * pow10(b)) == (10 * pow10((a - 1) as nat)) * pow10(b))
            by (nonlinear_arith);
    }
}

/// A sum at the larger scale, brought to units, is the sum of the units.
pub proof fn lemma_aligned_units(a: (i128, u32), b: (i128, u32))
    requires
        a.1 <= MAX_SCALE,
        b.1 <= MAX_SCALE,
    ensures
        aligned_sum(a, b) * pow10((MAX_SCALE - max_scale_of(a, b)) as nat) == units(a) + units(b),
{
    let s = max_scale_of(a, b);
    let q = pow10((MAX_SCALE - s) as nat);
    let pa = pow10((s - a.1) as nat);
    let pb = pow10((s - b.1) as nat);
    lemma_pow10((s - a.1) as nat, (MAX_SCALE - s) as nat);
    lemma_pow10((s - b.1) as nat, (MAX_SCALE - s) as nat);
    assert(((s - a.1) as nat + (MAX_SCALE - s) as nat) as nat == (MAX_SCALE - a.1) as nat);
    assert(((s - b.1) as nat + (MAX_SCALE - s) as nat) as nat == (MAX_SCALE - b.1) as nat);
    let (ma, mb) = (a.0 as int, b.0 as int);
    assert((ma * pa + mb * pb) * q == ma * (pa * q) + mb * (pb * q)) by (nonlinear_arith);
}

/// Two decimals whose scales are at most `top` and whose units sum within
/// 96 bits at scale `top` add exactly.
pub proof fn lemma_adds_exactly_within(a: (i128, u32), b: (i128, u32), top: u32)
    requires
        a.1 <= top,
        b.1 <= top,
        top <= MAX_SCALE,
        -MAX_MANTISSA * pow10((MAX_SCALE - top) as nat) <= units(a) + units(b) <= MAX_MANTISSA
            * pow10((MAX_SCALE - top) as nat),
    ensures
        adds_exactly(a, b),
{
    let s = max_scale_of(a, b);
    let q = pow10((MAX_SCALE - s) as nat);
    let big_q = pow10((MAX_SCALE - top) as nat);
    lemma_aligned_units(a, b);
    lemma_pow10((MAX_SCALE - top) as nat, (top - s) as nat);
    lemma_pow10((top - s) as nat, 0);
    assert(((MAX_SCALE - top) as nat + (top - s) as nat) as nat == (MAX_SCALE - s) as nat);
    let m = aligned_sum(a, b);
    let u = units(a) + units(b);
    let r = pow10((top - s) as nat);
    let max = MAX_MANTISSA as int;
    assert(-max <= m <= max) by (nonlinear_arith)
        requires
            m * q == u,
            q == big_q * r,
            big_q >= 1,
            r >= 1,
            -max * big_q <= u <= max * big_q,
            max >= 0,
    ;
}

/// Calls `rust_decimal::Decimal::checked_add` on the decimals with the given
/// parts and returns the parts of the sum. Claimed of it: the result is the
/// named `decimal_checked_add`, a representable decimal; adding a zero gives
/// the other operand unchanged (the right one where both are zero, as the
/// source returns the right operand when the left is zero); two non-zero
/// operands whose sum at the larger of their scales fits in 96 bits add
/// exactly at that scale.
#[verifier::external_body]
fn rd_checked_add(lhs: (i128, u32), rhs: (i128, u32)) -> (sum: Option<(i128, u32)>)
    requires
        valid_parts(lhs),
        valid_parts(rhs),
    ensures
        sum == decimal_checked_add(lhs, rhs),
        sum matches Some(s) ==> valid_parts(s),
        lhs.0 == 0 ==> sum == Some(rhs),
        rhs.0 == 0 && lhs.0 != 0 ==> sum == Some(lhs),
        lhs.0 != 0 && rhs.0 != 0 && adds_exactly(lhs, rhs) ==> sum == Some(
            (aligned_sum(lhs, rhs) as i128, max_scale_of(lhs, rhs)),
        ),
{
    let a = rust_decimal::Decimal::from_i128_with_scale(lhs.0, lhs.1);
    let b = rust_decimal::Decimal::from_i128_with_scale(rhs.0, rhs.1);
    match a.checked_add(b) {
        Some(s) => Some((s.mantissa(), s.scale())),
        None => None,
    }
}

/// Calls `rust_decimal::Decimal::checked_mul` on the decimals with the given
/// parts and returns the parts of the product. Claimed of it: the result is
/// the named `decimal_checked_mul`, a representable decimal; a zero operand
/// gives zero at scale 0; two non-zero mantissas below 2^32 whose scales add
/// up to at most 28 multiply exactly, the scales adding up.
#[verifier::external_body]
fn rd_checked_mul(lhs: (i128, u32), rhs: (i128, u32)) -> (prod: Option<(i128, u32)>)
    requires
        valid_parts(lhs),
        valid_parts(rhs),
    ensures
        prod == decimal_checked_mul(lhs, rhs),
        prod matches Some(p) ==> valid_parts(p),
        lhs.0 == 0 || rhs.0 == 0 ==> prod == Some((0i128, 0u32)),
        lhs.0 != 0 && rhs.0 != 0 && -0x1_0000_0000 < lhs.0 < 0x1_0000_0000 && -0x1_0000_0000
            < rhs.0 < 0x1_0000_0000 && lhs.1 + rhs.1 <= MAX_SCALE ==> prod == Some(((lhs.0 * rhs.0) as i128, (lhs.1 + rhs.1) as u32)),
{
    let a = rust_decimal::Decimal::from_i128_with_scale(lhs.0, lhs.1);
    let b = rust_decimal::Decimal::from_i128_with_scale(rhs.0, rhs.1);
    match a.checked_mul(b) {
        Some(p) => Some((p.mantissa(), p.scale())),
        None => None,
    }
}

/// Calls `rust_decimal::Decimal::checked_div` on the decimals with the given
/// parts and returns the parts of the quotient. Claimed of it: the result is
/// the named `decimal_checked_div`, a representable decimal; a zero divisor
/// gives `None`; a zero dividend over a non-zero divisor gives zero at scale 0.
#[verifier::external_body]
fn rd_checked_div(lhs: (i128, u32), rhs: (i128, u32)) -> (quot: Option<(i128, u32)>)
    requires
        valid_parts(lhs),
        valid_parts(rhs),
    ensures
        quot == decimal_checked_div(lhs, rhs),
        quot matches Some(q) ==> valid_parts(q),
        rhs.0 == 0 ==> quot is None,
        lhs.0 == 0 && rhs.0 != 0 ==> quot == Some((0i128, 0u32)),
{
    let a = rust_decimal::Decimal::from_i128_with_scale(lhs.0, lhs.1);
    let b = rust_decimal::Decimal::from_i128_with_scale(rhs.0, rhs.1);
    match a.checked_div(b) {
        Some(q) => Some((q.mantissa(), q.scale())),
        None => None,
    }
}

/// A decimal number `mantissa / 10^scale`, as `rust_decimal::Decimal` holds it.
#[derive(Clone, Copy, Debug)]
pub struct Decimal {
    mantissa: i128,
    scale: u32,
}

impl View for Decimal {
    type V = (i128, u32);

    /// The decimal as `(mantissa, scale)`.
    closed spec fn view(&self) -> (i128, u32) {
        (self.mantissa, self.scale)
    }
}

impl Decimal {
    #[verifier::type_invariant]
    spec fn well_formed(self) -> bool {
        valid_parts((self.mantissa, self.scale))
    }

    /// The decimal `num / 10^scale`, or `None` where the scale exceeds 28 or
    /// the mantissa does not fit in 96 bits.
    pub fn try_from_i128_with_scale(num: i128, scale: u32) -> (d: Option<Decimal>)
        ensures
            d is Some <==> valid_parts((num, scale)),
            d matches Some(d) ==> d@ == (num, scale),
    {
        if scale <= MAX_SCALE && -MAX_MANTISSA <= num && num <= MAX_MANTISSA {
            Some(Decimal { mantissa: num, scale })
        } else {
            None
        }
    }

    /// Zero.
    pub fn zero() -> (d: Decimal)
        ensures
            d@ == (0i128, 0u32),
    {
        Decimal { mantissa: 0, scale: 0 }
    }

    /// One.
    pub fn one() -> (d: Decimal)
        ensures
            d@ == (1i128, 0u32),
    {
        Decimal { mantissa: 1, scale: 0 }
    }

    /// Minus one.
    pub fn negative_one() -> (d: Decimal)
        ensures
            d@ == (-1i128, 0u32),
    {
        Decimal { mantissa: -1, scale: 0 }
    }

    /// The mantissa.
    pub fn mantissa(&self) -> (m: i128)
        ensures
            m == self@.0,
            -MAX_MANTISSA <= m <= MAX_MANTISSA,
    {
        proof {
            use_type_invariant(self);
        }
        self.mantissa
    }

    /// The scale: the number of fractional decimal digits.
    pub fn scale(&self) -> (s: u32)
        ensures
            s == self@.1,
            s <= MAX_SCALE,
    {
        proof {
            use_type_invariant(self);
        }
        self.scale
    }

    /// Whether the decimal is zero (at any scale), as
    /// `rust_decimal::Decimal::is_zero` says: its mantissa is zero.
    pub fn is_zero(&self) -> (zero: bool)
        ensures
            zero == (self@.0 == 0),
    {
        self.mantissa == 0
    }

    /// The sum, or `None` where it overflows.
    pub fn checked_add(self, other: Decimal) -> (sum: Option<Decimal>)
        ensures
            sum is Some <==> decimal_checked_add(self@, other@) is Some,
            sum matches Some(s) ==> decimal_checked_add(self@, other@) == Some(s@),
            self@.0 == 0 ==> sum == Some(other),
            other@.0 == 0 && self@.0 != 0 ==> sum == Some(self),
            self@.0 != 0 && other@.0 != 0 && adds_exactly(self@, other@) ==> (sum matches Some(s)
                && s@ == (aligned_sum(self@, other@) as i128, max_scale_of(self@, other@))),
            adds_exactly(self@, other@) ==> (sum matches Some(s) && units(s@) == units(self@)
                + units(other@) && s@.1 <= max_scale_of(self@, other@)),
    {
        proof {
            use_type_invariant(&self);
            use_type_invariant(&other);
            lemma_aligned_units(self@, other@);
            let (ps, po) = (
                pow10((MAX_SCALE - self.scale) as nat),
                pow10((MAX_SCALE - other.scale) as nat),
            );
            if self.mantissa == 0 {
                assert(units(self@) == 0) by {
                    assert(0 * ps == 0);
                }
            }
            if other.mantissa == 0 {
                assert(units(other@) == 0) by {
                    assert(0 * po == 0);
                }
            }
        }
        let r = rd_checked_add((self.mantissa, self.scale), (other.mantissa, other.scale));
        match r {
            Some(parts) => Some(Decimal { mantissa: parts.0, scale: parts.1 }),
            None => None,
        }
    }

    /// The sum; defined only where it does not overflow.
    pub fn add(self, other: Decimal) -> (sum: Decimal)
        requires
            decimal_checked_add(self@, other@) is Some,
        ensures
            decimal_checked_add(self@, other@) == Some(sum@),
            self@.0 == 0 ==> sum == other,
            other@.0 == 0 && self@.0 != 0 ==> sum == self,
            adds_exactly(self@, other@) ==> units(sum@) == units(self@) + units(other@) && sum@.1
                <= max_scale_of(self@, other@),
    {
        match self.checked_add(other) {
            Some(s) => s,
            None => self,
        }
    }

    /// The product, or `None` where it overflows.
    pub fn checked_mul(self, other: Decimal) -> (prod: Option<Decimal>)
        ensures
            prod is Some <==> decimal_checked_mul(self@, other@) is Some,
            prod matches Some(p) ==> decimal_checked_mul(self@, other@) == Some(p@),
            self@.0 == 0 || other@.0 == 0 ==> (prod matches Some(p) && p@ == (0i128, 0u32)),
            self@.0 != 0 && other@.0 != 0 && -0x1_0000_0000 < self@.0 < 0x1_0000_0000
                && -0x1_0000_0000 < other@.0 < 0x1_0000_0000 && self@.1 + other@.1 <= MAX_SCALE ==> (
            prod matches Some(p) && p@ == (
                (self@.0 * other@.0) as i128,
                (self@.1 + other@.1) as u32,
            )),
    {
        proof {
            use_type_invariant(&self);
            use_type_invariant(&other);
        }
        match rd_checked_mul((self.mantissa, self.scale), (other.mantissa, other.scale)) {
            Some(parts) => Some(Decimal { mantissa: parts.0, scale: parts.1 }),
            None => None,
        }
    }

    /// The quotient, or `None` on division by zero or overflow.
    pub fn checked_div(self, other: Decimal) -> (quot: Option<Decimal>)
        ensures
            quot is Some <==> decimal_checked_div(self@, other@) is Some,
            quot matches Some(q) ==> decimal_checked_div(self@, other@) == Some(q@),
            other@.0 == 0 ==> quot is None,
            self@.0 == 0 && other@.0 != 0 ==> (quot matches Some(q) && q@ == (0i128, 0u32)),
    {
        proof {
            use_type_invariant(&self);
            use_type_invariant(&other);
        }
        match rd_checked_div((self.mantissa, self.scale), (other.mantissa, other.scale)) {
            Some(parts) => Some(Decimal { mantissa: parts.0, scale: parts.1 }),
            None => None,
        }
    }

    /// The quotient; defined only where the divisor is non-zero and the
    /// quotient does not overflow.
    pub fn div(self, other: Decimal) -> (quot: Decimal)
        requires
            decimal_checked_div(self@, other@) is Some,
        ensures
            decimal_checked_div(self@, other@) == Some(quot@),
    {
        match self.checked_div(other) {
            Some(q) => q,
            None => self,
        }
    }
}

} // verus!
