//! Position sizes: the IEEE-754 binary64 number the broker reports, held as
//! its bit pattern, and the same size as a decimal, by which greeks are
//! weighted.
use vstd::prelude::*;
use crate::decimal::Decimal;

verus! {

/// Whether a binary64 bit pattern is a number below zero: a set sign bit on
/// a non-zero magnitude that is no NaN, i.e. the patterns from the smallest
/// negative subnormal up to negative infinity.
pub open spec fn bits_below_zero(bits: u64) -> bool {
    0x8000_0000_0000_0001u64 <= bits <= 0xFFF0_0000_0000_0000u64
}

/// Whether a decimal amount has no sign that the binary64 number denies: a
/// negative amount for a number below zero only, a positive one for a number
/// not below zero only (zero fits either).
pub open spec fn signs_agree(bits: u64, amount: Option<Decimal>) -> bool {
    amount matches Some(a) ==> ((a@.0 < 0 ==> bits_below_zero(bits)) && (a@.0 > 0
        ==> !bits_below_zero(bits)))
}

/// The size of a position (negative for a short position).
#[derive(Debug, Clone, Copy)]
pub struct Quantity {
    bits: u64,
    amount: Option<Decimal>,
}

impl Quantity {
    #[verifier::type_invariant]
    spec fn well_formed(self) -> bool {
        signs_agree(self.bits, self.amount)
    }

    /// The IEEE-754 binary64 bit pattern of the reported number.
    pub closed spec fn bits_of(self) -> u64 {
        self.bits
    }

    /// The reported number as a decimal, where it has one (NaN and the
    /// infinities have none).
    pub closed spec fn amount_of(self) -> Option<Decimal> {
        self.amount
    }

    /// Whether the number compares below zero.
    pub open spec fn below_zero(self) -> bool {
        bits_below_zero(self.bits_of())
    }

    /// The quantity with the given bit pattern and decimal amount, or `None`
    /// where the amount's sign contradicts the number's.
    pub fn new(bits: u64, amount: Option<Decimal>) -> (q: Option<Quantity>)
        ensures
            q is Some <==> signs_agree(bits, amount),
            q matches Some(q) ==> q.bits_of() == bits && q.amount_of() == amount,
    {
        let agree = match amount {
            Some(a) => {
                let m = a.mantissa();
                let below = 0x8000_0000_0000_0001u64 <= bits && bits <= 0xFFF0_0000_0000_0000u64;
                (m >= 0 || below) && (m <= 0 || !below)
            },
            None => true,
        };
        if agree {
            Some(Quantity { bits, amount })
        } else {
            None
        }
    }

    /// The IEEE-754 binary64 bit pattern of the reported number.
    pub fn bits(&self) -> (b: u64)
        ensures
            b == self.bits_of(),
    {
        self.bits
    }

    /// The reported number as a decimal, where it has one; its sign agrees
    /// with the number's.
    pub fn amount(&self) -> (a: Option<Decimal>)
        ensures
            a == self.amount_of(),
            signs_agree(self.bits_of(), a),
    {
        proof {
            use_type_invariant(self);
        }
        self.amount
    }

    /// Whether the quantity is less than zero (`-0.0` and NaN are not).
    pub fn is_negative(&self) -> (neg: bool)
        ensures
            neg == self.below_zero(),
    {
        0x8000_0000_0000_0001u64 <= self.bits && self.bits <= 0xFFF0_0000_0000_0000u64
    }
}

} // verus!
