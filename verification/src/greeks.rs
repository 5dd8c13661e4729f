//! Option greeks and their sums.
use vstd::prelude::*;
use crate::decimal::{
    Decimal, adds_exactly, decimal_checked_add, decimal_checked_mul, max_scale_of, units,
};
use crate::quantity::{Quantity, signs_agree};

verus! {

/// The greeks of a leg or of a book. Delta is always known; the others may
/// be missing.
#[derive(Debug, Clone, Copy)]
pub struct Greeks {
    pub delta: Decimal,
    pub vega: Option<Decimal>,
    pub theta: Option<Decimal>,
    pub gamma: Option<Decimal>,
    pub rho: Option<Decimal>,
}

/// The greeks, each decimal as `(mantissa, scale)`.
pub struct GreeksView {
    pub delta: (i128, u32),
    pub vega: Option<(i128, u32)>,
    pub theta: Option<(i128, u32)>,
    pub gamma: Option<(i128, u32)>,
    pub rho: Option<(i128, u32)>,
}

/// An optional decimal as an optional `(mantissa, scale)`.
pub open spec fn opt_view(d: Option<Decimal>) -> Option<(i128, u32)> {
    match d {
        Some(d) => Some(d@),
        None => None,
    }
}

impl View for Greeks {
    type V = GreeksView;

    open spec fn view(&self) -> GreeksView {
        GreeksView {
            delta: self.delta@,
            vega: opt_view(self.vega),
            theta: opt_view(self.theta),
            gamma: opt_view(self.gamma),
            rho: opt_view(self.rho),
        }
    }
}

/// The sum of two optional greeks: present only where both are, then their
/// decimal sum. The outer `None` marks an overflowing sum.
pub open spec fn sum_optional(
    a: Option<(i128, u32)>,
    b: Option<(i128, u32)>,
) -> Option<Option<(i128, u32)>> {
    match (a, b) {
        (Some(x), Some(y)) => match decimal_checked_add(x, y) {
            Some(s) => Some(Some(s)),
            None => None,
        },
        _ => Some(None),
    }
}

/// The sum of two sets of greeks, field by field; `None` where one of the
/// sums overflows.
pub open spec fn sum_greeks(a: GreeksView, b: GreeksView) -> Option<GreeksView> {
    match (
        decimal_checked_add(a.delta, b.delta),
        sum_optional(a.vega, b.vega),
        sum_optional(a.theta, b.theta),
        sum_optional(a.gamma, b.gamma),
        sum_optional(a.rho, b.rho),
    ) {
        (Some(delta), Some(vega), Some(theta), Some(gamma), Some(rho)) => Some(
            GreeksView { delta, vega, theta, gamma, rho },
        ),
        _ => None,
    }
}

/// An optional greek times a factor: unknown where the greek is, else the
/// decimal product. The outer `None` marks an overflowing product.
pub open spec fn scale_optional(g: Option<(i128, u32)>, factor: (i128, u32)) -> Option<
    Option<(i128, u32)>,
> {
    match g {
        Some(x) => match decimal_checked_mul(x, factor) {
            Some(p) => Some(Some(p)),
            None => None,
        },
        None => Some(None),
    }
}

/// The greeks times a factor, field by field; `None` where a product
/// overflows.
pub open spec fn scale_greeks(g: GreeksView, factor: (i128, u32)) -> Option<GreeksView> {
    match (
        decimal_checked_mul(g.delta, factor),
        scale_optional(g.vega, factor),
        scale_optional(g.theta, factor),
        scale_optional(g.gamma, factor),
        scale_optional(g.rho, factor),
    ) {
        (Some(delta), Some(vega), Some(theta), Some(gamma), Some(rho)) => Some(
            GreeksView { delta, vega, theta, gamma, rho },
        ),
        _ => None,
    }
}

/// One greek of a set, by its place: 0 delta, 1 vega, 2 theta, 3 gamma,
/// 4 rho.
pub open spec fn greek_field(g: GreeksView, k: int) -> Option<(i128, u32)> {
    if k == 0 {
        Some(g.delta)
    } else if k == 1 {
        g.vega
    } else if k == 2 {
        g.theta
    } else if k == 3 {
        g.gamma
    } else {
        g.rho
    }
}

/// Whether `z` holds, value for value, the sum of two greeks wherever both
/// are known and adding them rounds nothing: then `z` is known, its value is
/// the sum of theirs, and its scale is no larger than theirs.
pub open spec fn adds_to(x: Option<(i128, u32)>, y: Option<(i128, u32)>, z: Option<(i128, u32)>) -> bool {
    match (x, y) {
        (Some(a), Some(b)) => adds_exactly(a, b) ==> (z matches Some(c) && units(c) == units(a)
            + units(b) && c.1 <= max_scale_of(a, b)),
        _ => true,
    }
}

/// Scaling greeks by a factor multiplies every greek the set knows by that
/// factor, each by `rust_decimal`'s decimal product, and knows no other
/// greek; it fails exactly where one of those products overflows.
pub proof fn law_scaled_greeks_are_products(g: GreeksView, factor: (i128, u32), k: int)
    requires
        0 <= k < 5,
    ensures
        scale_greeks(g, factor) is Some <==> (forall|j: int|
            0 <= j < 5 && #[trigger] greek_field(g, j) is Some ==> decimal_checked_mul(
                greek_field(g, j).unwrap(),
                factor,
            ) is Some),
        scale_greeks(g, factor) is Some ==> (greek_field(scale_greeks(g, factor).unwrap(), k) is Some
            <==> greek_field(g, k) is Some),
        (scale_greeks(g, factor) is Some && greek_field(g, k) is Some) ==> greek_field(
            scale_greeks(g, factor).unwrap(),
            k,
        ) == decimal_checked_mul(greek_field(g, k).unwrap(), factor),
{
    if scale_greeks(g, factor) is None {
        if decimal_checked_mul(g.delta, factor) is None {
            assert(greek_field(g, 0) is Some);
        } else if scale_optional(g.vega, factor) is None {
            assert(greek_field(g, 1) is Some);
        } else if scale_optional(g.theta, factor) is None {
            assert(greek_field(g, 2) is Some);
        } else if scale_optional(g.gamma, factor) is None {
            assert(greek_field(g, 3) is Some);
        } else {
            assert(greek_field(g, 4) is Some);
        }
    }
}

/// Adding two sets of greeks adds delta to delta and every optional greek
/// both sets know to the other's, each by `rust_decimal`'s decimal sum, and
/// knows an optional greek exactly where both sets know it; it fails exactly
/// where one of those sums overflows.
pub proof fn law_summed_greeks_are_sums(a: GreeksView, b: GreeksView, k: int)
    requires
        0 <= k < 5,
    ensures
        sum_greeks(a, b) is Some <==> (forall|j: int|
            0 <= j < 5 && #[trigger] greek_field(a, j) is Some && greek_field(b, j) is Some
                ==> decimal_checked_add(greek_field(a, j).unwrap(), greek_field(b, j).unwrap())
                is Some),
        sum_greeks(a, b) is Some ==> (greek_field(sum_greeks(a, b).unwrap(), k) is Some <==> (
        greek_field(a, k) is Some && greek_field(b, k) is Some)),
        (sum_greeks(a, b) is Some && greek_field(a, k) is Some && greek_field(b, k) is Some)
            ==> greek_field(sum_greeks(a, b).unwrap(), k) == decimal_checked_add(
            greek_field(a, k).unwrap(),
            greek_field(b, k).unwrap(),
        ),
{
    if sum_greeks(a, b) is None {
        if decimal_checked_add(a.delta, b.delta) is None {
            assert(greek_field(a, 0) is Some && greek_field(b, 0) is Some);
        } else if sum_optional(a.vega, b.vega) is None {
            assert(greek_field(a, 1) is Some && greek_field(b, 1) is Some);
        } else if sum_optional(a.theta, b.theta) is None {
            assert(greek_field(a, 2) is Some && greek_field(b, 2) is Some);
        } else if sum_optional(a.gamma, b.gamma) is None {
            assert(greek_field(a, 3) is Some && greek_field(b, 3) is Some);
        } else {
            assert(greek_field(a, 4) is Some && greek_field(b, 4) is Some);
        }
    }
}

/// Greek by greek, sums of greeks do not depend on the order or the
/// grouping of their operands where no addition rounds: `a + b` and `b + a`
/// have the same value, `(a + b) + c` and `a + (b + c)` have the same value,
/// and which optional greeks a sum knows does not depend on the order. The
/// sums are any that hold what `Greeks::add` promises of them.
pub proof fn law_greek_sums_order_free(
    a: GreeksView,
    b: GreeksView,
    c: GreeksView,
    ab: GreeksView,
    ba: GreeksView,
    bc: GreeksView,
    ab_c: GreeksView,
    a_bc: GreeksView,
    k: int,
)
    requires
        adds_to(greek_field(a, k), greek_field(b, k), greek_field(ab, k)),
        adds_to(greek_field(b, k), greek_field(a, k), greek_field(ba, k)),
        adds_to(greek_field(b, k), greek_field(c, k), greek_field(bc, k)),
        adds_to(greek_field(ab, k), greek_field(c, k), greek_field(ab_c, k)),
        adds_to(greek_field(a, k), greek_field(bc, k), greek_field(a_bc, k)),
    ensures
        (greek_field(a, k) is Some && greek_field(b, k) is Some && adds_exactly(
            greek_field(a, k).unwrap(),
            greek_field(b, k).unwrap(),
        )) ==> (greek_field(ab, k) is Some && greek_field(ba, k) is Some && units(
            greek_field(ab, k).unwrap(),
        ) == units(greek_field(ba, k).unwrap())),
        (greek_field(a, k) is Some && greek_field(b, k) is Some && greek_field(c, k) is Some
            && adds_exactly(greek_field(a, k).unwrap(), greek_field(b, k).unwrap()) && adds_exactly(
            greek_field(b, k).unwrap(),
            greek_field(c, k).unwrap(),
        ) && adds_exactly(greek_field(ab, k).unwrap(), greek_field(c, k).unwrap()) && adds_exactly(
            greek_field(a, k).unwrap(),
            greek_field(bc, k).unwrap(),
        )) ==> (greek_field(ab_c, k) is Some && greek_field(a_bc, k) is Some && units(
            greek_field(ab_c, k).unwrap(),
        ) == units(greek_field(a_bc, k).unwrap())),
        (sum_greeks(a, b) is Some && sum_greeks(b, a) is Some) ==> greek_field(
            sum_greeks(a, b).unwrap(),
            k,
        ) is Some == greek_field(sum_greeks(b, a).unwrap(), k) is Some,
{
}

/// The empty greeks: zero delta, nothing else known.
pub open spec fn no_greeks() -> GreeksView {
    GreeksView { delta: (0i128, 0u32), vega: None, theta: None, gamma: None, rho: None }
}

/// The greeks of a stock position of the given size: delta -1 for a short
/// position, +1 otherwise, nothing else known.
pub open spec fn stock_greeks(quantity: Quantity) -> GreeksView {
    GreeksView {
        delta: if quantity.below_zero() { (-1i128, 0u32) } else { (1i128, 0u32) },
        vega: None,
        theta: None,
        gamma: None,
        rho: None,
    }
}

/// A stock position has delta -1 when short and +1 when long, following
/// the sign of its size (a negative decimal size gives -1, a positive one
/// +1), and no other greek known.
pub proof fn law_stock_delta_follows_sign(quantity: Quantity)
    requires
        signs_agree(quantity.bits_of(), quantity.amount_of()),
    ensures
        stock_greeks(quantity).delta == (-1i128, 0u32) || stock_greeks(quantity).delta == (
            1i128,
            0u32,
        ),
        stock_greeks(quantity).delta == (-1i128, 0u32) <==> quantity.below_zero(),
        quantity.amount_of() matches Some(a) ==> (a@.0 < 0 ==> stock_greeks(quantity).delta == (
            -1i128,
            0u32,
        )),
        quantity.amount_of() matches Some(a) ==> (a@.0 > 0 ==> stock_greeks(quantity).delta == (
            1i128,
            0u32,
        )),
        stock_greeks(quantity).vega is None && stock_greeks(quantity).theta is None
            && stock_greeks(quantity).gamma is None && stock_greeks(quantity).rho is None,
{
}

fn optional_sum_defined(a: Option<Decimal>, b: Option<Decimal>) -> (ok: bool)
    ensures
        ok == sum_optional(opt_view(a), opt_view(b)) is Some,
{
    match (a, b) {
        (Some(x), Some(y)) => x.checked_add(y).is_some(),
        _ => true,
    }
}

fn scale_optional_exec(g: Option<Decimal>, factor: Decimal) -> (r: Option<Option<Decimal>>)
    ensures
        r is Some <==> scale_optional(opt_view(g), factor@) is Some,
        r matches Some(p) ==> scale_optional(opt_view(g), factor@) == Some(opt_view(p)),
{
    match g {
        Some(x) => match x.checked_mul(factor) {
            Some(p) => Some(Some(p)),
            None => None,
        },
        None => Some(None),
    }
}

fn add_optional(a: Option<Decimal>, b: Option<Decimal>) -> (s: Option<Decimal>)
    requires
        sum_optional(opt_view(a), opt_view(b)) is Some,
    ensures
        sum_optional(opt_view(a), opt_view(b)) == Some(opt_view(s)),
        adds_to(opt_view(a), opt_view(b), opt_view(s)),
{
    match (a, b) {
        (Some(x), Some(y)) => Some(x.add(y)),
        _ => None,
    }
}

impl Default for Greeks {
    /// Zero delta, nothing else known.
    fn default() -> (g: Greeks)
        ensures
            g@ == no_greeks(),
    {
        Greeks { delta: Decimal::zero(), vega: None, theta: None, gamma: None, rho: None }
    }
}

impl Greeks {
    /// The greeks of a stock position: delta -1 when the quantity is below
    /// zero, +1 otherwise.
    pub fn from_stock(quantity: Quantity) -> (g: Greeks)
        ensures
            g@ == stock_greeks(quantity),
    {
        if quantity.is_negative() {
            Greeks { delta: Decimal::negative_one(), vega: None, theta: None, gamma: None, rho: None }
        } else {
            Greeks { delta: Decimal::one(), vega: None, theta: None, gamma: None, rho: None }
        }
    }

    /// Whether the field-by-field sum with `rhs` is free of overflow.
    pub fn can_add(&self, rhs: &Greeks) -> (ok: bool)
        ensures
            ok == sum_greeks(self@, rhs@) is Some,
    {
        let d = self.delta.checked_add(rhs.delta).is_some();
        let v = optional_sum_defined(self.vega, rhs.vega);
        let t = optional_sum_defined(self.theta, rhs.theta);
        let g = optional_sum_defined(self.gamma, rhs.gamma);
        let r = optional_sum_defined(self.rho, rhs.rho);
        d && v && t && g && r
    }

    /// The field-by-field sum: delta plus delta, and each optional greek the
    /// sum where both sides know it, unknown otherwise.
    pub fn add(self, rhs: Greeks) -> (sum: Greeks)
        requires
            sum_greeks(self@, rhs@) is Some,
        ensures
            sum_greeks(self@, rhs@) == Some(sum@),
            self.delta@.0 == 0 ==> sum.delta == rhs.delta,
            forall|k: int|
                0 <= k < 5 ==> #[trigger] adds_to(
                    greek_field(self@, k),
                    greek_field(rhs@, k),
                    greek_field(sum@, k),
                ),
    {
        Greeks {
            delta: self.delta.add(rhs.delta),
            gamma: add_optional(self.gamma, rhs.gamma),
            vega: add_optional(self.vega, rhs.vega),
            theta: add_optional(self.theta, rhs.theta),
            rho: add_optional(self.rho, rhs.rho),
        }
    }

    /// The greeks times a factor (a position's size), field by field: delta
    /// times the factor, each optional greek times the factor where it is
    /// known; `None` where a product overflows.
    pub fn checked_mul(self, factor: Decimal) -> (prod: Option<Greeks>)
        ensures
            prod is Some <==> scale_greeks(self@, factor@) is Some,
            prod matches Some(p) ==> scale_greeks(self@, factor@) == Some(p@),
    {
        let delta = match self.delta.checked_mul(factor) {
            Some(d) => d,
            None => {
                return None;
            },
        };
        let vega = match scale_optional_exec(self.vega, factor) {
            Some(v) => v,
            None => {
                return None;
            },
        };
        let theta = match scale_optional_exec(self.theta, factor) {
            Some(v) => v,
            None => {
                return None;
            },
        };
        let gamma = match scale_optional_exec(self.gamma, factor) {
            Some(v) => v,
            None => {
                return None;
            },
        };
        let rho = match scale_optional_exec(self.rho, factor) {
            Some(v) => v,
            None => {
                return None;
            },
        };
        Some(Greeks { delta, vega, theta, gamma, rho })
    }

    /// The field-by-field sum, or `None` where one of the sums overflows.
    pub fn checked_add(self, rhs: Greeks) -> (sum: Option<Greeks>)
        ensures
            sum is Some <==> sum_greeks(self@, rhs@) is Some,
            sum matches Some(s) ==> sum_greeks(self@, rhs@) == Some(s@),
            sum matches Some(s) ==> forall|k: int|
                0 <= k < 5 ==> #[trigger] adds_to(
                    greek_field(self@, k),
                    greek_field(rhs@, k),
                    greek_field(s@, k),
                ),
    {
        if self.can_add(&rhs) {
            Some(self.add(rhs))
        } else {
            None
        }
    }
}

} // verus!
