//! Sums of decimals. Where no addition rounds, the value of a sum (in units
//! of 10^-28) is the sum of the values, so it does not depend on the order
//! or the grouping of the operands.
use vstd::prelude::*;
use crate::decimal::{
    Decimal, MAX_MANTISSA, MAX_SCALE, adds_exactly, decimal_checked_add, lemma_adds_exactly_within,
    lemma_pow10, max_scale_of, pow10, units,
};

verus! {

/// One step of summing the units of the decimals that `part` reads.
pub open spec fn unit_step<A>(part: spec_fn(A) -> (i128, u32)) -> spec_fn(int, A) -> int {
    |acc: int, x: A| acc + units(part(x))
}

/// One step of summing the magnitudes of those units.
pub open spec fn magnitude_step<A>(part: spec_fn(A) -> (i128, u32)) -> spec_fn(int, A) -> int {
    |acc: int, x: A| acc + if units(part(x)) < 0 { -units(part(x)) } else { units(part(x)) }
}

/// One step of finding the largest scale of those decimals.
pub open spec fn scale_step<A>(part: spec_fn(A) -> (i128, u32)) -> spec_fn(u32, A) -> u32 {
    |acc: u32, x: A| if part(x).1 > acc { part(x).1 } else { acc }
}

/// The value, in units of 10^-28, of the decimals that `part` reads from
/// the items, summed exactly.
pub open spec fn unit_sum<A>(xs: Seq<A>, part: spec_fn(A) -> (i128, u32)) -> int {
    xs.fold_left(0int, unit_step(part))
}

/// The magnitudes of those values, summed.
pub open spec fn unit_magnitude<A>(xs: Seq<A>, part: spec_fn(A) -> (i128, u32)) -> int {
    xs.fold_left(0int, magnitude_step(part))
}

/// The largest scale of those decimals; 0 for no items.
pub open spec fn top_scale<A>(xs: Seq<A>, part: spec_fn(A) -> (i128, u32)) -> u32 {
    xs.fold_left(0u32, scale_step(part))
}

/// Whether the decimals that `part` reads from the items sum without
/// rounding: their scales are at most 28, and their magnitudes, brought to
/// the largest of their scales, add up within 96 bits. Then every partial
/// sum, taken in any order, fits at its scale, and no addition rounds.
pub open spec fn sums_without_rounding<A>(xs: Seq<A>, part: spec_fn(A) -> (i128, u32)) -> bool {
    &&& top_scale(xs, part) <= MAX_SCALE
    &&& unit_magnitude(xs, part) <= MAX_MANTISSA * pow10((MAX_SCALE - top_scale(xs, part)) as nat)
}

/// Whether a decimal is, value for value, the sum of the decimals that
/// `part` reads from the items, at a scale no larger than theirs.
pub open spec fn sums_to<A>(total: (i128, u32), xs: Seq<A>, part: spec_fn(A) -> (i128, u32)) -> bool {
    &&& units(total) == unit_sum(xs, part)
    &&& total.1 <= top_scale(xs, part)
}

/// A decimal as its parts.
pub open spec fn decimal_parts() -> spec_fn(Decimal) -> (i128, u32) {
    |d: Decimal| d@
}

/// Decimals summed from the left, starting from zero; `None` where a sum
/// overflows.
pub open spec fn decimal_total(values: Seq<Decimal>) -> Option<(i128, u32)>
    decreases values.len(),
{
    if values.len() == 0 {
        Some((0i128, 0u32))
    } else {
        match decimal_total(values.drop_last()) {
            Some(acc) => decimal_checked_add(acc, values.last()@),
            None => None,
        }
    }
}

/// The exact sum lies within the sum of the magnitudes, and every scale
/// lies within the largest.
pub proof fn lemma_sum_bounds<A>(xs: Seq<A>, part: spec_fn(A) -> (i128, u32))
    ensures
        0 <= unit_magnitude(xs, part),
        -unit_magnitude(xs, part) <= unit_sum(xs, part) <= unit_magnitude(xs, part),
        forall|i: int| 0 <= i < xs.len() ==> (#[trigger] part(xs[i])).1 <= top_scale(xs, part),
    decreases xs.len(),
{
    if xs.len() > 0 {
        let rest = xs.drop_last();
        lemma_sum_bounds(rest, part);
        assert forall|i: int| 0 <= i < xs.len() implies (#[trigger] part(xs[i])).1 <= top_scale(
            xs,
            part,
        ) by {
            if i < rest.len() {
                assert(part(rest[i]).1 <= top_scale(rest, part));
            }
        }
    }
}

/// A prefix has no larger magnitudes and no larger scale than the whole.
pub proof fn lemma_sum_prefix<A>(xs: Seq<A>, part: spec_fn(A) -> (i128, u32), k: int)
    requires
        0 <= k <= xs.len(),
    ensures
        unit_magnitude(xs.take(k), part) <= unit_magnitude(xs, part),
        top_scale(xs.take(k), part) <= top_scale(xs, part),
    decreases xs.len(),
{
    if k == xs.len() {
        assert(xs.take(k) =~= xs);
    } else {
        assert(xs.take(k) =~= xs.drop_last().take(k));
        lemma_sum_prefix(xs.drop_last(), part, k);
    }
}

proof fn lemma_pow10_monotone(a: nat, b: nat)
    requires
        a <= b,
    ensures
        1 <= pow10(a) <= pow10(b),
{
    lemma_pow10(a, (b - a) as nat);
    lemma_pow10((b - a) as nat, 0);
    assert((a + (b - a) as nat) as nat == b);
    let (p, q) = (pow10(a), pow10((b - a) as nat));
    assert(p <= p * q) by (nonlinear_arith)
        requires
            p >= 1,
            q >= 1,
    ;
}

/// Adding the next item to a partial sum that holds the exact value of the
/// items before it rounds nothing, and gives the exact value up to it.
pub proof fn lemma_sum_step<A>(
    all: Seq<A>,
    part: spec_fn(A) -> (i128, u32),
    n: int,
    acc: (i128, u32),
)
    requires
        1 <= n <= all.len(),
        sums_without_rounding(all, part),
        sums_to(acc, all.take(n - 1), part),
    ensures
        adds_exactly(acc, part(all[n - 1])),
        units(acc) + units(part(all[n - 1])) == unit_sum(all.take(n), part),
        max_scale_of(acc, part(all[n - 1])) <= top_scale(all.take(n), part),
        n == 1 ==> sums_to(part(all[n - 1]), all.take(n), part),
{
    let next = all.take(n);
    let x = part(all[n - 1]);
    assert(next.drop_last() =~= all.take(n - 1));
    assert(next.last() == all[n - 1]);
    if n == 1 {
        assert(all.take(0) =~= Seq::<A>::empty());
    }
    lemma_sum_prefix(all, part, n);
    lemma_sum_bounds(next, part);
    let t = top_scale(next, part);
    let big = top_scale(all, part);
    lemma_pow10_monotone((MAX_SCALE - big) as nat, (MAX_SCALE - t) as nat);
    let (pb, pt) = (pow10((MAX_SCALE - big) as nat), pow10((MAX_SCALE - t) as nat));
    let max = MAX_MANTISSA as int;
    assert(max * pb <= max * pt) by (nonlinear_arith)
        requires
            pb <= pt,
            max >= 0,
    ;
    lemma_adds_exactly_within(acc, x, t);
}

proof fn lemma_sums_join<A>(a: Seq<A>, b: Seq<A>, part: spec_fn(A) -> (i128, u32))
    ensures
        unit_sum(a + b, part) == unit_sum(a, part) + unit_sum(b, part),
        unit_magnitude(a + b, part) == unit_magnitude(a, part) + unit_magnitude(b, part),
        top_scale(a + b, part) == if top_scale(a, part) >= top_scale(b, part) {
            top_scale(a, part)
        } else {
            top_scale(b, part)
        },
    decreases b.len(),
{
    if b.len() == 0 {
        assert(a + b =~= a);
    } else {
        lemma_sums_join(a, b.drop_last(), part);
        assert((a + b).drop_last() =~= a + b.drop_last());
        assert((a + b).last() == b.last());
    }
}

/// Exact sums do not depend on the order of the items: any reordering of
/// them has the same value, the same magnitudes and the same largest scale,
/// so it sums without rounding exactly where the items do.
pub proof fn law_sums_order_free<A>(xs: Seq<A>, ys: Seq<A>, part: spec_fn(A) -> (i128, u32))
    requires
        xs.to_multiset() == ys.to_multiset(),
    ensures
        unit_sum(ys, part) == unit_sum(xs, part),
        unit_magnitude(ys, part) == unit_magnitude(xs, part),
        top_scale(ys, part) == top_scale(xs, part),
        sums_without_rounding(ys, part) == sums_without_rounding(xs, part),
{
    let u = unit_step(part);
    let m = magnitude_step(part);
    let s = scale_step(part);
    assert(vstd::seq_lib::commutative_foldl(u)) by {
        assert forall|x: A, y: A, v: int| #[trigger] u(u(v, x), y) == u(u(v, y), x) by {}
    }
    assert(vstd::seq_lib::commutative_foldl(m)) by {
        assert forall|x: A, y: A, v: int| #[trigger] m(m(v, x), y) == m(m(v, y), x) by {}
    }
    assert(vstd::seq_lib::commutative_foldl(s)) by {
        assert forall|x: A, y: A, v: u32| #[trigger] s(s(v, x), y) == s(s(v, y), x) by {}
    }
    vstd::seq_lib::lemma_fold_left_permutation(xs, ys, u, 0int);
    vstd::seq_lib::lemma_fold_left_permutation(xs, ys, m, 0int);
    vstd::seq_lib::lemma_fold_left_permutation(xs, ys, s, 0u32);
}

/// Exact sums split over a join: the items of two groups together have the
/// value of the two groups' values added. Where they sum without rounding,
/// so does each group, and adding the two groups' sums rounds nothing.
pub proof fn law_sums_join<A>(
    a: Seq<A>,
    b: Seq<A>,
    part: spec_fn(A) -> (i128, u32),
    sum_a: (i128, u32),
    sum_b: (i128, u32),
)
    requires
        sums_without_rounding(a + b, part),
        sums_to(sum_a, a, part),
        sums_to(sum_b, b, part),
    ensures
        sums_without_rounding(a, part),
        sums_without_rounding(b, part),
        adds_exactly(sum_a, sum_b),
        units(sum_a) + units(sum_b) == unit_sum(a + b, part),
        max_scale_of(sum_a, sum_b) <= top_scale(a + b, part),
{
    lemma_sums_join(a, b, part);
    lemma_sum_bounds(a, part);
    lemma_sum_bounds(b, part);
    lemma_sum_bounds(a + b, part);
    let t = top_scale(a + b, part);
    let max = MAX_MANTISSA as int;
    let pt = pow10((MAX_SCALE - t) as nat);
    let ta = top_scale(a, part);
    let tb = top_scale(b, part);
    lemma_pow10_monotone((MAX_SCALE - t) as nat, (MAX_SCALE - ta) as nat);
    lemma_pow10_monotone((MAX_SCALE - t) as nat, (MAX_SCALE - tb) as nat);
    let (pa, pb) = (pow10((MAX_SCALE - ta) as nat), pow10((MAX_SCALE - tb) as nat));
    assert(max * pt <= max * pa && max * pt <= max * pb) by (nonlinear_arith)
        requires
            pt <= pa,
            pt <= pb,
            max >= 0,
    ;
    lemma_adds_exactly_within(sum_a, sum_b, t);
}

/// Sums decimals from zero, left to right, as `rust_decimal`'s `Sum` does,
/// or gives `None` where a sum overflows. A single decimal comes back as it
/// stands, and decimals that sum without rounding give their exact value.
pub(crate) fn checked_sum(values: &Vec<Decimal>) -> (total: Option<Decimal>)
    ensures
        total is Some <==> decimal_total(values@) is Some,
        total matches Some(t) ==> decimal_total(values@) == Some(t@),
        values@.len() == 1 ==> total == Some(values@[0]),
        sums_without_rounding(values@, decimal_parts()) ==> (total matches Some(t) && sums_to(
            t@,
            values@,
            decimal_parts(),
        )),
{
    let ghost part = decimal_parts();
    let ghost exact = sums_without_rounding(values@, part);
    let mut acc = Decimal::zero();
    let mut i: usize = 0;
    proof {
        assert(values@.take(0) =~= Seq::<Decimal>::empty());
        assert(unit_sum(values@.take(0), part) == 0);
        assert(top_scale(values@.take(0), part) == 0);
        assert(units(acc@) == 0) by {
            assert(0 * pow10((MAX_SCALE - 0) as nat) == 0);
        }
    }
    while i < values.len()
        invariant
            0 <= i <= values@.len(),
            part == decimal_parts(),
            exact == sums_without_rounding(values@, part),
            decimal_total(values@.take(i as int)) == Some(acc@),
            i == 1 ==> acc == values@[0],
            exact ==> sums_to(acc@, values@.take(i as int), part),
        decreases values@.len() - i,
    {
        let ghost prefix = values@.take(i as int);
        let ghost next = values@.take(i + 1);
        proof {
            assert(next.drop_last() =~= prefix);
            assert(next.last() == values@[i as int]);
            assert(part(values@[i as int]) == values@[i as int]@);
            if exact {
                lemma_sum_step(values@, part, i + 1, acc@);
            }
        }
        let v = values[i];
        match acc.checked_add(v) {
            Some(sum) => {
                acc = sum;
            },
            None => {
                proof {
                    if decimal_total(values@) is Some {
                        lemma_decimal_total_prefix(values@, i + 1);
                    }
                }
                return None;
            },
        }
        i += 1;
    }
    proof {
        assert(values@.take(i as int) =~= values@);
    }
    Some(acc)
}

proof fn lemma_decimal_total_prefix(values: Seq<Decimal>, k: int)
    requires
        0 <= k <= values.len(),
        decimal_total(values) is Some,
    ensures
        decimal_total(values.take(k)) is Some,
    decreases values.len(),
{
    if k == values.len() {
        assert(values.take(k) =~= values);
    } else {
        assert(values.take(k) =~= values.drop_last().take(k));
        lemma_decimal_total_prefix(values.drop_last(), k);
    }
}

} // verus!
