//! The core book: strategy types, book layers, the portfolio, and the
//! aggregates over it (net greeks, margin in use, convexity coverage).
use vstd::prelude::*;
use vstd::multiset::Multiset;
use crate::decimal::{Decimal, adds_exactly, decimal_checked_div, max_scale_of, pow10, units};
use crate::sums::{
    checked_sum, decimal_parts, decimal_total, law_sums_join, law_sums_order_free, lemma_sum_step,
    sums_to, sums_without_rounding, top_scale, unit_sum,
};
use crate::domain::leg::{Leg, leg_greeks, weighted_greeks};
use crate::domain::position::Position;
use crate::greeks::{Greeks, GreeksView, adds_to, greek_field, no_greeks, sum_greeks};

verus! {

/// The strategy a position implements.
#[derive(Debug, Clone, Copy, PartialEq, Eq)]
pub enum PositionType {
    CreditSpread,
    DebitSpread,
    LongCall,
    LongPut,
    ShortCall,
    ShortPut,
    Stock,
}

/// The layer of the book a position belongs to.
#[derive(Debug, Clone)]
#[non_exhaustive]
pub enum BookLayer {
    /// Credit spreads, theta engines.
    Income(Position),
    /// Convex tail-risk hedges.
    Insurance(Position),
}

/// The position a layer holds.
pub open spec fn layer_position(layer: BookLayer) -> Position {
    match layer {
        BookLayer::Income(p) => p,
        BookLayer::Insurance(p) => p,
    }
}

impl BookLayer {
    /// An insurance position with the given legs and no margin in use.
    pub fn new_insurance(pos_type: PositionType, legs: Vec<Leg>) -> (layer: Self)
        ensures
            layer matches BookLayer::Insurance(p) && p.pos_type == pos_type && p.legs == legs
                && p.margin_used@ == (0i128, 0u32),
    {
        BookLayer::Insurance(Position { pos_type, legs, margin_used: Decimal::zero() })
    }

    /// An income position with the given legs and no margin in use.
    pub fn new_income(position_type: PositionType, legs: Vec<Leg>) -> (layer: Self)
        ensures
            layer matches BookLayer::Income(p) && p.pos_type == position_type && p.legs == legs
                && p.margin_used@ == (0i128, 0u32),
    {
        BookLayer::Income(Position { pos_type: position_type, legs, margin_used: Decimal::zero() })
    }

    /// The position the layer holds.
    pub fn as_ref(&self) -> (p: &Position)
        ensures
            *p == layer_position(*self),
    {
        match self {
            BookLayer::Income(p) => p,
            BookLayer::Insurance(p) => p,
        }
    }
}

/// All legs of all positions, in order.
pub open spec fn book_legs(layers: Seq<BookLayer>) -> Seq<Leg>
    decreases layers.len(),
{
    if layers.len() == 0 {
        Seq::empty()
    } else {
        book_legs(layers.drop_last()) + layer_position(layers.last()).legs@
    }
}

/// The net greeks of some legs: each leg's greeks weighted by its size,
/// summed field by field from the first leg on, so that an optional greek
/// is known where every leg knows it. No legs give zero delta and nothing
/// else. `None` where a size has no decimal or a product or sum overflows.
pub open spec fn net_total(legs: Seq<Leg>) -> Option<GreeksView>
    decreases legs.len(),
{
    if legs.len() == 0 {
        Some(no_greeks())
    } else if legs.len() == 1 {
        weighted_greeks(legs[0])
    } else {
        match (net_total(legs.drop_last()), weighted_greeks(legs.last())) {
            (Some(acc), Some(w)) => sum_greeks(acc, w),
            _ => None,
        }
    }
}

/// The decimal that greek `k` (see `greek_field`) of a leg's weighted
/// greeks holds; zero where it is unknown.
pub open spec fn weighted_part(k: int) -> spec_fn(Leg) -> (i128, u32) {
    |leg: Leg|
        match weighted_greeks(leg) {
            Some(g) => match greek_field(g, k) {
                Some(p) => p,
                None => (0i128, 0u32),
            },
            None => (0i128, 0u32),
        }
}

/// Whether every leg's weighted greeks know greek `k`.
pub open spec fn weighted_known(legs: Seq<Leg>, k: int) -> bool {
    forall|i: int|
        0 <= i < legs.len() ==> ((#[trigger] weighted_greeks(legs[i])) matches Some(g)
            && greek_field(g, k) is Some)
}

/// Whether greek `k` of the net greeks of some legs is summed without
/// rounding: every leg's weighted greeks know it, and those decimals sum
/// without rounding.
pub open spec fn net_field_exact(legs: Seq<Leg>, k: int) -> bool {
    &&& weighted_known(legs, k)
    &&& sums_without_rounding(legs, weighted_part(k))
}

proof fn lemma_net_field_step(all: Seq<Leg>, n: int, k: int, w: GreeksView)
    requires
        1 <= n <= all.len(),
        net_field_exact(all, k),
        weighted_greeks(all[n - 1]) == Some(w),
    ensures
        greek_field(w, k) == Some(weighted_part(k)(all[n - 1])),
{
    assert(weighted_greeks(all[n - 1]) matches Some(g) && greek_field(g, k) is Some);
}

proof fn lemma_weighted_known_order_free(a: Seq<Leg>, b: Seq<Leg>, k: int)
    requires
        a.to_multiset() == b.to_multiset(),
        weighted_known(a, k),
    ensures
        weighted_known(b, k),
{
    broadcast use vstd::seq_lib::group_to_multiset_ensures;

    assert forall|i: int| 0 <= i < b.len() implies ((#[trigger] weighted_greeks(b[i])) matches Some(g)
        && greek_field(g, k) is Some) by {
        assert(b.contains(b[i]));
        assert(b.to_multiset().count(b[i]) > 0);
        assert(a.to_multiset().count(b[i]) > 0);
        assert(a.contains(b[i]));
        let j = choose|j: int| 0 <= j < a.len() && a[j] == b[i];
        assert(weighted_greeks(a[j]) matches Some(g) && greek_field(g, k) is Some);
    }
}

/// The net greeks do not depend on the order of the legs: any reordering of
/// the legs, across positions and layers, gives each greek the same exact
/// value and the same largest scale, and sums it without rounding exactly
/// where the legs in their first order do.
pub proof fn law_net_greeks_order_free(a: Seq<Leg>, b: Seq<Leg>, k: int)
    requires
        a.to_multiset() == b.to_multiset(),
    ensures
        net_field_exact(b, k) == net_field_exact(a, k),
        unit_sum(b, weighted_part(k)) == unit_sum(a, weighted_part(k)),
        top_scale(b, weighted_part(k)) == top_scale(a, weighted_part(k)),
{
    law_sums_order_free(a, b, weighted_part(k));
    if weighted_known(a, k) {
        lemma_weighted_known_order_free(a, b, k);
    }
    if weighted_known(b, k) {
        lemma_weighted_known_order_free(b, a, k);
    }
}

/// The net greeks of two books joined are the sum of their net greeks:
/// the legs of the joined positions are those of the first book followed by
/// those of the second; where a greek of the joined legs sums without
/// rounding, so it does for each book, and adding the two books' values of
/// it rounds nothing and gives the value of the joined book.
pub proof fn law_net_greeks_join(
    a: Seq<BookLayer>,
    b: Seq<BookLayer>,
    k: int,
    net_a: (i128, u32),
    net_b: (i128, u32),
)
    requires
        net_field_exact(book_legs(a + b), k),
        sums_to(net_a, book_legs(a), weighted_part(k)),
        sums_to(net_b, book_legs(b), weighted_part(k)),
    ensures
        book_legs(a + b) == book_legs(a) + book_legs(b),
        net_field_exact(book_legs(a), k),
        net_field_exact(book_legs(b), k),
        adds_exactly(net_a, net_b),
        units(net_a) + units(net_b) == unit_sum(book_legs(a + b), weighted_part(k)),
        max_scale_of(net_a, net_b) <= top_scale(book_legs(a + b), weighted_part(k)),
{
    lemma_book_legs_join(a, b);
    let (la, lb) = (book_legs(a), book_legs(b));
    law_sums_join(la, lb, weighted_part(k), net_a, net_b);
    assert forall|i: int| 0 <= i < la.len() implies ((#[trigger] weighted_greeks(la[i])) matches Some(
        g,
    ) && greek_field(g, k) is Some) by {
        assert((la + lb)[i] == la[i]);
    }
    assert forall|i: int| 0 <= i < lb.len() implies ((#[trigger] weighted_greeks(lb[i])) matches Some(
        g,
    ) && greek_field(g, k) is Some) by {
        assert((la + lb)[la.len() + i] == lb[i]);
    }
}

proof fn lemma_book_legs_join(a: Seq<BookLayer>, b: Seq<BookLayer>)
    ensures
        book_legs(a + b) == book_legs(a) + book_legs(b),
    decreases b.len(),
{
    if b.len() == 0 {
        assert(a + b =~= a);
        assert(book_legs(a) + book_legs(b) =~= book_legs(a));
    } else {
        lemma_book_legs_join(a, b.drop_last());
        assert((a + b).drop_last() =~= a + b.drop_last());
        assert((a + b).last() == b.last());
        assert(book_legs(a) + book_legs(b) =~= book_legs(a) + book_legs(b.drop_last())
            + layer_position(b.last()).legs@);
    }
}

/// The legs a layer's position holds.
pub open spec fn layer_legs() -> spec_fn(BookLayer) -> Seq<Leg> {
    |l: BookLayer| layer_position(l).legs@
}

/// One step of gathering the legs of positions into a multiset.
pub open spec fn gather_legs() -> spec_fn(Multiset<Leg>, Seq<Leg>) -> Multiset<Leg> {
    |acc: Multiset<Leg>, legs: Seq<Leg>| acc.add(legs.to_multiset())
}

proof fn lemma_book_legs_gathered(layers: Seq<BookLayer>)
    ensures
        book_legs(layers).to_multiset() == layers.map_values(layer_legs()).fold_left(
            Multiset::<Leg>::empty(),
            gather_legs(),
        ),
    decreases layers.len(),
{
    broadcast use vstd::multiset::group_multiset_axioms;

    let lists = layers.map_values(layer_legs());
    if layers.len() == 0 {
        broadcast use vstd::seq_lib::group_to_multiset_ensures;

        let none = book_legs(layers);
        assert(none =~= Seq::<Leg>::empty());
        assert forall|x: Leg| none.to_multiset().count(x) == 0 by {
            assert(!none.contains(x));
        }
        assert(none.to_multiset() =~= Multiset::<Leg>::empty());
    } else {
        let rest = layers.drop_last();
        lemma_book_legs_gathered(rest);
        assert(lists.drop_last() =~= rest.map_values(layer_legs()));
        assert(lists.last() == layer_position(layers.last()).legs@);
        vstd::seq_lib::lemma_multiset_commutative(
            book_legs(rest),
            layer_position(layers.last()).legs@,
        );
    }
}

/// The net greeks do not depend on the order of the positions, nor on the
/// layer each sits in: two books whose positions hold the same lists of
/// legs, in any order and either layer, hold the same legs, so
/// `law_net_greeks_order_free` gives them the same net greeks.
pub proof fn law_net_greeks_positions_order_free(a: Seq<BookLayer>, b: Seq<BookLayer>)
    requires
        a.map_values(layer_legs()).to_multiset() == b.map_values(layer_legs()).to_multiset(),
    ensures
        book_legs(a).to_multiset() == book_legs(b).to_multiset(),
{
    broadcast use vstd::multiset::group_multiset_axioms;

    let g = gather_legs();
    assert(vstd::seq_lib::commutative_foldl(g)) by {
        assert forall|x: Seq<Leg>, y: Seq<Leg>, v: Multiset<Leg>| #[trigger] g(g(v, x), y) == g(
            g(v, y),
            x,
        ) by {
            assert(g(g(v, x), y) =~= g(g(v, y), x));
        }
    }
    vstd::seq_lib::lemma_fold_left_permutation(
        a.map_values(layer_legs()),
        b.map_values(layer_legs()),
        g,
        Multiset::<Leg>::empty(),
    );
    lemma_book_legs_gathered(a);
    lemma_book_legs_gathered(b);
}

/// The total margin of the income positions does not depend on their
/// order: any reordering of them has the same exact value and largest
/// scale, and sums without rounding exactly where the first order does.
pub proof fn law_convexity_income_order_free(a: Seq<BookLayer>, b: Seq<BookLayer>)
    requires
        income_margins(a).to_multiset() == income_margins(b).to_multiset(),
    ensures
        unit_sum(income_margins(b), decimal_parts()) == unit_sum(income_margins(a), decimal_parts()),
        top_scale(income_margins(b), decimal_parts()) == top_scale(
            income_margins(a),
            decimal_parts(),
        ),
        sums_without_rounding(income_margins(b), decimal_parts()) == sums_without_rounding(
            income_margins(a),
            decimal_parts(),
        ),
{
    law_sums_order_free(income_margins(a), income_margins(b), decimal_parts());
}

/// The margins of the income positions, in order.
pub open spec fn income_margins(layers: Seq<BookLayer>) -> Seq<Decimal>
    decreases layers.len(),
{
    if layers.len() == 0 {
        Seq::empty()
    } else {
        match layers.last() {
            BookLayer::Income(p) => income_margins(layers.drop_last()).push(p.margin_used),
            BookLayer::Insurance(_) => income_margins(layers.drop_last()),
        }
    }
}

/// Whether a layer is the income layer.
pub open spec fn is_income_layer() -> spec_fn(BookLayer) -> bool {
    |l: BookLayer| l is Income
}

/// The margin in use of a layer's position.
pub open spec fn layer_margin() -> spec_fn(BookLayer) -> Decimal {
    |l: BookLayer| layer_position(l).margin_used
}

/// The spread risk is the margin of every income position, whatever its
/// strategy (credit spread, short put, stock, ...), in the order of the
/// book, and of no insurance position: the margins of the income layers,
/// one for each. A book of income layers alone counts all its margins.
pub proof fn law_income_margins_are_every_income_margin(layers: Seq<BookLayer>)
    ensures
        income_margins(layers) == layers.filter(is_income_layer()).map_values(layer_margin()),
        income_margins(layers).len() == layers.filter(is_income_layer()).len(),
        (forall|i: int| 0 <= i < layers.len() ==> #[trigger] layers[i] is Income) ==> income_margins(
            layers,
        ) == layers.map_values(layer_margin()),
    decreases layers.len(),
{
    reveal(Seq::filter);
    if layers.len() > 0 {
        let rest = layers.drop_last();
        law_income_margins_are_every_income_margin(rest);
        assert(rest.map_values(layer_margin()) =~= layers.map_values(layer_margin()).drop_last());
        if forall|i: int| 0 <= i < layers.len() ==> #[trigger] layers[i] is Income {
            assert forall|i: int| 0 <= i < rest.len() implies #[trigger] rest[i] is Income by {
                assert(rest[i] == layers[i]);
            }
            assert(layers[layers.len() - 1] is Income);
        }
        let kept = rest.filter(is_income_layer());
        match layers.last() {
            BookLayer::Income(p) => {
                assert(is_income_layer()(layers.last()));
                assert(layers.filter(is_income_layer()) == kept.push(layers.last()));
                assert(layer_margin()(layers.last()) == p.margin_used);
                assert(kept.push(layers.last()).map_values(layer_margin()) =~= kept.map_values(
                    layer_margin(),
                ).push(p.margin_used));
                assert(income_margins(layers) == income_margins(rest).push(p.margin_used));
            },
            BookLayer::Insurance(_) => {
                assert(!is_income_layer()(layers.last()));
                assert(layers.filter(is_income_layer()) == kept);
                assert(income_margins(layers) == income_margins(rest));
            },
        }
        assert(income_margins(layers) =~= layers.filter(is_income_layer()).map_values(
            layer_margin(),
        ));
    } else {
        assert(income_margins(layers) =~= layers.filter(is_income_layer()).map_values(
            layer_margin(),
        ));
    }
}

/// The margin in use counts the margin of every position of the book, of
/// either layer, once, in the order of the book.
pub proof fn law_margins_are_every_margin(layers: Seq<BookLayer>)
    ensures
        position_margins(layers).len() == layers.len(),
        forall|i: int|
            0 <= i < layers.len() ==> #[trigger] position_margins(layers)[i] == layer_position(
                layers[i],
            ).margin_used,
{
}

/// The convexity-coverage ratio is the shock payout divided, by
/// `rust_decimal`'s division, by the sum of the margins of the income
/// layers, or zero where that sum is zero; `None` where the sum or the
/// quotient overflows.
pub proof fn law_convexity_is_payout_over_income_margin(
    layers: Seq<BookLayer>,
    shock_payout: (i128, u32),
)
    ensures
        convexity_of(layers, shock_payout) == match decimal_total(
            layers.filter(is_income_layer()).map_values(layer_margin()),
        ) {
            Some(risk) => if risk.0 == 0 {
                Some((0i128, 0u32))
            } else {
                decimal_checked_div(shock_payout, risk)
            },
            None => None,
        },
{
    law_income_margins_are_every_income_margin(layers);
}

/// The margins of all positions, in order.
pub open spec fn position_margins(layers: Seq<BookLayer>) -> Seq<Decimal> {
    layers.map_values(|l: BookLayer| layer_position(l).margin_used)
}

/// The margins of the positions summed from the left, starting from zero;
/// `None` where a sum overflows.
pub open spec fn margin_total(layers: Seq<BookLayer>) -> Option<(i128, u32)> {
    decimal_total(position_margins(layers))
}

/// The margins of the income positions summed from the left, starting from
/// zero; `None` where a sum overflows.
pub open spec fn income_margin_total(layers: Seq<BookLayer>) -> Option<(i128, u32)> {
    decimal_total(income_margins(layers))
}

/// The convexity-coverage ratio: the shock payout over the margin of the
/// income positions, zero where that margin is zero; `None` where the sum or
/// the quotient overflows.
pub open spec fn convexity_of(layers: Seq<BookLayer>, shock_payout: (i128, u32)) -> Option<
    (i128, u32),
> {
    match income_margin_total(layers) {
        Some(risk) => if risk.0 == 0 {
            Some((0i128, 0u32))
        } else {
            decimal_checked_div(shock_payout, risk)
        },
        None => None,
    }
}

proof fn lemma_net_total_prefix(legs: Seq<Leg>, k: int)
    requires
        0 <= k <= legs.len(),
        net_total(legs) is Some,
    ensures
        net_total(legs.take(k)) is Some,
    decreases legs.len(),
{
    if k == legs.len() {
        assert(legs.take(k) =~= legs);
    } else if k == 0 {
        assert(legs.take(k) =~= Seq::<Leg>::empty());
    } else {
        assert(legs.take(k) =~= legs.drop_last().take(k));
        lemma_net_total_prefix(legs.drop_last(), k);
    }
}

/// Whether a greek is known, field by field.
pub open spec fn known_greeks(g: GreeksView) -> (bool, bool, bool, bool) {
    (
        greek_field(g, 1) is Some,
        greek_field(g, 2) is Some,
        greek_field(g, 3) is Some,
        greek_field(g, 4) is Some,
    )
}

/// Whether every leg knows greek `k`.
pub open spec fn every_leg_knows(legs: Seq<Leg>, k: int) -> bool {
    forall|i: int| 0 <= i < legs.len() ==> (#[trigger] greek_field(leg_greeks(legs[i])@, k)) is Some
}

/// Whether every leg knows a greek, field by field.
pub open spec fn known_in_every_leg(legs: Seq<Leg>) -> (bool, bool, bool, bool) {
    (
        every_leg_knows(legs, 1),
        every_leg_knows(legs, 2),
        every_leg_knows(legs, 3),
        every_leg_knows(legs, 4),
    )
}

proof fn lemma_every_leg_knows_step(legs: Seq<Leg>, k: int)
    requires
        legs.len() > 0,
    ensures
        every_leg_knows(legs, k) == (every_leg_knows(legs.drop_last(), k) && greek_field(
            leg_greeks(legs.last())@,
            k,
        ) is Some),
{
    let rest = legs.drop_last();
    assert(legs[legs.len() - 1] == legs.last());
    if every_leg_knows(rest, k) && greek_field(leg_greeks(legs.last())@, k) is Some {
        assert forall|i: int| 0 <= i < legs.len() implies (#[trigger] greek_field(
            leg_greeks(legs[i])@,
            k,
        )) is Some by {
            if i < rest.len() {
                assert(rest[i] == legs[i]);
            }
        }
    }
    if every_leg_knows(legs, k) {
        assert(greek_field(leg_greeks(legs[legs.len() - 1])@, k) is Some);
        assert forall|i: int| 0 <= i < rest.len() implies (#[trigger] greek_field(
            leg_greeks(rest[i])@,
            k,
        )) is Some by {
            assert(rest[i] == legs[i]);
            assert(greek_field(leg_greeks(legs[i])@, k) is Some);
        }
    }
}

/// The net greeks of one or more legs know an optional greek exactly where
/// every leg knows it: weighting keeps what a leg knows, and a sum knows a
/// greek where both sides do.
pub proof fn law_net_greeks_known_where_every_leg_knows(legs: Seq<Leg>)
    requires
        legs.len() > 0,
        net_total(legs) is Some,
    ensures
        known_greeks(net_total(legs).unwrap()) == known_in_every_leg(legs),
    decreases legs.len(),
{
    if legs.len() > 1 {
        law_net_greeks_known_where_every_leg_knows(legs.drop_last());
        lemma_every_leg_knows_step(legs, 1);
        lemma_every_leg_knows_step(legs, 2);
        lemma_every_leg_knows_step(legs, 3);
        lemma_every_leg_knows_step(legs, 4);
    } else {
        assert(legs[0] == legs[legs.len() - 1]);
        lemma_every_leg_knows_step(legs, 1);
        lemma_every_leg_knows_step(legs, 2);
        lemma_every_leg_knows_step(legs, 3);
        lemma_every_leg_knows_step(legs, 4);
        assert(legs.drop_last().len() == 0);
    }
}

/// The net greeks read the legs alone: two books whose positions hold the
/// same legs, in the same order, have the same net greeks, whichever layer
/// each position sits in.
pub proof fn law_net_greeks_ignore_layer(a: Seq<BookLayer>, b: Seq<BookLayer>)
    requires
        a.len() == b.len(),
        forall|i: int| 0 <= i < a.len() ==> (#[trigger] layer_position(a[i])).legs@ == layer_position(b[i]).legs@,
    ensures
        book_legs(a) == book_legs(b),
        net_total(book_legs(a)) == net_total(book_legs(b)),
    decreases a.len(),
{
    if a.len() > 0 {
        assert forall|i: int| 0 <= i < a.drop_last().len() implies (#[trigger] layer_position(a.drop_last()[i])).legs@ == layer_position(b.drop_last()[i]).legs@ by {
            assert(a.drop_last()[i] == a[i]);
            assert(b.drop_last()[i] == b[i]);
        }
        law_net_greeks_ignore_layer(a.drop_last(), b.drop_last());
        assert(layer_position(a[a.len() - 1]).legs@ == layer_position(b[b.len() - 1]).legs@);
    }
}

/// The convexity-coverage ratio reads the margins of the income positions
/// alone, in order: books that agree on them have the same ratio, whatever
/// insurance positions they hold and whatever else their positions hold.
pub proof fn law_convexity_only_income_margins(
    a: Seq<BookLayer>,
    b: Seq<BookLayer>,
    shock_payout: (i128, u32),
)
    requires
        income_margins(a) == income_margins(b),
    ensures
        convexity_of(a, shock_payout) == convexity_of(b, shock_payout),
{
}

proof fn lemma_book_legs_step(layers: Seq<BookLayer>, i: int)
    requires
        0 <= i < layers.len(),
    ensures
        book_legs(layers.take(i + 1)) == book_legs(layers.take(i)) + layer_position(
            layers[i],
        ).legs@,
{
    assert(layers.take(i + 1).drop_last() =~= layers.take(i));
}

proof fn lemma_book_legs_prefix(layers: Seq<BookLayer>, i: int)
    requires
        0 <= i <= layers.len(),
    ensures
        book_legs(layers.take(i)).len() <= book_legs(layers).len(),
        book_legs(layers).take(book_legs(layers.take(i)).len() as int) == book_legs(
            layers.take(i),
        ),
    decreases layers.len() - i,
{
    if i == layers.len() {
        assert(layers.take(i) =~= layers);
        assert(book_legs(layers).take(book_legs(layers).len() as int) =~= book_legs(layers));
    } else {
        lemma_book_legs_prefix(layers, i + 1);
        lemma_book_legs_step(layers, i);
        let short = book_legs(layers.take(i));
        let long = book_legs(layers.take(i + 1));
        assert(book_legs(layers).take(short.len() as int) =~= long.take(short.len() as int));
        assert(long.take(short.len() as int) =~= short);
    }
}

/// A book without income positions has a convexity-coverage ratio of zero,
/// whatever the shock payout.
pub proof fn law_convexity_zero_without_income(layers: Seq<BookLayer>, shock_payout: (i128, u32))
    requires
        forall|i: int| 0 <= i < layers.len() ==> #[trigger] layers[i] is Insurance,
    ensures
        income_margins(layers).len() == 0,
        convexity_of(layers, shock_payout) == Some((0i128, 0u32)),
    decreases layers.len(),
{
    if layers.len() > 0 {
        let rest = layers.drop_last();
        assert forall|i: int| 0 <= i < rest.len() implies #[trigger] rest[i] is Insurance by {
            assert(rest[i] == layers[i]);
        }
        law_convexity_zero_without_income(rest, shock_payout);
        assert(layers.last() is Insurance);
    }
}

/// A portfolio: cash and the positions of the book.
#[derive(Debug, Clone)]
pub struct Portfolio {
    pub cash: Decimal,
    pub positions: Vec<BookLayer>,
}

impl Default for Portfolio {
    /// No cash and no positions.
    fn default() -> (p: Portfolio)
        ensures
            p.cash@ == (0i128, 0u32),
            p.positions@.len() == 0,
    {
        Portfolio { cash: Decimal::zero(), positions: Vec::new() }
    }
}

impl Portfolio {
    fn fold_net_greeks(&self) -> (r: Option<Greeks>)
        ensures
            r is Some <==> net_total(book_legs(self.positions@)) is Some,
            r matches Some(g) ==> net_total(book_legs(self.positions@)) == Some(g@),
            r matches Some(g) ==> forall|k: int|
                0 <= k < 5 && #[trigger] net_field_exact(book_legs(self.positions@), k) && book_legs(
                    self.positions@,
                ).len() > 0 ==> (greek_field(g@, k) matches Some(v)
                    && sums_to(v, book_legs(self.positions@), weighted_part(k))),
    {
        let ghost all = book_legs(self.positions@);
        let mut acc = Greeks::default();
        let mut started = false;
        let mut i: usize = 0;
        proof {
            assert(self.positions@.take(0) =~= Seq::<BookLayer>::empty());
            assert(all.take(0) =~= Seq::<Leg>::empty());
        }
        while i < self.positions.len()
            invariant
                0 <= i <= self.positions@.len(),
                all == book_legs(self.positions@),
                started == (book_legs(self.positions@.take(i as int)).len() > 0),
                net_total(book_legs(self.positions@.take(i as int))) == Some(acc@),
                all.take(book_legs(self.positions@.take(i as int)).len() as int) == book_legs(
                    self.positions@.take(i as int),
                ),
                forall|k: int|
                    0 <= k < 5 && #[trigger] net_field_exact(all, k) && started ==> (greek_field(
                        acc@,
                        k,
                    ) matches Some(v) && sums_to(
                        v,
                        book_legs(self.positions@.take(i as int)),
                        weighted_part(k),
                    )),
            decreases self.positions@.len() - i,
        {
            let legs = &self.positions[i].as_ref().legs;
            let ghost before = book_legs(self.positions@.take(i as int));
            proof {
                lemma_book_legs_step(self.positions@, i as int);
                lemma_book_legs_prefix(self.positions@, (i + 1) as int);
                assert(before + legs@.take(0) =~= before);
            }
            let mut j: usize = 0;
            while j < legs.len()
                invariant
                    0 <= j <= legs@.len(),
                    0 <= i < self.positions@.len(),
                    all == book_legs(self.positions@),
                    *legs == layer_position(self.positions@[i as int]).legs,
                    before == book_legs(self.positions@.take(i as int)),
                    book_legs(self.positions@.take(i + 1)) == before + legs@,
                    book_legs(self.positions@.take(i + 1)).len() <= all.len(),
                    all.take(book_legs(self.positions@.take(i + 1)).len() as int) == book_legs(
                        self.positions@.take(i + 1),
                    ),
                    started == ((before + legs@.take(j as int)).len() > 0),
                    net_total(before + legs@.take(j as int)) == Some(acc@),
                    forall|k: int|
                        0 <= k < 5 && #[trigger] net_field_exact(all, k) && started ==> (greek_field(
                            acc@,
                            k,
                        ) matches Some(v) && sums_to(v, before + legs@.take(j as int), weighted_part(k))),
                decreases legs@.len() - j,
            {
                let ghost cur = before + legs@.take(j as int);
                let ghost next = before + legs@.take(j + 1);
                let ghost n = next.len() as int;
                proof {
                    assert(next.drop_last() =~= cur);
                    assert(next.last() == legs@[j as int]);
                    let whole = before + legs@;
                    assert(next =~= whole.take(n));
                    assert(all.take(n) =~= next);
                    assert(all.take(n - 1) =~= cur);
                    assert(all[n - 1] == next[n - 1]);
                    if n == 1 {
                        assert(next[0] == legs@[j as int]);
                    }
                }
                let w = match legs[j].weighted_greeks() {
                    Some(w) => w,
                    None => {
                        proof {
                            if net_total(all) is Some {
                                lemma_net_total_prefix(all, n);
                            }
                        }
                        return None;
                    },
                };
                let ghost prev = acc@;
                let ghost was_started = started;
                if started {
                    match acc.checked_add(w) {
                        Some(sum) => {
                            acc = sum;
                        },
                        None => {
                            proof {
                                if net_total(all) is Some {
                                    lemma_net_total_prefix(all, n);
                                }
                            }
                            return None;
                        },
                    }
                } else {
                    acc = w;
                    started = true;
                }
                proof {
                    assert forall|k: int| 0 <= k < 5 && #[trigger] net_field_exact(all, k) && started
                        implies (greek_field(acc@, k) matches Some(v) && sums_to(
                        v,
                        next,
                        weighted_part(k),
                    )) by {
                        lemma_net_field_step(all, n, k, w@);
                        if was_started {
                            let v = greek_field(prev, k).unwrap();
                            assert(sums_to(v, cur, weighted_part(k)));
                            lemma_sum_step(all, weighted_part(k), n, v);
                            assert(adds_to(greek_field(prev, k), greek_field(w@, k), greek_field(acc@, k)));
                        } else {
                            assert(cur.len() == 0);
                            assert(cur =~= Seq::<Leg>::empty());
                            assert(unit_sum(cur, weighted_part(k)) == 0);
                            assert(units((0i128, 0u32)) == 0) by {
                                assert(0 * pow10(28) == 0);
                            }
                            lemma_sum_step(all, weighted_part(k), n, (0i128, 0u32));
                        }
                    }
                }
                j += 1;
            }
            proof {
                assert(before + legs@.take(j as int) =~= before + legs@);
            }
            i += 1;
        }
        proof {
            assert(self.positions@.take(i as int) =~= self.positions@);
        }
        Some(acc)
    }

    /// Net portfolio greeks: each leg's greeks, of every position of either
    /// layer, weighted by the leg's size and summed field by field. An
    /// optional greek is known where every leg knows it; a book without legs
    /// has zero delta and nothing else known. A greek whose weighted values
    /// sum without rounding holds their exact value, which does not depend on
    /// the order of the legs.
    pub fn net_greeks(&self) -> (g: Greeks)
        requires
            net_total(book_legs(self.positions@)) is Some,
        ensures
            net_total(book_legs(self.positions@)) == Some(g@),
            forall|k: int|
                0 <= k < 5 && #[trigger] net_field_exact(book_legs(self.positions@), k) && book_legs(
                    self.positions@,
                ).len() > 0 ==> (greek_field(g@, k) matches Some(v)
                    && sums_to(v, book_legs(self.positions@), weighted_part(k))),
    {
        match self.fold_net_greeks() {
            Some(g) => g,
            None => Greeks::default(),
        }
    }

    /// Net portfolio greeks, or `None` where a leg's size has no decimal or
    /// a product or sum overflows.
    pub fn try_net_greeks(&self) -> (g: Option<Greeks>)
        ensures
            g is Some <==> net_total(book_legs(self.positions@)) is Some,
            g matches Some(g) ==> net_total(book_legs(self.positions@)) == Some(g@),
            g matches Some(g) ==> forall|k: int|
                0 <= k < 5 && #[trigger] net_field_exact(book_legs(self.positions@), k) && book_legs(
                    self.positions@,
                ).len() > 0 ==> (greek_field(g@, k) matches Some(v)
                    && sums_to(v, book_legs(self.positions@), weighted_part(k))),
    {
        match self.fold_net_greeks() {
            Some(_) => Some(self.net_greeks()),
            None => None,
        }
    }

    /// The margins of all positions, in order.
    fn margins(&self) -> (v: Vec<Decimal>)
        ensures
            v@ == position_margins(self.positions@),
    {
        let mut v: Vec<Decimal> = Vec::new();
        let mut i: usize = 0;
        while i < self.positions.len()
            invariant
                0 <= i <= self.positions@.len(),
                v@ =~= position_margins(self.positions@.take(i as int)),
            decreases self.positions@.len() - i,
        {
            proof {
                assert(self.positions@.take(i + 1) =~= self.positions@.take(i as int).push(
                    self.positions@[i as int],
                ));
            }
            v.push(self.positions[i].as_ref().margin_used);
            i += 1;
        }
        proof {
            assert(self.positions@.take(i as int) =~= self.positions@);
        }
        v
    }

    /// The margins of the income positions, in order.
    fn income_margins(&self) -> (v: Vec<Decimal>)
        ensures
            v@ == income_margins(self.positions@),
    {
        let mut v: Vec<Decimal> = Vec::new();
        let mut i: usize = 0;
        proof {
            assert(self.positions@.take(0) =~= Seq::<BookLayer>::empty());
        }
        while i < self.positions.len()
            invariant
                0 <= i <= self.positions@.len(),
                v@ == income_margins(self.positions@.take(i as int)),
            decreases self.positions@.len() - i,
        {
            proof {
                assert(self.positions@.take(i + 1).drop_last() =~= self.positions@.take(i as int));
            }
            if let BookLayer::Income(position) = &self.positions[i] {
                v.push(position.margin_used);
            }
            i += 1;
        }
        proof {
            assert(self.positions@.take(i as int) =~= self.positions@);
        }
        v
    }

    /// Total margin in use: the margins of all positions summed from zero.
    /// A single position's margin is returned as it stands; margins of one
    /// scale whose magnitudes add up within 96 bits give their exact sum.
    pub fn margin_used(&self) -> (m: Decimal)
        requires
            margin_total(self.positions@) is Some,
        ensures
            margin_total(self.positions@) == Some(m@),
            self.positions@.len() == 0 ==> m@ == (0i128, 0u32),
            self.positions@.len() == 1 ==> m@ == layer_position(self.positions@[0]).margin_used@,
            sums_without_rounding(position_margins(self.positions@), decimal_parts()) ==> sums_to(
                m@,
                position_margins(self.positions@),
                decimal_parts(),
            ),
    {
        let margins = self.margins();
        proof {
            if self.positions@.len() == 1 {
                assert(margins@[0] == layer_position(self.positions@[0]).margin_used);
            }
        }
        match checked_sum(&margins) {
            Some(m) => m,
            None => Decimal::zero(),
        }
    }

    /// Total margin in use, or `None` where the sum overflows.
    pub fn try_margin_used(&self) -> (m: Option<Decimal>)
        ensures
            m is Some <==> margin_total(self.positions@) is Some,
            m matches Some(m) ==> margin_total(self.positions@) == Some(m@),
            sums_without_rounding(position_margins(self.positions@), decimal_parts()) ==> (m matches Some(
                m,
            ) && sums_to(m@, position_margins(self.positions@), decimal_parts())),
    {
        match checked_sum(&self.margins()) {
            Some(_) => Some(self.margin_used()),
            None => None,
        }
    }

    /// Convexity-coverage ratio: the shock payout over the margin of the
    /// income positions, or zero where that margin is zero.
    pub fn convexity_ratio(&self, shock_payout: Decimal) -> (r: Decimal)
        requires
            convexity_of(self.positions@, shock_payout@) is Some,
        ensures
            convexity_of(self.positions@, shock_payout@) == Some(r@),
            sums_without_rounding(income_margins(self.positions@), decimal_parts()) ==> (
            income_margin_total(self.positions@) matches Some(t) && sums_to(
                t,
                income_margins(self.positions@),
                decimal_parts(),
            )),
    {
        let spread_risk = match checked_sum(&self.income_margins()) {
            Some(m) => m,
            None => {
                return Decimal::zero();
            },
        };
        if spread_risk.is_zero() {
            Decimal::zero()
        } else {
            shock_payout.div(spread_risk)
        }
    }

    /// Convexity-coverage ratio, or `None` where the margin sum or the
    /// quotient overflows.
    pub fn try_convexity_ratio(&self, shock_payout: Decimal) -> (r: Option<Decimal>)
        ensures
            r is Some <==> convexity_of(self.positions@, shock_payout@) is Some,
            r matches Some(r) ==> convexity_of(self.positions@, shock_payout@) == Some(r@),
            sums_without_rounding(income_margins(self.positions@), decimal_parts()) ==> (
            income_margin_total(self.positions@) matches Some(t) && sums_to(
                t,
                income_margins(self.positions@),
                decimal_parts(),
            )),
    {
        let spread_risk = match checked_sum(&self.income_margins()) {
            Some(m) => m,
            None => {
                return None;
            },
        };
        if !spread_risk.is_zero() && shock_payout.checked_div(spread_risk).is_none() {
            return None;
        }
        Some(self.convexity_ratio(shock_payout))
    }
}

} // verus!
