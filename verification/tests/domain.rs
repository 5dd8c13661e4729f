use portfolio_manager::decimal::Decimal;
use portfolio_manager::domain::{ExpirationDate, Leg};
use portfolio_manager::error::{Error, ExpirationDateParseErrorKind};
use portfolio_manager::greeks::Greeks;
use portfolio_manager::quantity::Quantity;
use portfolio_manager::{BookLayer, Portfolio, Position, PositionType};
use rust_decimal::prelude::FromPrimitive;

fn dec(mantissa: i128, scale: u32) -> Decimal {
    Decimal::try_from_i128_with_scale(mantissa, scale).unwrap()
}

/// Whether a decimal has the value mantissa / 10^scale.
fn has_value(d: Decimal, mantissa: i128, scale: u32) -> bool {
    d.mantissa() * 10i128.pow(scale) == mantissa * 10i128.pow(d.scale())
}

fn qty(x: f64) -> Quantity {
    let amount = rust_decimal::Decimal::from_f64(x)
        .and_then(|d| Decimal::try_from_i128_with_scale(d.mantissa(), d.scale()));
    Quantity::new(x.to_bits(), amount).unwrap()
}

fn option_leg(strike: i128, quantity: f64, greeks: Greeks) -> Leg {
    let expiry = ExpirationDate::from_str("20250620").unwrap();
    Leg::option("SPX".to_string(), "SPX".to_string(), qty(quantity), dec(strike, 0), expiry, greeks)
}

fn demo_portfolio() -> Portfolio {
    Portfolio {
        cash: dec(10_000, 0),
        positions: vec![BookLayer::Income(Position {
            pos_type: PositionType::CreditSpread,
            margin_used: dec(5_000, 0),
            legs: vec![
                option_leg(
                    4700,
                    -1.0,
                    Greeks {
                        delta: dec(-2, 1),
                        vega: Some(dec(-4, 1)),
                        theta: Some(dec(3, 1)),
                        gamma: Some(dec(0, 0)),
                        rho: Some(dec(0, 0)),
                    },
                ),
                option_leg(
                    4600,
                    1.0,
                    Greeks {
                        delta: dec(-1, 1),
                        vega: Some(dec(-2, 1)),
                        theta: Some(dec(1, 1)),
                        gamma: Some(dec(0, 0)),
                        rho: Some(dec(0, 0)),
                    },
                ),
            ],
        })],
    }
}

#[test]
fn aggregates_greeks_correctly() {
    let p = demo_portfolio();
    let g = p.net_greeks();

    assert!(has_value(g.delta, 10, 2), "delta mismatch");
    assert!(g.vega.map_or(false, |v| has_value(v, 20, 2)), "vega mismatch");
    assert!(g.theta.map_or(false, |v| has_value(v, -20, 2)), "theta mismatch");
    assert!(g.gamma.map_or(false, |v| has_value(v, 0, 2)), "gamma mismatch");
}

#[test]
fn margin_sum_is_correct() {
    let p = demo_portfolio();
    assert!(has_value(p.margin_used(), 500000, 2));
}

#[test]
fn convexity_ratio_zero_when_no_spreads() {
    let mut p = demo_portfolio();
    p.positions.clear();
    assert!(has_value(p.convexity_ratio(dec(0, 1)), 0, 1));
}

#[test]
fn expiration_date_full_date_parses() {
    let d = ExpirationDate::from_str("20250620").unwrap();
    assert_eq!((d.year(), d.month(), d.day()), (2025, 6, 20));
    let d: ExpirationDate = "20241231".parse().unwrap();
    assert_eq!((d.year(), d.month(), d.day()), (2024, 12, 31));
}

#[test]
fn expiration_date_month_only_is_first_of_month() {
    let d = ExpirationDate::from_str("202506").unwrap();
    assert_eq!((d.year(), d.month(), d.day()), (2025, 6, 1));
    match ExpirationDate::from_str("202513") {
        Err(Error::MalformedExpirationDate(ExpirationDateParseErrorKind::ParseError(_))) => {}
        other => panic!("unexpected: {:?}", other),
    }
}

#[test]
fn expiration_date_invalid_day_is_refused_by_chrono() {
    match ExpirationDate::from_str("20250231") {
        Err(Error::MalformedExpirationDate(ExpirationDateParseErrorKind::ParseError(_))) => {}
        other => panic!("unexpected: {:?}", other),
    }
}

#[test]
fn expiration_date_wrong_length() {
    match ExpirationDate::from_str("2025") {
        Err(Error::MalformedExpirationDate(
            ExpirationDateParseErrorKind::InvalidExpirationDateLength(s),
        )) => assert_eq!(s, "2025"),
        other => panic!("unexpected: {:?}", other),
    }
    // four two-byte characters: eight bytes, refused by chrono rather than by length
    match ExpirationDate::from_str("éééé") {
        Err(Error::MalformedExpirationDate(ExpirationDateParseErrorKind::ParseError(_))) => {}
        other => panic!("unexpected: {:?}", other),
    }
}

#[test]
fn expiration_date_from_calendar() {
    let d = ExpirationDate::from_ymd(2024, 2, 29).unwrap();
    assert_eq!((d.year(), d.month(), d.day()), (2024, 2, 29));
    assert!(ExpirationDate::from_ymd(2023, 2, 29).is_none());
    assert!(ExpirationDate::from_ymd(2023, 13, 1).is_none());
}

#[test]
fn stock_leg_greeks_follow_sign() {
    let long = Leg::stock("AAPL".to_string(), qty(100.0));
    let g = long.greeks();
    assert_eq!((g.delta.mantissa(), g.delta.scale()), (1, 0));
    assert!(g.vega.is_none() && g.theta.is_none() && g.gamma.is_none() && g.rho.is_none());
    let short = Leg::stock("AAPL".to_string(), qty(-100.0));
    assert_eq!(short.greeks().delta.mantissa(), -1);
    let flat = Leg::stock("AAPL".to_string(), qty(-0.0));
    assert_eq!(flat.greeks().delta.mantissa(), 1);
    assert_eq!(long.get_underlying_symbol(), "AAPL");
}

#[test]
fn option_leg_underlying_and_greeks() {
    let expiry = ExpirationDate::from_str("20250620").unwrap();
    let leg = Leg::option(
        "SPX 250620C4700".to_string(),
        "SPX".to_string(),
        qty(-1.0),
        dec(4700, 0),
        expiry,
        Greeks::default(),
    );
    assert_eq!(leg.get_underlying_symbol(), "SPX");
    assert!(leg.greeks().delta.is_zero());
}

#[test]
fn greeks_sum_keeps_shared_greeks_only() {
    let a = Greeks { delta: dec(-2, 1), vega: Some(dec(-4, 1)), theta: Some(dec(3, 1)), gamma: None, rho: Some(dec(1, 2)) };
    let b = Greeks { delta: dec(-1, 1), vega: Some(dec(-2, 1)), theta: None, gamma: Some(dec(5, 1)), rho: Some(dec(2, 2)) };
    let s = a.add(b);
    assert_eq!((s.delta.mantissa(), s.delta.scale()), (-3, 1));
    let v = s.vega.unwrap();
    assert_eq!((v.mantissa(), v.scale()), (-6, 1));
    assert!(s.theta.is_none());
    assert!(s.gamma.is_none());
    assert_eq!(s.rho.unwrap().mantissa(), 3);
}

#[test]
fn greeks_sum_overflow_is_none() {
    let max: i128 = 0xFFFF_FFFF_FFFF_FFFF_FFFF_FFFF;
    let big = Greeks { delta: dec(max, 0), vega: None, theta: None, gamma: None, rho: None };
    let one = Greeks { delta: dec(1, 0), vega: None, theta: None, gamma: None, rho: None };
    assert!(big.checked_add(one).is_none());
    assert!(!big.can_add(&one));
    assert!(one.checked_add(one).is_some());
}

#[test]
fn net_greeks_weight_by_size_and_keep_shared_greeks() {
    let known = Greeks { delta: dec(5, 1), vega: Some(dec(1, 1)), theta: Some(dec(2, 1)), gamma: None, rho: None };
    let partial = Greeks { delta: dec(-25, 2), vega: None, theta: Some(dec(1, 1)), gamma: None, rho: None };
    let p = Portfolio {
        cash: Decimal::zero(),
        positions: vec![
            BookLayer::Income(Position { pos_type: PositionType::CreditSpread, margin_used: Decimal::zero(), legs: vec![option_leg(4700, 2.0, known)] }),
            BookLayer::Insurance(Position { pos_type: PositionType::LongPut, margin_used: Decimal::zero(), legs: vec![option_leg(4000, -4.0, partial)] }),
        ],
    };
    let g = p.net_greeks();
    // 2 * 0.5 + (-4) * (-0.25) = 2
    assert!(has_value(g.delta, 2, 0));
    // vega known in one leg only
    assert!(g.vega.is_none());
    // 2 * 0.2 + (-4) * 0.1 = 0
    assert!(g.theta.map_or(false, |t| has_value(t, 0, 0)));
    assert!(g.gamma.is_none());
    assert!(p.try_net_greeks().is_some());
}

#[test]
fn net_greeks_need_decimal_sizes() {
    let leg = Leg::stock("SPY".to_string(), Quantity::new(f64::NAN.to_bits(), None).unwrap());
    let p = Portfolio {
        cash: Decimal::zero(),
        positions: vec![BookLayer::new_income(PositionType::Stock, vec![leg])],
    };
    assert!(p.try_net_greeks().is_none());
}

#[test]
fn stock_leg_net_delta_is_its_size() {
    let p = Portfolio {
        cash: Decimal::zero(),
        positions: vec![BookLayer::new_income(PositionType::Stock, vec![Leg::stock("SPY".to_string(), qty(-30.0))])],
    };
    let g = p.net_greeks();
    assert!(has_value(g.delta, 30, 0));
}

#[test]
fn empty_portfolio_aggregates() {
    let p = Portfolio::default();
    assert!(p.cash.is_zero());
    assert!(p.net_greeks().delta.is_zero());
    assert!(p.margin_used().is_zero());
    assert!(p.convexity_ratio(dec(123, 0)).is_zero());
}

#[test]
fn convexity_ratio_of_income_margin() {
    let mut p = demo_portfolio();
    let hedge = BookLayer::new_insurance(PositionType::LongPut, vec![]);
    p.positions.push(hedge);
    let r = p.convexity_ratio(dec(10_000, 0));
    assert!(has_value(r, 2, 0));
    assert!(has_value(p.margin_used(), 5000, 0));
    assert!(has_value(p.try_convexity_ratio(dec(2_500, 0)).unwrap(), 5, 1));
}

#[test]
fn convexity_ratio_ignores_insurance_margin() {
    let mut layer = BookLayer::new_insurance(PositionType::LongPut, vec![]);
    if let BookLayer::Insurance(p) = &mut layer {
        p.margin_used = dec(700, 0);
    }
    let p = Portfolio { cash: Decimal::zero(), positions: vec![layer] };
    assert!(p.convexity_ratio(dec(1, 0)).is_zero());
    assert!(has_value(p.margin_used(), 700, 0));
}

#[test]
fn margin_overflow_is_reported() {
    let max: i128 = 0xFFFF_FFFF_FFFF_FFFF_FFFF_FFFF;
    let mut a = BookLayer::new_income(PositionType::CreditSpread, vec![]);
    if let BookLayer::Income(p) = &mut a {
        p.margin_used = dec(max, 0);
    }
    let b = a.clone();
    let p = Portfolio { cash: Decimal::zero(), positions: vec![a, b] };
    assert!(p.try_margin_used().is_none());
    assert!(p.try_convexity_ratio(dec(1, 0)).is_none());
}

#[test]
fn new_layers_hold_no_margin() {
    let legs = vec![Leg::stock("SPY".to_string(), qty(10.0))];
    let income = BookLayer::new_income(PositionType::Stock, legs);
    assert!(matches!(income, BookLayer::Income(_)));
    let p = income.as_ref();
    assert_eq!(p.pos_type, PositionType::Stock);
    assert_eq!(p.legs.len(), 1);
    assert!(p.margin_used.is_zero());
    let insurance = BookLayer::new_insurance(PositionType::LongPut, vec![]);
    assert!(matches!(insurance, BookLayer::Insurance(_)));
    assert!(insurance.as_ref().legs.is_empty());
}

fn income(margin: Decimal, legs: Vec<Leg>) -> BookLayer {
    BookLayer::Income(Position { pos_type: PositionType::CreditSpread, margin_used: margin, legs })
}

#[test]
fn net_greeks_are_exact_and_order_free() {
    let p = demo_portfolio();
    let mut reversed = demo_portfolio();
    if let BookLayer::Income(position) = &mut reversed.positions[0] {
        position.legs.reverse();
    }
    let g = p.net_greeks();
    let h = reversed.net_greeks();
    // One scale throughout: the sums are exact, digit for digit.
    assert_eq!((g.delta.mantissa(), g.delta.scale()), (1, 1));
    assert_eq!((h.delta.mantissa(), h.delta.scale()), (1, 1));
    let gv = g.vega.unwrap();
    let hv = h.vega.unwrap();
    assert_eq!((gv.mantissa(), gv.scale()), (2, 1));
    assert_eq!((hv.mantissa(), hv.scale()), (2, 1));
    let gt = g.theta.unwrap();
    let ht = h.theta.unwrap();
    assert_eq!((gt.mantissa(), gt.scale()), (-2, 1));
    assert_eq!((ht.mantissa(), ht.scale()), (-2, 1));
}

#[test]
fn margin_sum_at_one_scale_is_exact() {
    let p = Portfolio {
        cash: Decimal::zero(),
        positions: vec![income(dec(125, 2), vec![]), income(dec(-50, 2), vec![]), income(dec(1000, 2), vec![])],
    };
    let m = p.margin_used();
    assert_eq!((m.mantissa(), m.scale()), (1075, 2));
    let n = p.try_margin_used().unwrap();
    assert_eq!((n.mantissa(), n.scale()), (1075, 2));
}

#[test]
fn convexity_ratio_does_not_depend_on_income_order() {
    let a = Portfolio {
        cash: Decimal::zero(),
        positions: vec![
            income(dec(3000, 0), vec![]),
            BookLayer::new_insurance(PositionType::LongPut, vec![]),
            income(dec(2000, 0), vec![]),
        ],
    };
    let b = Portfolio {
        cash: Decimal::zero(),
        positions: vec![income(dec(2000, 0), vec![]), income(dec(3000, 0), vec![])],
    };
    let ra = a.try_convexity_ratio(dec(10_000, 0)).unwrap();
    let rb = b.try_convexity_ratio(dec(10_000, 0)).unwrap();
    assert_eq!((ra.mantissa(), ra.scale()), (rb.mantissa(), rb.scale()));
    assert!(has_value(ra, 2, 0));
}

fn parts(d: Decimal) -> (i128, u32) {
    (d.mantissa(), d.scale())
}

#[test]
fn greek_sums_commute_and_associate_at_one_scale() {
    let a = Greeks { delta: dec(-2, 1), vega: Some(dec(-4, 1)), theta: None, gamma: Some(dec(7, 2)), rho: None };
    let b = Greeks { delta: dec(5, 1), vega: Some(dec(9, 1)), theta: Some(dec(1, 1)), gamma: Some(dec(-3, 2)), rho: None };
    let c = Greeks { delta: dec(1, 1), vega: Some(dec(2, 1)), theta: Some(dec(3, 1)), gamma: Some(dec(10, 2)), rho: None };
    let ab = a.add(b);
    let ba = b.add(a);
    assert_eq!(parts(ab.delta), parts(ba.delta));
    assert_eq!(parts(ab.delta), (3, 1));
    assert_eq!(parts(ab.vega.unwrap()), parts(ba.vega.unwrap()));
    assert_eq!(parts(ab.gamma.unwrap()), (4, 2));
    assert!(ab.theta.is_none() && ba.theta.is_none());
    let left = ab.add(c);
    let right = a.add(b.add(c));
    assert_eq!(parts(left.delta), parts(right.delta));
    assert_eq!(parts(left.delta), (4, 1));
    assert_eq!(parts(left.vega.unwrap()), parts(right.vega.unwrap()));
    assert_eq!(parts(left.vega.unwrap()), (7, 1));
    assert_eq!(parts(left.gamma.unwrap()), parts(right.gamma.unwrap()));
    assert_eq!(parts(left.gamma.unwrap()), (14, 2));
}

#[test]
fn margins_of_mixed_scales_sum_exactly_in_any_order() {
    let book = |ms: [(i128, u32); 3]| Portfolio {
        cash: Decimal::zero(),
        positions: ms.iter().map(|&(m, s)| income(dec(m, s), vec![])).collect(),
    };
    let a = book([(125, 2), (3, 0), (5, 1)]);
    let b = book([(3, 0), (5, 1), (125, 2)]);
    assert_eq!(parts(a.margin_used()), (475, 2));
    assert_eq!(parts(b.margin_used()), (475, 2));
    let ra = a.try_convexity_ratio(dec(950, 2)).unwrap();
    let rb = b.try_convexity_ratio(dec(950, 2)).unwrap();
    assert!(has_value(ra, 2, 0));
    assert!(has_value(rb, 2, 0));
}

#[test]
fn greek_sums_of_mixed_scales_commute() {
    let a = Greeks { delta: dec(2, 1), vega: Some(dec(-3, 0)), theta: None, gamma: None, rho: None };
    let b = Greeks { delta: dec(5, 2), vega: Some(dec(25, 1)), theta: None, gamma: None, rho: None };
    let ab = a.add(b);
    let ba = b.add(a);
    assert_eq!(parts(ab.delta), (25, 2));
    assert_eq!(parts(ba.delta), (25, 2));
    assert!(has_value(ab.vega.unwrap(), -5, 1));
    assert!(has_value(ba.vega.unwrap(), -5, 1));
}

#[test]
fn net_greeks_of_joined_books_are_the_sum() {
    let p = demo_portfolio();
    let mut q = demo_portfolio();
    q.positions.push(BookLayer::new_insurance(
        PositionType::LongPut,
        vec![option_leg(
            4000,
            2.0,
            Greeks { delta: dec(-5, 2), vega: Some(dec(1, 0)), theta: Some(dec(-1, 1)), gamma: Some(dec(1, 2)), rho: None },
        )],
    ));
    let mut joined = p.clone();
    joined.positions.extend(q.positions.iter().cloned());
    let total = p.net_greeks().add(q.net_greeks());
    let direct = joined.net_greeks();
    assert!(has_value(direct.delta, total.delta.mantissa(), total.delta.scale()));
    assert!(has_value(direct.delta, 10, 2));
    assert!(direct.rho.is_none() && total.rho.is_none());
    assert!(has_value(direct.vega.unwrap(), total.vega.unwrap().mantissa(), total.vega.unwrap().scale()));
}

#[test]
fn net_greeks_ignore_position_order_and_layer() {
    let hedge_legs = vec![option_leg(
        4000,
        3.0,
        Greeks { delta: dec(-5, 3), vega: Some(dec(12, 1)), theta: Some(dec(-25, 2)), gamma: Some(dec(1, 2)), rho: Some(dec(0, 0)) },
    )];
    let mut a = demo_portfolio();
    a.positions.push(BookLayer::new_insurance(PositionType::LongPut, hedge_legs.clone()));
    let spread_legs = demo_portfolio().positions[0].as_ref().legs.clone();
    let b = Portfolio {
        cash: Decimal::zero(),
        positions: vec![
            BookLayer::new_income(PositionType::LongPut, hedge_legs),
            BookLayer::new_insurance(PositionType::CreditSpread, spread_legs),
        ],
    };
    let (ga, gb) = (a.net_greeks(), b.net_greeks());
    assert!(has_value(ga.delta, gb.delta.mantissa(), gb.delta.scale()));
    assert!(has_value(ga.delta, 85, 3));
    assert!(has_value(ga.vega.unwrap(), gb.vega.unwrap().mantissa(), gb.vega.unwrap().scale()));
    assert!(has_value(ga.vega.unwrap(), 38, 1));
    assert!(has_value(ga.theta.unwrap(), gb.theta.unwrap().mantissa(), gb.theta.unwrap().scale()));
    assert!(has_value(ga.theta.unwrap(), -95, 2));
}
