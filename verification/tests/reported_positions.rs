use portfolio_manager::decimal::Decimal;
use portfolio_manager::domain::Leg;
use portfolio_manager::error::{Error, ExpirationDateParseErrorKind};
use portfolio_manager::ibkr::reported::{ContractPosition, SecurityKind};
use portfolio_manager::quantity::Quantity;
use portfolio_manager::Position;

fn contract(security: SecurityKind, strike: Option<Decimal>, expiry: &str, legs: usize) -> ContractPosition {
    ContractPosition {
        symbol: "SPX".to_string(),
        security,
        last_trade_date_or_contract_month: expiry.to_string(),
        strike,
        strike_text: "4700.5".to_string(),
        quantity: Quantity::new((-2.0f64).to_bits(), Decimal::try_from_i128_with_scale(-2, 0)).unwrap(),
        combo_leg_count: legs,
    }
}

fn strike() -> Option<Decimal> {
    Decimal::try_from_i128_with_scale(47005, 1)
}

#[test]
fn stock_contract_gives_stock_legs() {
    let legs = Position::legs_from_contract(&contract(SecurityKind::Stock, None, "", 2)).unwrap();
    assert_eq!(legs.len(), 2);
    for leg in &legs {
        match leg {
            Leg::Stock { symbol, greeks, .. } => {
                assert_eq!(symbol, "SPX");
                assert_eq!(greeks.delta.mantissa(), -1);
            }
            _ => panic!("expected a stock leg"),
        }
    }
}

#[test]
fn option_contract_gives_option_legs() {
    let legs = Position::legs_from_contract(&contract(SecurityKind::Option, strike(), "20250620", 1)).unwrap();
    assert_eq!(legs.len(), 1);
    match &legs[0] {
        Leg::Option { symbol, underlying_symbol, strike, expiry, greeks, .. } => {
            assert_eq!(symbol, "SPX");
            assert_eq!(underlying_symbol, "SPX");
            assert_eq!((strike.mantissa(), strike.scale()), (47005, 1));
            assert_eq!((expiry.year(), expiry.month(), expiry.day()), (2025, 6, 20));
            assert!(greeks.delta.is_zero());
            assert!(greeks.vega.is_none());
        }
        _ => panic!("expected an option leg"),
    }
}

#[test]
fn contract_without_combo_legs_has_no_legs() {
    let c = contract(SecurityKind::Other("FUT".to_string()), None, "", 0);
    assert!(Position::legs_from_contract(&c).unwrap().is_empty());
}

#[test]
fn unknown_security_type_is_refused() {
    let c = contract(SecurityKind::Other("FUT".to_string()), None, "", 3);
    match Position::legs_from_contract(&c) {
        Err(Error::UnknownLegType(t)) => assert_eq!(t, "FUT"),
        other => panic!("unexpected: {:?}", other),
    }
}

#[test]
fn option_without_decimal_strike_is_refused() {
    let c = contract(SecurityKind::Option, None, "20250620", 1);
    match Position::legs_from_contract(&c) {
        Err(Error::MalformedDecimalError(t)) => assert_eq!(t, "4700.5"),
        other => panic!("unexpected: {:?}", other),
    }
}

#[test]
fn option_with_bad_expiry_is_refused() {
    let c = contract(SecurityKind::Option, strike(), "2025", 1);
    match Position::legs_from_contract(&c) {
        Err(Error::MalformedExpirationDate(ExpirationDateParseErrorKind::InvalidExpirationDateLength(t))) => {
            assert_eq!(t, "2025")
        }
        other => panic!("unexpected: {:?}", other),
    }
    let c = contract(SecurityKind::Option, strike(), "202513", 1);
    assert!(matches!(
        Position::legs_from_contract(&c),
        Err(Error::MalformedExpirationDate(ExpirationDateParseErrorKind::ParseError(_)))
    ));
}

#[test]
fn option_with_month_expiry_expires_on_the_first() {
    let c = contract(SecurityKind::Option, strike(), "202506", 1);
    let legs = Position::legs_from_contract(&c).unwrap();
    match &legs[0] {
        Leg::Option { expiry, .. } => {
            assert_eq!((expiry.year(), expiry.month(), expiry.day()), (2025, 6, 1));
        }
        _ => panic!("expected an option leg"),
    }
}
