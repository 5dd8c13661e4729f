use portfolio_manager::decimal::Decimal;
use portfolio_manager::quantity::Quantity;
use portfolio_manager::tui::{next_action, TuiAction, TuiEvent};
use portfolio_manager::ui::{net_greeks, Area};

fn dec(mantissa: i128, scale: u32) -> Decimal {
    Decimal::try_from_i128_with_scale(mantissa, scale).unwrap()
}

#[test]
fn decimal_bounds_are_checked() {
    assert!(Decimal::try_from_i128_with_scale(1, 28).is_some());
    assert!(Decimal::try_from_i128_with_scale(1, 29).is_none());
    let max: i128 = 0xFFFF_FFFF_FFFF_FFFF_FFFF_FFFF;
    assert!(Decimal::try_from_i128_with_scale(max, 0).is_some());
    assert!(Decimal::try_from_i128_with_scale(max + 1, 0).is_none());
    assert!(Decimal::try_from_i128_with_scale(-max - 1, 0).is_none());
}

#[test]
fn decimal_sum_aligns_scales() {
    // 1.5 + 2.25 = 3.75
    let s = dec(15, 1).checked_add(dec(225, 2)).unwrap();
    assert_eq!(s.mantissa(), 375);
    assert_eq!(s.scale(), 2);
}

#[test]
fn decimal_sum_of_one_scale_is_exact() {
    let s = dec(-20, 1).add(dec(-10, 1));
    assert_eq!((s.mantissa(), s.scale()), (-30, 1));
}

#[test]
fn decimal_zero_is_neutral() {
    let s = Decimal::zero().add(dec(5000, 2));
    assert_eq!((s.mantissa(), s.scale()), (5000, 2));
    let s = dec(7, 3).add(Decimal::zero());
    assert_eq!((s.mantissa(), s.scale()), (7, 3));
}

#[test]
fn decimal_sum_overflow_is_none() {
    let max: i128 = 0xFFFF_FFFF_FFFF_FFFF_FFFF_FFFF;
    assert!(dec(max, 0).checked_add(dec(1, 0)).is_none());
}

#[test]
fn decimal_division() {
    let q = dec(10000, 0).div(dec(5000, 0));
    assert_eq!(q.mantissa() , 2);
    assert_eq!(q.scale(), 0);
    assert!(dec(1, 0).checked_div(Decimal::zero()).is_none());
    let z = Decimal::zero().div(dec(3, 0));
    assert!(z.is_zero());
}

#[test]
fn decimal_zero_test() {
    assert!(dec(0, 5).is_zero());
    assert!(!dec(1, 5).is_zero());
    assert_eq!(Decimal::one().mantissa(), 1);
    assert_eq!(Decimal::negative_one().mantissa(), -1);
}

#[test]
fn quantity_sign() {
    assert!(Quantity::new((-5.0f64).to_bits(), None).unwrap().is_negative());
    assert!(Quantity::new(f64::NEG_INFINITY.to_bits(), None).unwrap().is_negative());
    assert!(Quantity::new((-f64::MIN_POSITIVE / 2.0).to_bits(), None).unwrap().is_negative());
    assert!(!Quantity::new((-0.0f64).to_bits(), None).unwrap().is_negative());
    assert!(!Quantity::new(0.0f64.to_bits(), None).unwrap().is_negative());
    assert!(!Quantity::new(3.0f64.to_bits(), None).unwrap().is_negative());
    assert!(!Quantity::new(f64::NAN.to_bits(), None).unwrap().is_negative());
    assert!(!Quantity::new((-f64::NAN).to_bits(), None).unwrap().is_negative());
    assert!(!Quantity::new(f64::INFINITY.to_bits(), None).unwrap().is_negative());
}

#[test]
fn quit_on_q_only() {
    assert_eq!(next_action(TuiEvent::Key('q')), TuiAction::Quit);
    assert_eq!(next_action(TuiEvent::Key('Q')), TuiAction::Redraw);
    assert_eq!(next_action(TuiEvent::Key('x')), TuiAction::Redraw);
    assert_eq!(next_action(TuiEvent::Tick), TuiAction::Redraw);
    assert_eq!(next_action(TuiEvent::Other), TuiAction::Redraw);
}

#[test]
fn greeks_band_is_centered() {
    let area = Area { x: 3, y: 2, width: 80, height: 24 };
    let band = net_greeks(4, area);
    assert_eq!(band.x, 3);
    assert_eq!(band.width, 80);
    assert_eq!(band.height, 4);
    assert_eq!(band.y, 12);
}

#[test]
fn quantity_refuses_an_amount_of_the_other_sign() {
    let two = Decimal::try_from_i128_with_scale(2, 0);
    let minus_two = Decimal::try_from_i128_with_scale(-2, 0);
    let zero = Decimal::try_from_i128_with_scale(0, 0);
    assert!(Quantity::new((-2.0f64).to_bits(), two).is_none());
    assert!(Quantity::new(2.0f64.to_bits(), minus_two).is_none());
    let q = Quantity::new((-2.0f64).to_bits(), minus_two).unwrap();
    assert_eq!(q.bits(), (-2.0f64).to_bits());
    assert_eq!(q.amount().unwrap().mantissa(), -2);
    assert!(Quantity::new((-0.0f64).to_bits(), zero).is_some());
}
