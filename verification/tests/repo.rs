use portfolio_manager::decimal::Decimal;
use portfolio_manager::{BookLayer, Portfolio, Position, PositionType, Repo};

fn dec(mantissa: i128, scale: u32) -> Decimal {
    Decimal::try_from_i128_with_scale(mantissa, scale).unwrap()
}

fn empty_portfolio() -> Portfolio {
    Portfolio::default()
}

/// Helper: build a portfolio with one dummy domain
fn demo_portfolio() -> Portfolio {
    Portfolio {
        cash: dec(42_000, 0),
        positions: vec![BookLayer::Income(Position {
            pos_type: PositionType::CreditSpread,
            legs: vec![],
            margin_used: dec(10_000, 0),
        })],
    }
}

fn cash_of(p: &Portfolio) -> (i128, u32) {
    (p.cash.mantissa(), p.cash.scale())
}

#[test]
fn roundtrip() {
    let mut repo = Repo::new();
    repo.set(empty_portfolio());
    assert!(repo.get().positions.is_empty());
}

#[test]
fn repo_roundtrip() {
    let mut repo = Repo::new();
    let p = demo_portfolio();
    repo.set(p.clone());

    let fetched = repo.get();
    assert_eq!(cash_of(&fetched), (42_000, 0));
    assert_eq!(fetched.positions.len(), 1);
    assert_eq!(fetched.positions[0].as_ref().pos_type, PositionType::CreditSpread);
}

#[test]
fn new_repo_holds_empty_current() {
    let repo = Repo::new();
    assert_eq!(repo.list_keys(), vec!["current".to_string()]);
    let p = repo.get();
    assert!(p.cash.is_zero());
    assert!(p.positions.is_empty());
}

#[test]
fn default_repo_is_empty() {
    let repo = Repo::default();
    assert!(repo.list_keys().is_empty());
    assert!(repo.list_as_vec().is_empty());
}

#[test]
fn upsert_remove_and_keys() {
    let mut repo = Repo::new();
    repo.upsert("alpha".to_string(), demo_portfolio());
    repo.upsert("beta".to_string(), empty_portfolio());
    repo.upsert("alpha".to_string(), empty_portfolio());
    let mut keys = repo.list_keys();
    keys.sort();
    assert_eq!(keys, vec!["alpha".to_string(), "beta".to_string(), "current".to_string()]);
    let removed = repo.remove("alpha").unwrap();
    assert!(removed.positions.is_empty());
    assert!(repo.remove("alpha").is_none());
    assert_eq!(repo.list_keys().len(), 2);
}

#[test]
fn with_portfolio_applies_to_stored() {
    let mut repo = Repo::new();
    repo.upsert("demo".to_string(), demo_portfolio());
    assert_eq!(repo.with_portfolio("demo", |p| p.positions.len()), Some(1));
    assert_eq!(repo.with_portfolio("missing", |p| p.positions.len()), None);
}

#[test]
fn load_entries_replaces_and_last_wins() {
    let mut repo = Repo::new();
    repo.upsert("old".to_string(), demo_portfolio());
    repo.load_entries(vec![
        ("a".to_string(), demo_portfolio()),
        ("b".to_string(), empty_portfolio()),
        ("a".to_string(), empty_portfolio()),
    ]);
    let mut entries = repo.list_as_vec();
    entries.sort_by(|x, y| x.0.cmp(&y.0));
    assert_eq!(entries.len(), 2);
    assert_eq!(entries[0].0, "a");
    assert!(entries[0].1.positions.is_empty());
    assert_eq!(entries[1].0, "b");
    assert_eq!(repo.with_portfolio("current", |_| ()), None);
}

#[test]
fn clone_is_separate() {
    let mut repo = Repo::new();
    let copy = repo.clone();
    repo.set(demo_portfolio());
    assert_eq!(cash_of(&repo.get()), (42_000, 0));
    assert!(copy.get().cash.is_zero());
}
