//! Portfolio bookkeeping for an options book: legs, positions, book layers,
//! aggregate greeks and margin, an in-memory portfolio repository, and the
//! description of an Interactive Brokers gateway connection.
pub mod book;
pub mod decimal;
pub mod domain;
pub mod error;
pub mod greeks;
pub mod ibkr;
pub mod quantity;
pub mod repo;
pub mod sums;
pub mod tui;
pub mod ui;

pub use book::{BookLayer, Portfolio, PositionType};
pub use decimal::Decimal;
pub use domain::Position;
pub use error::{Error, ExpirationDateParseErrorKind, Result};
pub use greeks::Greeks;
pub use quantity::Quantity;
pub use repo::Repo;
