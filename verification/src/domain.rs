pub mod leg;
pub mod position;

pub use leg::{ExpirationDate, Leg};
pub use position::Position;
