//! Positions: a strategy type, its legs and the margin it ties up.
use vstd::prelude::*;
use crate::book::PositionType;
use crate::decimal::Decimal;
use crate::domain::leg::Leg;

verus! {

/// A position: its strategy type, its legs and the margin it ties up.
#[derive(Debug, Clone)]
pub struct Position {
    pub pos_type: PositionType,
    pub legs: Vec<Leg>,
    pub margin_used: Decimal,
}

} // verus!
