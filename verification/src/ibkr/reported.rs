//! Turning a position reported by the broker into the legs of the book.
use vstd::prelude::*;
use crate::decimal::Decimal;
use crate::domain::leg::{ExpirationDate, Leg, byte_len, expiry_of};
use crate::domain::position::Position;
use crate::error::{Error, ExpirationDateParseErrorKind};
use crate::greeks::{Greeks, no_greeks, stock_greeks};
use crate::quantity::Quantity;

verus! {

/// The security type of a reported contract.
#[derive(Debug, Clone)]
pub enum SecurityKind {
    Stock,
    Option,
    /// Any other type, by the name the broker gives it.
    Other(String),
}

/// What the book reads of a position the broker reports.
#[derive(Debug, Clone)]
pub struct ContractPosition {
    /// The contract's symbol.
    pub symbol: String,
    /// The contract's security type.
    pub security: SecurityKind,
    /// The contract's last trade date or contract month, as reported.
    pub last_trade_date_or_contract_month: String,
    /// The strike as a decimal, where the reported number has one.
    pub strike: Option<Decimal>,
    /// The strike as the broker's number prints.
    pub strike_text: String,
    /// The size of the position.
    pub quantity: Quantity,
    /// The number of combo legs the contract lists.
    pub combo_leg_count: usize,
}

/// Whether a leg is the stock leg of a reported contract: its symbol, its
/// quantity, and the greeks of a stock of that quantity.
pub open spec fn is_stock_leg_of(leg: Leg, c: ContractPosition) -> bool {
    leg matches Leg::Stock { symbol, quantity, greeks } && symbol@ == c.symbol@ && quantity
        == c.quantity && greeks@ == stock_greeks(c.quantity)
}

/// Whether a leg is the option leg of a reported contract: its symbol (also
/// as the underlying), its quantity, the given strike, the date its expiry
/// text names, and no greeks beyond a zero delta.
pub open spec fn is_option_leg_of(leg: Leg, c: ContractPosition, strike: Decimal) -> bool {
    leg matches Leg::Option { symbol, underlying_symbol, quantity, strike: k, expiry, greeks }
        && symbol@ == c.symbol@ && underlying_symbol@ == c.symbol@ && quantity == c.quantity && k
        == strike && Some(expiry@) == expiry_of(c.last_trade_date_or_contract_month@) && greeks@
        == no_greeks()
}

impl Position {
    /// The legs of a reported position: one per combo leg of the contract,
    /// each a stock leg or an option leg after the contract's security type.
    /// A contract of another type is refused as an unknown leg type; an
    /// option without a decimal strike as a malformed decimal (with the
    /// strike's text); an option whose expiry does not parse with the error
    /// that reading the expiry gives. A contract without combo legs has no
    /// legs and is refused for nothing.
    pub fn legs_from_contract(c: &ContractPosition) -> (r: Result<Vec<Leg>, Error>)
        ensures
            c.combo_leg_count == 0 ==> (r matches Ok(legs) && legs@.len() == 0),
            c.combo_leg_count > 0 ==> (match c.security {
                SecurityKind::Stock => r matches Ok(legs) && legs@.len() == c.combo_leg_count
                    && forall|i: int| 0 <= i < legs@.len() ==> is_stock_leg_of(#[trigger] legs@[i], *c),
                SecurityKind::Other(t) => r matches Err(Error::UnknownLegType(u)) && u@ == t@,
                SecurityKind::Option => match c.strike {
                    None => r matches Err(Error::MalformedDecimalError(u)) && u@
                        == c.strike_text@,
                    Some(k) => {
                        let expiry = c.last_trade_date_or_contract_month@;
                        if expiry_of(expiry) is Some {
                            r matches Ok(legs) && legs@.len() == c.combo_leg_count && forall|i: int|
                                0 <= i < legs@.len() ==> is_option_leg_of(#[trigger] legs@[i], *c, k)
                        } else if byte_len(expiry) != 6 && byte_len(expiry) != 8 {
                            r matches Err(
                                Error::MalformedExpirationDate(
                                    ExpirationDateParseErrorKind::InvalidExpirationDateLength(t),
                                ),
                            ) && t@ == expiry
                        } else {
                            r matches Err(
                                Error::MalformedExpirationDate(
                                    ExpirationDateParseErrorKind::ParseError(_),
                                ),
                            )
                        }
                    },
                },
            }),
    {
        let mut legs: Vec<Leg> = Vec::new();
        let mut i: usize = 0;
        while i < c.combo_leg_count
            invariant
                0 <= i <= c.combo_leg_count,
                legs@.len() == i,
                i > 0 ==> c.security is Stock || (c.security is Option && c.strike is Some && expiry_of(c.last_trade_date_or_contract_month@) is Some),
                c.security is Stock ==> forall|j: int| 0 <= j < i ==> is_stock_leg_of(#[trigger] legs@[j], *c),
                c.security is Option && c.strike is Some ==> forall|j: int|
                    0 <= j < i ==> is_option_leg_of(#[trigger] legs@[j], *c, c.strike.unwrap()),
            decreases c.combo_leg_count - i,
        {
            let leg = match &c.security {
                SecurityKind::Stock => Leg::stock(c.symbol.clone(), c.quantity),
                SecurityKind::Option => {
                    let strike = match c.strike {
                        Some(k) => k,
                        None => {
                            return Err(Error::MalformedDecimalError(c.strike_text.clone()));
                        },
                    };
                    let expiry = match ExpirationDate::from_str(
                        c.last_trade_date_or_contract_month.as_str(),
                    ) {
                        Ok(d) => d,
                        Err(e) => {
                            return Err(e);
                        },
                    };
                    Leg::option(
                        c.symbol.clone(),
                        c.symbol.clone(),
                        c.quantity,
                        strike,
                        expiry,
                        Greeks::default(),
                    )
                },
                SecurityKind::Other(t) => {
                    return Err(Error::UnknownLegType(t.clone()));
                },
            };
            legs.push(leg);
            i += 1;
        }
        Ok(legs)
    }
}

} // verus!
