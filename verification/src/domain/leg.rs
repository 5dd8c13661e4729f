//! The legs of a position: a stock holding or an option contract.
use vstd::prelude::*;
use chrono::Datelike;
use vstd::string::*;
use vstd::utf8::encode_utf8;
use crate::decimal::Decimal;
use crate::error::{Error, ExpirationDateParseErrorKind};
use crate::decimal::decimal_checked_mul;
use crate::greeks::{
    Greeks, GreeksView, greek_field, law_scaled_greeks_are_products, scale_greeks, stock_greeks,
};
use crate::quantity::Quantity;

verus! {

/// What `chrono::NaiveDate::parse_from_str(s, fmt)` gives, as
/// `(year, month, day)`; `None` where it refuses the text.
pub uninterp spec fn chrono_parse_date(s: Seq<char>, fmt: Seq<char>) -> Option<(i32, u32, u32)>;

/// Whether a year is a leap year of the proleptic Gregorian calendar.
pub open spec fn is_leap_year(year: int) -> bool {
    year % 4 == 0 && (year % 100 != 0 || year % 400 == 0)
}

/// The number of days of a month (1 to 12) in a year.
pub open spec fn days_in_month(year: int, month: int) -> int {
    if month == 2 {
        if is_leap_year(year) { 29 } else { 28 }
    } else if month == 4 || month == 6 || month == 9 || month == 11 {
        30
    } else {
        31
    }
}

/// The years chrono's `NaiveDate` covers.
pub open spec fn in_date_range(year: int) -> bool {
    -262143 <= year <= 262142
}

/// Whether a year, month and day name a date chrono's `NaiveDate` holds: a
/// year in its range, a month of 1 to 12, a day of that month.
pub open spec fn valid_calendar_date(year: int, month: int, day: int) -> bool {
    &&& in_date_range(year)
    &&& 1 <= month <= 12
    &&& 1 <= day <= days_in_month(year, month)
}

/// The calendar: a year of chrono's range (-262143 to 262142), any month of
/// the twelve, and a day from 1 to the month's length make a date, and
/// nothing else does; January, March, May, July, August, October and
/// December have 31 days, April, June, September and November 30, and
/// February 28, or 29 in a year divisible by 4 but not by 100, or by 400.
pub proof fn law_calendar_dates(year: int, month: int, day: int)
    ensures
        valid_calendar_date(year, month, day) <==> {
            &&& -262143 <= year <= 262142
            &&& 1 <= day
            &&& {
                ||| (month == 1 || month == 3 || month == 5 || month == 7 || month == 8 || month
                    == 10 || month == 12) && day <= 31
                ||| (month == 4 || month == 6 || month == 9 || month == 11) && day <= 30
                ||| month == 2 && day <= 28
                ||| month == 2 && day == 29 && year % 4 == 0 && (year % 100 != 0 || year % 400
                    == 0)
            }
        },
{
}

/// Calls `chrono::NaiveDate::parse_from_str` and returns the date's year,
/// month and day, or chrono's error. Claimed of it: success exactly where the
/// named `chrono_parse_date` is defined, and then its value, which is a date
/// `NaiveDate` holds.
#[verifier::external_body]
fn parse_naive_date(s: &str, fmt: &str) -> (r: std::result::Result<(i32, u32, u32), chrono::ParseError>)
    ensures
        r is Ok <==> chrono_parse_date(s@, fmt@) is Some,
        r matches Ok(ymd) ==> chrono_parse_date(s@, fmt@) == Some(ymd),
        r matches Ok(ymd) ==> valid_calendar_date(ymd.0 as int, ymd.1 as int, ymd.2 as int),
{
    match chrono::NaiveDate::parse_from_str(s, fmt) {
        Ok(d) => Ok((d.year(), d.month(), d.day())),
        Err(e) => Err(e),
    }
}

/// Whether a year is a leap year, as `is_leap_year` says.
fn leap_year(year: i32) -> (leap: bool)
    ensures
        leap == is_leap_year(year as int),
{
    year % 4 == 0 && (year % 100 != 0 || year % 400 == 0)
}

/// Whether a year, month and day name a date, as `valid_calendar_date`
/// says: the check chrono's `NaiveDate::from_ymd_opt` makes.
fn is_calendar_date(year: i32, month: u32, day: u32) -> (ok: bool)
    ensures
        ok == valid_calendar_date(year as int, month as int, day as int),
{
    if year < -262143 || year > 262142 || month < 1 || month > 12 || day < 1 {
        return false;
    }
    let last: u32 = if month == 2 {
        if leap_year(year) {
            29
        } else {
            28
        }
    } else if month == 4 || month == 6 || month == 9 || month == 11 {
        30
    } else {
        31
    };
    day <= last
}

/// The expiration date of an option contract: always a date chrono's
/// `NaiveDate` holds.
#[derive(Debug, Clone, Copy)]
pub struct ExpirationDate {
    year: i32,
    month: u32,
    day: u32,
}

impl View for ExpirationDate {
    type V = (i32, u32, u32);

    /// The date as `(year, month, day)`.
    closed spec fn view(&self) -> (i32, u32, u32) {
        (self.year, self.month, self.day)
    }
}

/// The date an expiration text names: an 8-byte text parsed as `%Y%m%d`; a
/// 6-byte text, `YYYYMM`, as the first day of that month, parsed as
/// `%Y%m%d` once `01` is appended; no date for a text of another length or
/// one that chrono refuses.
pub open spec fn expiry_of(s: Seq<char>) -> Option<(i32, u32, u32)> {
    if byte_len(s) == 8 {
        chrono_parse_date(s, "%Y%m%d"@)
    } else if byte_len(s) == 6 {
        chrono_parse_date(s + "01"@, "%Y%m%d"@)
    } else {
        None
    }
}

/// What reading an expiration date from a text gives: the date the text
/// names where it names one; for a text of neither 6 nor 8 bytes, the
/// invalid-length error with the text; for a text of 6 or 8 bytes that
/// chrono refuses, chrono's error.
pub open spec fn reads_expiry(s: Seq<char>, r: Result<ExpirationDate, Error>) -> bool {
    &&& (r is Ok <==> expiry_of(s) is Some)
    &&& (r matches Ok(d) ==> expiry_of(s) == Some(d@))
    &&& (byte_len(s) != 6 && byte_len(s) != 8 ==> (r matches Err(
        Error::MalformedExpirationDate(ExpirationDateParseErrorKind::InvalidExpirationDateLength(t)),
    ) && t@ == s))
    &&& ((byte_len(s) == 6 || byte_len(s) == 8) && expiry_of(s) is None ==> r matches Err(
        Error::MalformedExpirationDate(ExpirationDateParseErrorKind::ParseError(_)),
    ))
}

/// The length in bytes of the UTF-8 encoding of a text, as `str::len`
/// gives it.
pub open spec fn byte_len(s: Seq<char>) -> usize {
    encode_utf8(s).len() as usize
}

impl ExpirationDate {
    #[verifier::type_invariant]
    spec fn well_formed(self) -> bool {
        valid_calendar_date(self.year as int, self.month as int, self.day as int)
    }

    /// The calendar date with the given year, month and day, where chrono
    /// knows one.
    pub fn from_ymd(year: i32, month: u32, day: u32) -> (d: Option<ExpirationDate>)
        ensures
            d is Some <==> valid_calendar_date(year as int, month as int, day as int),
            d matches Some(d) ==> d@ == (year, month, day),
    {
        if is_calendar_date(year, month, day) {
            Some(ExpirationDate { year, month, day })
        } else {
            None
        }
    }

    /// The year, from -262143 to 262142.
    pub fn year(&self) -> (y: i32)
        ensures
            y == self@.0,
            valid_calendar_date(self@.0 as int, self@.1 as int, self@.2 as int),
    {
        proof {
            use_type_invariant(self);
        }
        self.year
    }

    /// The month, 1 to 12.
    pub fn month(&self) -> (m: u32)
        ensures
            m == self@.1,
            1 <= m <= 12,
    {
        proof {
            use_type_invariant(self);
        }
        self.month
    }

    /// The day of the month, from 1 to the month's last day.
    pub fn day(&self) -> (d: u32)
        ensures
            d == self@.2,
            1 <= d <= days_in_month(self@.0 as int, self@.1 as int),
    {
        proof {
            use_type_invariant(self);
        }
        self.day
    }

    /// Reads an expiration date written `YYYYMMDD` (8 bytes, parsed with
    /// `%Y%m%d`) or `YYYYMM` (6 bytes, read as the first day of that month).
    /// A text of any other length is refused as of invalid length; one that
    /// chrono refuses is refused with chrono's error.
    pub fn from_str(s: &str) -> (r: Result<ExpirationDate, Error>)
        ensures
            reads_expiry(s@, r),
    {
        let len = s.len();
        if len == 6 {
            let mut first_of_month = s.to_owned();
            first_of_month.append("01");
            match parse_naive_date(first_of_month.as_str(), "%Y%m%d") {
                Ok(ymd) => Ok(ExpirationDate { year: ymd.0, month: ymd.1, day: ymd.2 }),
                Err(e) => Err(
                    Error::MalformedExpirationDate(ExpirationDateParseErrorKind::ParseError(e)),
                ),
            }
        } else if len == 8 {
            match parse_naive_date(s, "%Y%m%d") {
                Ok(ymd) => Ok(ExpirationDate { year: ymd.0, month: ymd.1, day: ymd.2 }),
                Err(e) => Err(
                    Error::MalformedExpirationDate(ExpirationDateParseErrorKind::ParseError(e)),
                ),
            }
        } else {
            Err(
                Error::MalformedExpirationDate(
                    ExpirationDateParseErrorKind::InvalidExpirationDateLength(s.to_owned()),
                ),
            )
        }
    }
}

impl std::str::FromStr for ExpirationDate {
    type Err = Error;

    /// Reads an expiration date as `ExpirationDate::from_str` does.
    fn from_str(s: &str) -> (r: Result<ExpirationDate, Error>)
        ensures
            reads_expiry(s@, r),
    {
        ExpirationDate::from_str(s)
    }
}

/// One leg of a position.
#[derive(Debug, Clone)]
#[non_exhaustive]
pub enum Leg {
    Stock { symbol: String, quantity: Quantity, greeks: Greeks },
    Option {
        symbol: String,
        underlying_symbol: String,
        quantity: Quantity,
        strike: Decimal,
        expiry: ExpirationDate,
        greeks: Greeks,
    },
}

/// The greeks a leg carries.
pub open spec fn leg_greeks(leg: Leg) -> Greeks {
    match leg {
        Leg::Stock { greeks, .. } => greeks,
        Leg::Option { greeks, .. } => greeks,
    }
}

/// The size of a leg's position.
pub open spec fn leg_quantity(leg: Leg) -> Quantity {
    match leg {
        Leg::Stock { quantity, .. } => quantity,
        Leg::Option { quantity, .. } => quantity,
    }
}

/// A leg's greeks weighted by its size: each greek times the size as a
/// decimal; `None` where the size has no decimal or a product overflows.
pub open spec fn weighted_greeks(leg: Leg) -> Option<GreeksView> {
    match leg_quantity(leg).amount_of() {
        Some(q) => scale_greeks(leg_greeks(leg)@, q@),
        None => None,
    }
}

/// A leg's greeks are weighted by its size: a leg whose size has no decimal
/// has no weighted greeks; otherwise each greek the leg knows (delta, vega,
/// theta, gamma, rho) is multiplied by the size, by `rust_decimal`'s decimal
/// product, the weighted greeks know exactly the greeks the leg knows, and
/// they fail exactly where such a product overflows.
pub proof fn law_weighted_greeks_are_products(leg: Leg, k: int)
    requires
        0 <= k < 5,
    ensures
        leg_quantity(leg).amount_of() is None ==> weighted_greeks(leg) is None,
        leg_quantity(leg).amount_of() matches Some(q) ==> (weighted_greeks(leg) is Some <==> (
        forall|j: int|
            0 <= j < 5 && #[trigger] greek_field(leg_greeks(leg)@, j) is Some
                ==> decimal_checked_mul(greek_field(leg_greeks(leg)@, j).unwrap(), q@) is Some)),
        weighted_greeks(leg) is Some ==> (greek_field(weighted_greeks(leg).unwrap(), k) is Some
            <==> greek_field(leg_greeks(leg)@, k) is Some),
        (weighted_greeks(leg) is Some && greek_field(leg_greeks(leg)@, k) is Some) ==> greek_field(
            weighted_greeks(leg).unwrap(),
            k,
        ) == decimal_checked_mul(
            greek_field(leg_greeks(leg)@, k).unwrap(),
            leg_quantity(leg).amount_of().unwrap()@,
        ),
{
    if let Some(q) = leg_quantity(leg).amount_of() {
        law_scaled_greeks_are_products(leg_greeks(leg)@, q@, k);
    }
}

/// The symbol of the instrument a leg is on: a stock's own symbol, an
/// option's underlying.
pub open spec fn underlying_of(leg: Leg) -> Seq<char> {
    match leg {
        Leg::Stock { symbol, .. } => symbol@,
        Leg::Option { underlying_symbol, .. } => underlying_symbol@,
    }
}

impl Leg {
    /// A stock leg, its greeks those of a stock of that quantity.
    pub fn stock(symbol: String, quantity: Quantity) -> (leg: Leg)
        ensures
            leg matches Leg::Stock { symbol: s, quantity: q, greeks: g } && s == symbol && q
                == quantity && g@ == stock_greeks(quantity),
    {
        Leg::Stock { symbol, quantity, greeks: Greeks::from_stock(quantity) }
    }

    /// An option leg.
    pub fn option(
        symbol: String,
        underlying_symbol: String,
        quantity: Quantity,
        strike: Decimal,
        expiry: ExpirationDate,
        greeks: Greeks,
    ) -> (leg: Leg)
        ensures
            leg == (Leg::Option { symbol, underlying_symbol, quantity, strike, expiry, greeks }),
    {
        Leg::Option { symbol, underlying_symbol, strike, quantity, expiry, greeks }
    }

    /// The symbol of the instrument the leg is on.
    pub fn get_underlying_symbol(&self) -> (s: &str)
        ensures
            s@ == underlying_of(*self),
    {
        match self {
            Leg::Stock { symbol, .. } => symbol.as_str(),
            Leg::Option { underlying_symbol, .. } => underlying_symbol.as_str(),
        }
    }

    /// The greeks of the leg times its size; `None` where the size has no
    /// decimal or a product overflows.
    pub fn weighted_greeks(&self) -> (g: Option<Greeks>)
        ensures
            g is Some <==> weighted_greeks(*self) is Some,
            g matches Some(g) ==> weighted_greeks(*self) == Some(g@),
    {
        let (quantity, greeks) = match self {
            Leg::Stock { quantity, greeks, .. } => (quantity, greeks),
            Leg::Option { quantity, greeks, .. } => (quantity, greeks),
        };
        match quantity.amount() {
            Some(q) => greeks.checked_mul(q),
            None => None,
        }
    }

    /// The greeks of the leg.
    pub fn greeks(&self) -> (g: Greeks)
        ensures
            g == leg_greeks(*self),
    {
        match self {
            Leg::Stock { greeks, .. } => *greeks,
            Leg::Option { greeks, .. } => *greeks,
        }
    }
}

} // verus!
