//! Request parameters of the billing HTTP API and the checks made on them.
//!
//! The handlers themselves (database access, JSON bodies) stand around the
//! library; what they decide from the parameters is here.

use vstd::prelude::*;

verus! {

/// The longest org or entity identifier accepted, in bytes.
pub const MAX_ID_LEN: usize = 256;

/// Why an identifier parameter was refused.
#[derive(Debug, Clone, Copy, PartialEq, Eq, Structural)]
pub enum IdError {
    /// The identifier parameter is absent.
    Missing,
    /// The identifier is the empty string.
    Empty,
    /// The identifier is longer than `MAX_ID_LEN` bytes.
    TooLong,
}

/// Checks an org or entity identifier: it must be non-empty and at most
/// `MAX_ID_LEN` bytes long.
pub fn validate_id(id: &str) -> (r: Result<(), IdError>)
    ensures
        id.len() == 0 ==> r == Err::<(), IdError>(IdError::Empty),
        id.len() > MAX_ID_LEN ==> r == Err::<(), IdError>(IdError::TooLong),
        0 < id.len() <= MAX_ID_LEN ==> r == Ok::<(), IdError>(()),
{
    let n = id.len();
    if n == 0 {
        Err(IdError::Empty)
    } else if n > MAX_ID_LEN {
        Err(IdError::TooLong)
    } else {
        Ok(())
    }
}

/// Query of `GET /api/billing/usage`.
pub struct UsageQuery {
    pub org_id: String,
    pub from: Option<String>,
    pub to: Option<String>,
}

/// The first day of the usage period when the query names none.
pub open spec fn default_period_start() -> Seq<char> {
    "2020-01-01"@
}

/// The last day of the usage period when the query names none.
pub open spec fn default_period_end() -> Seq<char> {
    "2099-12-31"@
}

impl UsageQuery {
    /// The period that the usage breakdown covers: the query's bounds, each
    /// defaulting to the widest period.
    pub fn period(&self) -> (r: (String, String))
        ensures
            r.0@ == (match self.from {
                Some(f) => f@,
                None => default_period_start(),
            }),
            r.1@ == (match self.to {
                Some(t) => t@,
                None => default_period_end(),
            }),
    {
        let from = match &self.from {
            Some(f) => f.clone(),
            None => String::from_str("2020-01-01"),
        };
        let to = match &self.to {
            Some(t) => t.clone(),
            None => String::from_str("2099-12-31"),
        };
        (from, to)
    }
}

/// Query of `GET /api/billing/invoices`.
pub struct InvoicesQuery {
    pub org_id: String,
}

/// Query of `GET /api/billing/rates`; the org is required.
pub struct RatesQuery {
    pub org_id: Option<String>,
}

impl RatesQuery {
    /// The org whose rate cards are asked for; refused when the query names none.
    pub fn required_org_id(&self) -> (r: Result<String, IdError>)
        ensures
            r == (match self.org_id {
                Some(o) => Ok::<String, IdError>(o),
                None => Err::<String, IdError>(IdError::Missing),
            }),
    {
        match &self.org_id {
            Some(o) => Ok(o.clone()),
            None => Err(IdError::Missing),
        }
    }
}

} // verus!
