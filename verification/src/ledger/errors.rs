//! What the ledger refuses, and why.

use vstd::prelude::*;

use super::types::{Credits, ReservationId};
use crate::text::{decimal, decimal_string};

verus! {

/// A refusal of the ledger.
#[derive(Debug, Clone, Copy, PartialEq, Eq, Hash)]
pub enum EnrError {
    /// The amount asked for is zero.
    ZeroAmount,
    /// More was asked for than is available.
    InsufficientCredits { required: Credits, available: Credits },
    /// No such reservation is held.
    ReservationNotFound(ReservationId),
    /// The reservation outlived its ttl.
    ReservationExpired(ReservationId),
    /// The credit lifecycle has no such step.
    InvalidStateTransition,
    /// The pools do not add up to what was funded.
    ConservationViolation { expected: Credits, actual: Credits },
}

/// What a fallible ledger operation returns.
pub type EnrResult<T> = Result<T, EnrError>;

impl EnrError {
    /// The refusal in words.
    pub open spec fn words(self) -> Seq<char> {
        match self {
            EnrError::ZeroAmount => "zero amount"@,
            EnrError::InsufficientCredits { required, available } => {
                "insufficient credits: required "@ + decimal(required@) + ", available "@
                    + decimal(available@)
            },
            EnrError::ReservationNotFound(id) => "reservation not found: "@ + decimal(id.0 as nat),
            EnrError::ReservationExpired(id) => "reservation expired: "@ + decimal(id.0 as nat),
            EnrError::InvalidStateTransition => "invalid state transition"@,
            EnrError::ConservationViolation { expected, actual } => {
                "conservation violated: expected "@ + decimal(expected@) + ", actual "@ + decimal(
                    actual@,
                )
            },
        }
    }

    /// The refusal in words.
    pub fn to_text(&self) -> (s: String)
        ensures
            s@ == self.words(),
    {
        match self {
            EnrError::ZeroAmount => "zero amount".to_owned(),
            EnrError::InsufficientCredits { required, available } => {
                let mut s = "insufficient credits: required ".to_owned();
                s.append(required.to_text().as_str());
                s.append(", available ");
                s.append(available.to_text().as_str());
                s
            },
            EnrError::ReservationNotFound(id) => {
                let mut s = "reservation not found: ".to_owned();
                s.append(decimal_string(id.0).as_str());
                s
            },
            EnrError::ReservationExpired(id) => {
                let mut s = "reservation expired: ".to_owned();
                s.append(decimal_string(id.0).as_str());
                s
            },
            EnrError::InvalidStateTransition => "invalid state transition".to_owned(),
            EnrError::ConservationViolation { expected, actual } => {
                let mut s = "conservation violated: expected ".to_owned();
                s.append(expected.to_text().as_str());
                s.append(", actual ");
                s.append(actual.to_text().as_str());
                s
            },
        }
    }
}

/// Each refusal has words of its own, with its numbers in them in decimal.
pub proof fn law_refusals_name_their_numbers(error: EnrError, r: String)
    requires
        call_ensures(EnrError::to_text, (&error,), r),
    ensures
        error is ZeroAmount ==> r@ == "zero amount"@,
        error is InvalidStateTransition ==> r@ == "invalid state transition"@,
        error matches EnrError::InsufficientCredits { required, available } ==> r@
            == "insufficient credits: required "@ + decimal(required.amount as nat)
            + ", available "@ + decimal(available.amount as nat),
        error matches EnrError::ReservationNotFound(id) ==> r@ == "reservation not found: "@
            + decimal(id.0 as nat),
        error matches EnrError::ReservationExpired(id) ==> r@ == "reservation expired: "@
            + decimal(id.0 as nat),
        error matches EnrError::ConservationViolation { expected, actual } ==> r@
            == "conservation violated: expected "@ + decimal(expected.amount as nat)
            + ", actual "@ + decimal(actual.amount as nat),
{
}

} // verus!
