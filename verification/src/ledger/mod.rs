//! The credit ledger: amounts, time, lifecycle states, errors and escrow.

pub mod call_laws;
pub mod errors;
pub mod laws;
pub mod model;
pub mod reservation;
pub mod state;
pub mod sum;
pub mod types;

pub use errors::{EnrError, EnrResult};
pub use model::LedgerView;
pub use reservation::ReservationLedger;
pub use state::{CreditState, StateTransitionError};
pub use types::{AccountId, CreditReservation, Credits, Duration, NodeId, ReservationId, Timestamp};
