//! The crossing from credits to fiat spend, through three independent gates.
//!
//! - Gate 1, the ledger ([`crate::ledger::ReservationLedger`]): a spend is put in escrow before
//!   anything else happens to it.
//! - Gate 2, the policy ([`SpendPolicyGate`]): caps per transaction and over a rolling window,
//!   and allow-lists.
//! - Gate 3, the rail ([`SpendRail`]): the payment service, behind a trait.
//!
//! [`StripeBridge`] takes a spend through all three and keeps an append-only audit trail.

pub mod book;
pub mod bridge;
pub mod bridge_laws;
pub mod call_laws;
pub mod laws;
pub mod policy;
pub mod policy_laws;
pub mod records;
pub mod trail_laws;
pub mod window_laws;

pub use book::{ledger_denial, BookView, Readiness, SpendBook};
pub use bridge::{BridgeView, SpendRail, StripeBridge};
pub use policy::{
    Gate, PolicyConfigView, PolicyRefusal, PolicyView, SpendDenial, SpendDenialView,
    SpendPolicyConfig, SpendPolicyGate, SpendRequest, SpendRequestView,
};
pub use records::{
    AuditEntry, AuditEntryView, AuditEvent, AuditEventView, RailOutcome, RailOutcomeView,
    SpendReceipt, SpendReceiptView,
};
