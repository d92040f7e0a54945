//! What crosses the bridge: the rail's answer, the receipt and the audit trail.

use vstd::prelude::*;

use super::policy::{Gate, SpendDenial, SpendDenialView};
use crate::ledger::types::{Credits, ReservationId, Timestamp};

verus! {

/// What the payment rail (Gate 3) answered.
#[derive(Debug, Clone, PartialEq, Eq)]
pub enum RailOutcome {
    Approved { txn_id: String },
    Declined { reason: String },
}

/// What an answer of the rail says.
pub enum RailOutcomeView {
    Approved { txn_id: Seq<char> },
    Declined { reason: Seq<char> },
}

impl View for RailOutcome {
    type V = RailOutcomeView;

    open spec fn view(&self) -> RailOutcomeView {
        match self {
            RailOutcome::Approved { txn_id } => RailOutcomeView::Approved { txn_id: txn_id@ },
            RailOutcome::Declined { reason } => RailOutcomeView::Declined { reason: reason@ },
        }
    }
}

/// A settled spend.
#[derive(Debug, Clone, PartialEq, Eq)]
pub struct SpendReceipt {
    pub reservation_id: ReservationId,
    pub amount: Credits,
    pub txn_id: String,
}

/// What a receipt says.
pub struct SpendReceiptView {
    pub reservation_id: ReservationId,
    pub amount: Credits,
    pub txn_id: Seq<char>,
}

impl View for SpendReceipt {
    type V = SpendReceiptView;

    open spec fn view(&self) -> SpendReceiptView {
        SpendReceiptView {
            reservation_id: self.reservation_id,
            amount: self.amount,
            txn_id: self.txn_id@,
        }
    }
}

/// What the end of a spend says.
pub open spec fn settlement_view(r: Result<SpendReceipt, SpendDenial>) -> Result<
    SpendReceiptView,
    SpendDenialView,
> {
    match r {
        Ok(receipt) => Ok(receipt@),
        Err(denial) => Err(denial@),
    }
}

/// What happened, for the audit trail.
#[derive(Debug, Clone, PartialEq, Eq)]
pub enum AuditEvent {
    Reserved,
    Denied { gate: Gate, reason: String },
    Committed { txn_id: String },
    Released { reason: String },
    Refunded,
}

/// What an audit event says.
pub enum AuditEventView {
    Reserved,
    Denied { gate: Gate, reason: Seq<char> },
    Committed { txn_id: Seq<char> },
    Released { reason: Seq<char> },
    Refunded,
}

impl View for AuditEvent {
    type V = AuditEventView;

    open spec fn view(&self) -> AuditEventView {
        match self {
            AuditEvent::Reserved => AuditEventView::Reserved,
            AuditEvent::Denied { gate, reason } => AuditEventView::Denied {
                gate: *gate,
                reason: reason@,
            },
            AuditEvent::Committed { txn_id } => AuditEventView::Committed { txn_id: txn_id@ },
            AuditEvent::Released { reason } => AuditEventView::Released { reason: reason@ },
            AuditEvent::Refunded => AuditEventView::Refunded,
        }
    }
}

/// One record of the audit trail.
#[derive(Debug, Clone, PartialEq, Eq)]
pub struct AuditEntry {
    pub reservation_id: Option<ReservationId>,
    pub amount: Credits,
    pub event: AuditEvent,
    pub at: Timestamp,
}

/// What a record of the audit trail says.
pub struct AuditEntryView {
    pub reservation_id: Option<ReservationId>,
    pub amount: Credits,
    pub event: AuditEventView,
    pub at: Timestamp,
}

impl View for AuditEntry {
    type V = AuditEntryView;

    open spec fn view(&self) -> AuditEntryView {
        AuditEntryView {
            reservation_id: self.reservation_id,
            amount: self.amount,
            event: self.event@,
            at: self.at,
        }
    }
}

/// What a whole trail says.
pub open spec fn trail(entries: Seq<AuditEntry>) -> Seq<AuditEntryView> {
    entries.map_values(|e: AuditEntry| e@)
}

} // verus!
