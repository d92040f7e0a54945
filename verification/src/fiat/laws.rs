//! What holds of the books across operations.

use vstd::prelude::*;

use super::book::{idempotency_key, BookView, Readiness};
use super::policy::{Gate, SpendDenialView, SpendRequestView};
use super::policy_laws::law_recorded_spend_counts_in_its_window;
use super::records::{AuditEntryView, AuditEventView, RailOutcomeView};
use crate::ledger::laws::{
    law_operation_conserves_credits, law_operation_keeps_ledger_well_formed,
    law_release_undoes_reserve, law_reserve_and_commit_is_a_spend, LedgerOp,
};
use crate::ledger::model::LedgerView;
use crate::ledger::sum::lemma_sum_remove;
use crate::ledger::types::{credit_limit, Credits, ReservationId, Timestamp};
use crate::text::{decimal, lemma_decimal_injective};

verus! {

/// An operation on the books, with its arguments. An executed spend comes with what the rail
/// answers if it is asked.
pub enum BookOp {
    Reserve(SpendRequestView, Timestamp),
    Execute(ReservationId, RailOutcomeView, Timestamp),
    Refund(Credits, Timestamp),
}

/// What `op` does to the ledger, as an operation of the ledger.
pub open spec fn ledger_op(book: BookView, op: BookOp) -> Option<LedgerOp> {
    match op {
        BookOp::Reserve(req, now) => if book.reserve_denial(req, now) is None {
            Some(LedgerOp::Reserve(req.amount, book.ttl, now))
        } else {
            None
        },
        BookOp::Execute(id, answer, now) => match book.readiness(id, now) {
            Readiness::Unknown => None,
            Readiness::Expired => Some(LedgerOp::Release(id)),
            Readiness::Ready => match answer {
                RailOutcomeView::Approved { .. } => Some(LedgerOp::Commit(id, now)),
                RailOutcomeView::Declined { .. } => Some(LedgerOp::Release(id)),
            },
        },
        BookOp::Refund(amount, now) => Some(LedgerOp::Fund(amount)),
    }
}

impl BookView {
    /// Whether a number is left for the reservation that `op` makes, if it makes one.
    pub open spec fn admits(self, op: BookOp) -> bool {
        match op {
            BookOp::Reserve(req, now) => self.reserve_denial(req, now) is None
                ==> self.ledger.next_id < u64::MAX,
            _ => true,
        }
    }

    /// The books after `op`, refused or not.
    pub open spec fn step(self, op: BookOp) -> BookView {
        match op {
            BookOp::Reserve(req, now) => match self.reserve_denial(req, now) {
                Some(denial) => self.after_denial(req, denial, now),
                None => self.after_reserve(req, now),
            },
            BookOp::Execute(id, answer, now) => match self.readiness(id, now) {
                Readiness::Unknown => self,
                Readiness::Expired => self.after_release(id, "expired"@, now),
                Readiness::Ready => self.after_settlement(id, answer, now),
            },
            BookOp::Refund(amount, now) => self.after_refund(amount, now),
        }
    }

    /// The books after `ops`, one after the other.
    pub open spec fn run(self, ops: Seq<BookOp>) -> BookView
        decreases ops.len(),
    {
        if ops.len() == 0 {
            self
        } else {
            self.run(ops.drop_last()).step(ops.last())
        }
    }

    /// Whether numbers are left for all reservations that `ops` make.
    pub open spec fn admits_all(self, ops: Seq<BookOp>) -> bool
        decreases ops.len(),
    {
        ops.len() > 0 ==> {
            &&& self.admits_all(ops.drop_last())
            &&& self.run(ops.drop_last()).admits(ops.last())
        }
    }
}

/// What `ops` refund in all.
pub open spec fn refunds(ops: Seq<BookOp>) -> nat
    decreases ops.len(),
{
    if ops.len() == 0 {
        0
    } else {
        refunds(ops.drop_last()) + match ops.last() {
            BookOp::Refund(amount, _) => amount@,
            _ => 0,
        }
    }
}

/// An operation on the books moves credits only by one operation of the ledger, or not at all.
pub proof fn law_books_move_credits_through_the_ledger(book: BookView, op: BookOp)
    requires
        book.wf(),
    ensures
        book.step(op).ledger == match ledger_op(book, op) {
            Some(l) => book.ledger.step(l),
            None => book.ledger,
        },
{
}

/// Every operation, refused or not, leaves the books well formed: the ledger is, and every open
/// spend has its amount in escrow.
pub proof fn law_operation_keeps_books_well_formed(book: BookView, op: BookOp)
    requires
        book.wf(),
        book.admits(op),
    ensures
        book.step(op).wf(),
{
    match ledger_op(book, op) {
        Some(l) => law_operation_keeps_ledger_well_formed(book.ledger, l),
        None => {},
    }
}

/// Whatever is done, books that are well formed stay so.
pub proof fn law_history_keeps_books_well_formed(book: BookView, ops: Seq<BookOp>)
    requires
        book.wf(),
        book.admits_all(ops),
    ensures
        book.run(ops).wf(),
    decreases ops.len(),
{
    if ops.len() > 0 {
        law_history_keeps_books_well_formed(book, ops.drop_last());
        law_operation_keeps_books_well_formed(book.run(ops.drop_last()), ops.last());
    }
}

/// Whatever is done, while the deposits and refunds can be counted, credits are conserved
/// exactly.
pub proof fn law_history_of_books_conserves_credits(book: BookView, ops: Seq<BookOp>)
    requires
        book.wf(),
        book.admits_all(ops),
        book.ledger.conserved(),
        book.ledger.funded + refunds(ops) <= credit_limit(),
    ensures
        book.run(ops).ledger.conserved(),
        book.run(ops).ledger.funded == book.ledger.funded + refunds(ops),
    decreases ops.len(),
{
    if ops.len() > 0 {
        let before = book.run(ops.drop_last());
        law_history_of_books_conserves_credits(book, ops.drop_last());
        law_history_keeps_books_well_formed(book, ops.drop_last());
        match ledger_op(before, ops.last()) {
            Some(l) => law_operation_conserves_credits(before.ledger, l),
            None => {},
        }
    }
}

/// The audit trail is only ever appended to, whatever is done.
pub proof fn law_audit_trail_is_append_only(book: BookView, ops: Seq<BookOp>)
    ensures
        book.audit.is_prefix_of(book.run(ops).audit),
    decreases ops.len(),
{
    if ops.len() > 0 {
        law_audit_trail_is_append_only(book, ops.drop_last());
    }
}

/// Whether the record `entry` accounts for the ledger going from `before` to `after`.
pub open spec fn accounts_for(
    before: LedgerView,
    entry: AuditEntryView,
    after: LedgerView,
) -> bool {
    match entry.event {
        AuditEventView::Reserved => {
            &&& entry.reservation_id == Some(ReservationId(before.next_id as u64))
            &&& after.spendable + entry.amount@ == before.spendable
            &&& after.held.contains_key(before.next_id as u64)
            &&& after.held[before.next_id as u64].amount == entry.amount
        },
        AuditEventView::Denied { .. } => after == before,
        AuditEventView::Committed { .. } => {
            &&& entry.reservation_id matches Some(id)
            &&& before.holds(id)
            &&& before.held[id.0].amount == entry.amount
            &&& after == before.after_commit(id)
        },
        AuditEventView::Released { .. } => {
            &&& entry.reservation_id matches Some(id)
            &&& before.holds(id)
            &&& before.held[id.0].amount == entry.amount
            &&& after == before.after_release(id)
        },
        AuditEventView::Refunded => {
            &&& entry.reservation_id is None
            &&& after == before.after_fund(entry.amount)
        },
    }
}

/// Every movement of credits is on the trail: an operation leaves the books as they are, or adds
/// one record, which accounts for what the ledger did.
pub proof fn law_every_movement_is_audited(book: BookView, op: BookOp)
    requires
        book.wf(),
    ensures
        ({
            let next = book.step(op);
            ||| next == book
            ||| {
                &&& next.audit.len() == book.audit.len() + 1
                &&& next.audit.drop_last() == book.audit
                &&& accounts_for(book.ledger, next.audit.last(), next.ledger)
            }
        }),
{
    let next = book.step(op);
    if next.audit.len() > 0 {
        assert(next.audit.len() == book.audit.len() + 1 ==> next.audit.drop_last() =~= book.audit);
    }
}

/// The credits committed on a trail.
pub open spec fn committed_on(trail: Seq<AuditEntryView>) -> nat
    decreases trail.len(),
{
    if trail.len() == 0 {
        0
    } else {
        committed_on(trail.drop_last()) + if trail.last().event is Committed {
            trail.last().amount@
        } else {
            0
        }
    }
}

/// What the ledger consumed is what the trail shows as committed, whatever is done, while the
/// deposits and refunds can be counted.
pub proof fn law_trail_accounts_for_all_consumed_credits(book: BookView, ops: Seq<BookOp>)
    requires
        book.wf(),
        book.admits_all(ops),
        book.ledger.conserved(),
        book.ledger.funded + refunds(ops) <= credit_limit(),
    ensures
        book.run(ops).ledger.consumed + committed_on(book.audit) == book.ledger.consumed
            + committed_on(book.run(ops).audit),
    decreases ops.len(),
{
    if ops.len() > 0 {
        let before = book.run(ops.drop_last());
        law_trail_accounts_for_all_consumed_credits(book, ops.drop_last());
        law_history_keeps_books_well_formed(book, ops.drop_last());
        law_history_of_books_conserves_credits(book, ops.drop_last());
        law_history_of_books_conserves_credits(book, ops);
        law_every_movement_is_audited(before, ops.last());
        match ops.last() {
            BookOp::Execute(id, _, _) => {
                if before.ledger.holds(id) {
                    lemma_sum_remove(before.ledger.held, id.0);
                }
            },
            _ => {},
        }
    }
}

/// A refused request leaves escrow, policy and open spends as they are, and says which gate
/// refused it: the policy if it does, else the ledger. It is never to be retried.
pub proof fn law_refused_request_moves_nothing(
    book: BookView,
    req: SpendRequestView,
    now: Timestamp,
)
    requires
        book.reserve_denial(req, now) is Some,
    ensures
        ({
            let denial = book.reserve_denial(req, now).unwrap();
            let next = book.step(BookOp::Reserve(req, now));
            &&& next.ledger == book.ledger
            &&& next.policy == book.policy
            &&& next.pending == book.pending
            &&& denial.gate == if book.policy.refusal_with(req, book.open_sum(now), now) is Some {
                Gate::Policy
            } else {
                Gate::Ledger
            }
            &&& !denial.retryable
        }),
{
}

/// The rail is asked only about a spend whose amount is in escrow and can be committed.
pub proof fn law_rail_is_asked_only_for_escrowed_spends(
    book: BookView,
    id: ReservationId,
    now: Timestamp,
)
    requires
        book.wf(),
        book.readiness(id, now) is Ready,
    ensures
        book.ledger.holds(id),
        book.ledger.held[id.0].amount == book.pending[id.0].amount,
        book.ledger.commit_error(id, now) is None,
{
}

/// A spend that the rail declines, or that expires, gives back exactly what it took: of the
/// reservation only its number is used up. A decline is a refusal by the rail, never to be
/// retried.
pub proof fn law_released_spend_is_undone(
    book: BookView,
    req: SpendRequestView,
    reason: Seq<char>,
    now: Timestamp,
    later: Timestamp,
)
    requires
        book.wf(),
        book.reserve_denial(req, now) is None,
    ensures
        ({
            let id = ReservationId(book.ledger.next_id as u64);
            let held = book.after_reserve(req, now);
            let next = held.after_release(id, reason, later);
            &&& next.ledger == (LedgerView {
                next_id: book.ledger.next_id + 1,
                ..book.ledger
            })
            &&& next.policy == book.policy
            &&& next.pending == book.pending
            &&& held.settlement(id, RailOutcomeView::Declined { reason }) matches Err(denial)
            &&& denial == (SpendDenialView { gate: Gate::Rail, reason, retryable: false })
        }),
{
    let k = book.ledger.next_id as u64;
    law_release_undoes_reserve(book.ledger, req.amount, book.ttl, now);
    assert(!book.pending.contains_key(k));
    assert(book.pending.insert(k, req).remove(k) =~= book.pending);
}

/// A spend that the rail approves takes exactly what was asked for, once, and counts against the
/// policy's window.
pub proof fn law_approved_spend_takes_its_amount_once(
    book: BookView,
    req: SpendRequestView,
    txn_id: Seq<char>,
    now: Timestamp,
    later: Timestamp,
)
    requires
        book.wf(),
        book.reserve_denial(req, now) is None,
    ensures
        ({
            let id = ReservationId(book.ledger.next_id as u64);
            let next = book.after_reserve(req, now).after_commit(id, txn_id, later);
            &&& next.ledger == (LedgerView {
                next_id: book.ledger.next_id + 1,
                ..book.ledger.after_spend(req.amount)
            })
            &&& next.policy == book.policy.after_record(req.amount, later)
            &&& next.pending == book.pending
        }),
{
    let k = book.ledger.next_id as u64;
    law_reserve_and_commit_is_a_spend(book.ledger, req.amount, book.ttl, now);
    assert(!book.pending.contains_key(k));
    assert(book.pending.insert(k, req).remove(k) =~= book.pending);
}

/// An open spend stays as it was asked for, whatever is done to others, and a number given out
/// before is never opened anew.
pub proof fn law_open_spend_keeps_its_request(book: BookView, ops: Seq<BookOp>, id: ReservationId)
    requires
        book.wf(),
        book.admits_all(ops),
        id.0 < book.ledger.next_id,
    ensures
        id.0 < book.run(ops).ledger.next_id,
        book.run(ops).pending.contains_key(id.0) ==> {
            &&& book.pending.contains_key(id.0)
            &&& book.run(ops).pending[id.0] == book.pending[id.0]
        },
    decreases ops.len(),
{
    if ops.len() > 0 {
        law_open_spend_keeps_its_request(book, ops.drop_last(), id);
    }
}

/// Whatever happens between, an approved spend is settled for what was asked for when it was
/// reserved: the receipt is for that amount, the record shows it, the ledger consumes it, and the
/// policy counts it.
pub proof fn law_receipt_is_for_what_was_asked(
    book: BookView,
    req: SpendRequestView,
    reserved: Timestamp,
    ops: Seq<BookOp>,
    txn_id: Seq<char>,
    now: Timestamp,
)
    requires
        book.wf(),
        book.admits(BookOp::Reserve(req, reserved)),
        book.reserve_denial(req, reserved) is None,
        book.step(BookOp::Reserve(req, reserved)).admits_all(ops),
        book.step(BookOp::Reserve(req, reserved)).run(ops).pending.contains_key(
            book.ledger.next_id as u64,
        ),
    ensures
        ({
            let id = ReservationId(book.ledger.next_id as u64);
            let answer = RailOutcomeView::Approved { txn_id };
            let open = book.step(BookOp::Reserve(req, reserved)).run(ops);
            let next = open.after_settlement(id, answer, now);
            &&& open.pending[id.0] == req
            &&& open.settlement(id, answer) matches Ok(receipt)
            &&& receipt.reservation_id == id
            &&& receipt.amount == req.amount
            &&& receipt.txn_id == txn_id
            &&& next.audit.len() == open.audit.len() + 1
            &&& next.audit.last().amount == req.amount
            &&& next.audit.last().reservation_id == Some(id)
            &&& next.ledger.consumed == if open.ledger.consumed + req.amount.amount <= u64::MAX {
                open.ledger.consumed + req.amount.amount
            } else {
                u64::MAX as int
            }
            &&& next.policy.spent(now) == open.policy.spent(now) + req.amount.amount
        }),
{
    let id = ReservationId(book.ledger.next_id as u64);
    let start = book.step(BookOp::Reserve(req, reserved));
    law_operation_keeps_books_well_formed(book, BookOp::Reserve(req, reserved));
    law_history_keeps_books_well_formed(start, ops);
    law_open_spend_keeps_its_request(start, ops, id);
    law_recorded_spend_counts_in_its_window(start.run(ops).policy, req.amount, now, now);
}

/// Refunding an approved spend in full brings the spendable balance back to what it was before
/// the spend was reserved, and while the refund can be counted, credits are conserved across the
/// round trip.
pub proof fn law_refund_restores_the_balance(
    book: BookView,
    req: SpendRequestView,
    txn_id: Seq<char>,
    now: Timestamp,
    later: Timestamp,
)
    requires
        book.wf(),
        book.reserve_denial(req, now) is None,
    ensures
        ({
            let id = ReservationId(book.ledger.next_id as u64);
            let next = book.after_reserve(req, now).after_commit(id, txn_id, later).after_refund(
                req.amount,
                later,
            );
            &&& next.ledger.spendable == book.ledger.spendable
            &&& next.ledger.reserved() == book.ledger.reserved()
            &&& book.ledger.conserved() && book.ledger.funded + req.amount@ <= credit_limit()
                ==> next.ledger.conserved()
        }),
{
    law_approved_spend_takes_its_amount_once(book, req, txn_id, now, later);
}

/// Refunding an approved spend in full, whenever it is done, brings the spendable balance back to
/// what it was before the spend was reserved, and while the refund can be counted, credits are
/// conserved across the round trip. The policy still counts the spend, in every window that
/// ends when it settled or later and reaches back to it.
pub proof fn law_late_refund_restores_the_balance(
    book: BookView,
    req: SpendRequestView,
    txn_id: Seq<char>,
    reserved: Timestamp,
    settled: Timestamp,
    refunded: Timestamp,
    now: Timestamp,
)
    requires
        book.wf(),
        book.reserve_denial(req, reserved) is None,
    ensures
        ({
            let id = ReservationId(book.ledger.next_id as u64);
            let next = book.after_reserve(req, reserved).after_commit(
                id,
                txn_id,
                settled,
            ).after_refund(req.amount, refunded);
            &&& next.ledger.spendable == book.ledger.spendable
            &&& next.ledger.reserved() == book.ledger.reserved()
            &&& book.ledger.conserved() && book.ledger.funded + req.amount@ <= credit_limit()
                ==> next.ledger.conserved()
            &&& next.policy == book.policy.after_record(req.amount, settled)
            &&& settled.millis <= now.millis ==> next.policy.spent(now) == book.policy.spent(now)
                + if settled.millis >= book.policy.window_start(now) {
                req.amount@
            } else {
                0
            }
        }),
{
    law_approved_spend_takes_its_amount_once(book, req, txn_id, reserved, settled);
    if settled.millis <= now.millis {
        law_recorded_spend_counts_in_its_window(book.policy, req.amount, settled, now);
    }
}

/// A spend that is not open under a number given out before never becomes open again: once
/// executed, approved or not, it cannot be executed a second time, whatever is done.
pub proof fn law_closed_spend_never_reopens(book: BookView, id: ReservationId, ops: Seq<BookOp>)
    requires
        book.wf(),
        book.admits_all(ops),
        id.0 < book.ledger.next_id,
        !book.pending.contains_key(id.0),
    ensures
        id.0 < book.run(ops).ledger.next_id,
        !book.run(ops).pending.contains_key(id.0),
    decreases ops.len(),
{
    if ops.len() > 0 {
        law_closed_spend_never_reopens(book, id, ops.drop_last());
    }
}

/// Executing a spend closes it, whatever the rail answers.
pub proof fn law_executed_spend_is_closed(
    book: BookView,
    id: ReservationId,
    answer: RailOutcomeView,
    now: Timestamp,
    later: Timestamp,
)
    ensures
        book.step(BookOp::Execute(id, answer, now)).readiness(id, later) is Unknown,
{
}

/// Different spends go to the rail under different keys.
pub proof fn law_idempotency_keys_are_distinct(a: ReservationId, b: ReservationId)
    requires
        idempotency_key(a) == idempotency_key(b),
    ensures
        a == b,
{
    let prefix = "resv-"@;
    let n = prefix.len() as int;
    assert(idempotency_key(a).skip(n) =~= decimal(a.0 as nat));
    assert(idempotency_key(b).skip(n) =~= decimal(b.0 as nat));
    lemma_decimal_injective(a.0 as nat, b.0 as nat);
}

} // verus!
