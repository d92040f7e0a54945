//! What each call on the bridge returns and changes, in plain numbers.
//!
//! `before` and `after` are a bridge before and after one call, `r` is what the call returned.

use vstd::prelude::*;

use super::book::{BookView, SpendBook};
use super::bridge::{SpendRail, StripeBridge};
use super::call_laws::{lemma_recent, says};
use super::policy::{
    PolicyView, Settled, SpendDenial, SpendPolicyGate, SpendRequest, SpendRequestView,
};
use super::records::{AuditEntry, AuditEntryView, AuditEventView, RailOutcome, SpendReceipt};
use crate::ledger::model::LedgerView;
use crate::ledger::reservation::ReservationLedger;
use crate::ledger::types::{Credits, Duration, ReservationId, Timestamp};
use crate::text::decimal;

verus! {

/// A new bridge keeps what it is made of, with no open spend and nothing on the trail.
pub proof fn law_new_bridge_is_blank<R: SpendRail>(
    ledger: ReservationLedger,
    policy: SpendPolicyGate,
    rail: R,
    ttl: Duration,
    r: StripeBridge<R>,
)
    requires
        ledger.wf(),
        call_ensures(StripeBridge::<R>::new, (ledger, policy, rail, ttl), r),
    ensures
        r@.book.ledger == ledger@,
        r@.book.policy == policy@,
        r@.book.ttl == ttl,
        r@.book.pending == Map::<u64, SpendRequestView>::empty(),
        r@.book.audit.len() == 0,
        r@.rail == rail,
{
}

/// A bridge shows its pools and its whole trail.
pub proof fn law_bridge_shows_its_trail<R: SpendRail>(
    bridge: StripeBridge<R>,
    balance: Credits,
    reserved: Credits,
    more: bool,
    entries: &[AuditEntry],
    i: int,
)
    requires
        bridge.wf(),
        call_ensures(StripeBridge::<R>::balance, (&bridge,), balance),
        call_ensures(StripeBridge::<R>::reserved, (&bridge,), reserved),
        call_ensures(StripeBridge::<R>::can_number_another, (&bridge,), more),
        call_ensures(StripeBridge::<R>::audit, (&bridge,), entries),
    ensures
        balance.amount == bridge@.book.ledger.spendable,
        bridge@.book.ledger.reserved() <= u64::MAX ==> reserved.amount
            == bridge@.book.ledger.reserved(),
        bridge@.book.ledger.reserved() > u64::MAX ==> reserved.amount == u64::MAX,
        more <==> bridge@.book.ledger.next_id < u64::MAX,
        entries@.len() == bridge@.book.audit.len(),
        0 <= i < entries@.len() ==> {
            &&& entries@[i].reservation_id == bridge@.book.audit[i].reservation_id
            &&& entries@[i].amount == bridge@.book.audit[i].amount
            &&& entries@[i].at == bridge@.book.audit[i].at
            &&& says(entries@[i].event, bridge@.book.audit[i].event)
        },
{
    if 0 <= i < entries@.len() {
        assert(bridge@.book.audit[i] == entries@[i]@);
    }
}

/// A bridge reserves a spend just as its books do, with the same result, and the rail is not
/// called.
pub proof fn law_bridge_reserves_as_its_books<R: SpendRail>(
    before: StripeBridge<R>,
    after: StripeBridge<R>,
    book: SpendBook,
    book_after: SpendBook,
    req: SpendRequest,
    now: Timestamp,
    r: Result<ReservationId, SpendDenial>,
    book_r: Result<ReservationId, SpendDenial>,
)
    requires
        before.wf(),
        book@ == before@.book,
        exists|b: &mut StripeBridge<R>|
            {
                &&& #[trigger] call_ensures(StripeBridge::<R>::reserve, (b, req, now), r)
                &&& *b == before
                &&& *final(b) == after
            },
        exists|b: &mut SpendBook|
            {
                &&& #[trigger] call_ensures(SpendBook::reserve, (b, req, now), book_r)
                &&& *b == book
                &&& *final(b) == book_after
            },
    ensures
        after.wf(),
        after@.book == book_after@,
        after@.rail == before@.rail,
        r is Ok <==> book_r is Ok,
        r matches Ok(id) ==> book_r matches Ok(other) && id == other,
        r matches Err(d) ==> book_r matches Err(other) && d.gate == other.gate && d.reason@
            == other.reason@ && d.retryable == other.retryable,
{
}

/// A bridge makes a refund just as its books do, and the rail is not called.
pub proof fn law_bridge_refunds_as_its_books<R: SpendRail>(
    before: StripeBridge<R>,
    after: StripeBridge<R>,
    book: SpendBook,
    book_after: SpendBook,
    amount: Credits,
    now: Timestamp,
)
    requires
        before.wf(),
        book@ == before@.book,
        exists|b: &mut StripeBridge<R>|
            {
                &&& #[trigger] call_ensures(StripeBridge::<R>::refund, (b, amount, now), ())
                &&& *b == before
                &&& *final(b) == after
            },
        exists|b: &mut SpendBook|
            {
                &&& #[trigger] call_ensures(SpendBook::refund, (b, amount, now), ())
                &&& *b == book
                &&& *final(b) == book_after
            },
    ensures
        after.wf(),
        after@.book == book_after@,
        after@.rail == before@.rail,
{
}

/// The rail is asked for exactly the open spends whose ttl has not elapsed, once per call, for
/// what was asked for and under a key made of the number. On approval the receipt is for the
/// amount asked for and held, which the ledger consumes, the policy counts and the record shows,
/// with the transaction that the rail named. On a decline the spend is refused for the rail's
/// reason; from its ttl on, it is refused as expired. Then its amount is spendable again, and one
/// record says why. A spend that is not open is refused, and nothing changes.
pub proof fn law_execution_is_for_the_amount_asked<R: SpendRail>(
    before: StripeBridge<R>,
    after: StripeBridge<R>,
    id: ReservationId,
    now: Timestamp,
    r: Result<SpendReceipt, SpendDenial>,
)
    requires
        before.wf(),
        exists|b: &mut StripeBridge<R>|
            {
                &&& #[trigger] call_ensures(StripeBridge::<R>::execute, (b, id, now), r)
                &&& *b == before
                &&& *final(b) == after
            },
    ensures
        after.wf(),
        ({
            let book = before@.book;
            let ledger = book.ledger;
            let held = ledger.held[id.0];
            let asked = book.pending[id.0];
            let live = now.millis < held.created_at.millis + held.ttl.millis;
            let consumed = ledger.consumed + asked.amount.amount;
            let spendable = ledger.spendable + asked.amount.amount;
            // What is left when the spend is released for `reason`.
            let released = |reason: Seq<char>|
                BookView {
                    ledger: LedgerView {
                        spendable: if spendable <= u64::MAX {
                            spendable as nat
                        } else {
                            u64::MAX as nat
                        },
                        held: ledger.held.remove(id.0),
                        ..ledger
                    },
                    pending: book.pending.remove(id.0),
                    audit: book.audit.push(
                        AuditEntryView {
                            reservation_id: Some(id),
                            amount: asked.amount,
                            event: AuditEventView::Released { reason },
                            at: now,
                        },
                    ),
                    ..book
                };
            if !book.pending.contains_key(id.0) {
                &&& r matches Err(denial)
                &&& denial.gate is Ledger
                &&& denial.reason@ == "unknown reservation: ReservationId("@ + decimal(id.0 as nat)
                    + ")"@
                &&& !denial.retryable
                &&& after@ == before@
            } else if !live {
                &&& r matches Err(denial)
                &&& denial.gate is Ledger
                &&& denial.reason@ == "reservation expired"@
                &&& !denial.retryable
                &&& after@.book == released("expired"@)
                &&& after@.rail == before@.rail
            } else {
                exists|rail: &mut R, req: &SpendRequest, key: &str, outcome: RailOutcome|
                    {
                        &&& #[trigger] call_ensures(R::authorize, (rail, req, key), outcome)
                        &&& *rail == before@.rail
                        &&& *final(rail) == after@.rail
                        &&& req.amount == asked.amount
                        &&& req.purpose@ == asked.purpose
                        &&& req.category@ == asked.category
                        &&& req.merchant@ == asked.merchant
                        &&& key@ == "resv-"@ + decimal(id.0 as nat)
                        &&& match outcome {
                            RailOutcome::Approved { txn_id } => {
                                &&& r matches Ok(receipt)
                                &&& receipt.reservation_id == id
                                &&& receipt.amount == asked.amount
                                &&& receipt.amount == held.amount
                                &&& receipt.txn_id@ == txn_id@
                                &&& after@.book == (BookView {
                                    ledger: LedgerView {
                                        consumed: if consumed <= u64::MAX {
                                            consumed as nat
                                        } else {
                                            u64::MAX as nat
                                        },
                                        held: ledger.held.remove(id.0),
                                        ..ledger
                                    },
                                    policy: PolicyView {
                                        history: book.policy.history.push(
                                            (now, asked.amount),
                                        ).filter(
                                            |e: Settled|
                                                now.millis - e.0.millis
                                                    <= book.policy.config.window.millis,
                                        ),
                                        ..book.policy
                                    },
                                    pending: book.pending.remove(id.0),
                                    audit: book.audit.push(
                                        AuditEntryView {
                                            reservation_id: Some(id),
                                            amount: asked.amount,
                                            event: AuditEventView::Committed { txn_id: txn_id@ },
                                            at: now,
                                        },
                                    ),
                                    ..book
                                })
                            },
                            RailOutcome::Declined { reason } => {
                                &&& r matches Err(denial)
                                &&& denial.gate is Rail
                                &&& denial.reason@ == reason@
                                &&& !denial.retryable
                                &&& after@.book == released(reason@)
                            },
                        }
                    }
            }
        }),
{
    lemma_recent(before@.book.policy, now);
}

/// Every operation may be asked of a bridge at any time, with any arguments, except that a
/// reservation needs a number that is left.
pub proof fn law_bridge_may_always_be_asked<R: SpendRail>(
    req: SpendRequest,
    amount: Credits,
    id: ReservationId,
    now: Timestamp,
)
    ensures
        forall|b: &mut StripeBridge<R>|
            (*b).wf() && (*b)@.book.ledger.next_id < u64::MAX ==> #[trigger] call_requires(
                StripeBridge::<R>::reserve,
                (b, req, now),
            ),
        forall|b: &mut StripeBridge<R>|
            (*b).wf() ==> #[trigger] call_requires(StripeBridge::<R>::execute, (b, id, now)),
        forall|b: &mut StripeBridge<R>|
            (*b).wf() ==> #[trigger] call_requires(StripeBridge::<R>::refund, (b, amount, now)),
{
}

} // verus!
