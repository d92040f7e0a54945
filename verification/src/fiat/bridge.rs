//! The bridge: a spend passes the policy, the ledger and the payment rail, in this order.

use vstd::prelude::*;

use super::book::{idempotency_key, unknown_reason, BookView, Readiness, SpendBook};
use super::laws::BookOp;
use super::policy::{Gate, SpendDenial, SpendDenialView, SpendPolicyGate, SpendRequest};
use super::records::{settlement_view, trail, AuditEntry, RailOutcome, SpendReceipt};
use crate::ledger::reservation::ReservationLedger;
use crate::ledger::types::{capped, Credits, Duration, ReservationId, Timestamp};

verus! {

/// The payment rail (Gate 3).
pub trait SpendRail {
    /// Asks the rail to charge for `req`. Calls with the same `idempotency_key` are one charge.
    fn authorize(&mut self, req: &SpendRequest, idempotency_key: &str) -> RailOutcome;
}

/// What a bridge holds.
pub struct BridgeView<R> {
    pub book: BookView,
    pub rail: R,
}

/// The crossing from credits to fiat, over the ledger of a single account.
pub struct StripeBridge<R: SpendRail> {
    book: SpendBook,
    rail: R,
}

impl<R: SpendRail> View for StripeBridge<R> {
    type V = BridgeView<R>;

    closed spec fn view(&self) -> BridgeView<R> {
        BridgeView { book: self.book@, rail: self.rail }
    }
}

impl<R: SpendRail> StripeBridge<R> {
    /// The books of the bridge are well formed.
    pub closed spec fn book_wf(&self) -> bool {
        self.book.wf()
    }

    /// What holds of every bridge.
    pub open spec fn wf(&self) -> bool {
        &&& self.book_wf()
        &&& self@.book.wf()
    }

    /// A bridge over `ledger`, whose reservations may be used for `ttl`.
    pub fn new(ledger: ReservationLedger, policy: SpendPolicyGate, rail: R, ttl: Duration) -> (b:
        Self)
        requires
            ledger.wf(),
        ensures
            b.wf(),
            b@ == (BridgeView {
                book: BookView {
                    ledger: ledger@,
                    policy: policy@,
                    ttl,
                    pending: Map::empty(),
                    audit: Seq::empty(),
                },
                rail,
            }),
    {
        StripeBridge { book: SpendBook::new(ledger, policy, ttl), rail }
    }

    /// The spendable balance.
    pub fn balance(&self) -> (c: Credits)
        ensures
            c@ == self@.book.ledger.spendable,
    {
        self.book.balance()
    }

    /// The credits in escrow.
    pub fn reserved(&self) -> (c: Credits)
        requires
            self.wf(),
        ensures
            c@ == capped(self@.book.ledger.reserved()),
    {
        self.book.reserved()
    }

    /// The audit trail, oldest first.
    pub fn audit(&self) -> (entries: &[AuditEntry])
        ensures
            trail(entries@) == self@.book.audit,
    {
        self.book.audit()
    }

    /// Whether a number is left for another reservation.
    pub fn can_number_another(&self) -> (b: bool)
        ensures
            b == (self@.book.ledger.next_id < u64::MAX),
    {
        self.book.can_number_another()
    }

    /// Reserves the credits for `req`: the policy is asked first, then the ledger. Open spends
    /// count against the policy's window until they settle or expire. The rail is not called.
    /// A refusal puts nothing in escrow.
    pub fn reserve(&mut self, req: SpendRequest, now: Timestamp) -> (r: Result<
        ReservationId,
        SpendDenial,
    >)
        requires
            old(self).wf(),
            old(self)@.book.reserve_denial(req@, now) is None ==> old(self)@.book.ledger.next_id
                < u64::MAX,
        ensures
            final(self).wf(),
            final(self)@.book == old(self)@.book.step(BookOp::Reserve(req@, now)),
            final(self)@.rail == old(self)@.rail,
            match old(self)@.book.reserve_denial(req@, now) {
                Some(denial) => {
                    &&& r matches Err(d)
                    &&& d@ == denial
                    &&& final(self)@.book == old(self)@.book.after_denial(req@, denial, now)
                },
                None => {
                    &&& r matches Ok(id)
                    &&& id.0 == old(self)@.book.ledger.next_id
                    &&& final(self)@.book == old(self)@.book.after_reserve(req@, now)
                },
            },
    {
        self.book.reserve(req, now)
    }

    /// Executes the reserved spend `id`: the rail is called, with a key made of the id, and its
    /// answer entered.
    ///
    /// An unknown spend is refused, and so is an expired one, whose credits are released; the
    /// rail is called for neither.
    pub fn execute(&mut self, id: ReservationId, now: Timestamp) -> (r: Result<
        SpendReceipt,
        SpendDenial,
    >)
        requires
            old(self).wf(),
        ensures
            final(self).wf(),
            match old(self)@.book.readiness(id, now) {
                Readiness::Unknown => {
                    &&& r matches Err(d)
                    &&& d@ == SpendDenialView::of(Gate::Ledger, unknown_reason(id))
                    &&& final(self)@ == old(self)@
                },
                Readiness::Expired => {
                    &&& r matches Err(d)
                    &&& d@ == SpendDenialView::of(Gate::Ledger, "reservation expired"@)
                    &&& final(self)@.book == old(self)@.book.after_release(id, "expired"@, now)
                    &&& final(self)@.rail == old(self)@.rail
                },
                Readiness::Ready => exists|
                    rail: &mut R,
                    req: &SpendRequest,
                    key: &str,
                    outcome: RailOutcome,
                |
                    {
                        &&& #[trigger] call_ensures(R::authorize, (rail, req, key), outcome)
                        &&& *rail == old(self)@.rail
                        &&& *final(rail) == final(self)@.rail
                        &&& req@ == old(self)@.book.pending[id.0]
                        &&& key@ == idempotency_key(id)
                        &&& settlement_view(r) == old(self)@.book.settlement(id, outcome@)
                        &&& final(self)@.book == old(self)@.book.after_settlement(
                            id,
                            outcome@,
                            now,
                        )
                        &&& final(self)@.book == old(self)@.book.step(
                            BookOp::Execute(id, outcome@, now),
                        )
                    },
            },
    {
        let (req, key) = match self.book.prepare(id, now) {
            Ok(prepared) => prepared,
            Err(denial) => return Err(denial),
        };
        let outcome = self.rail.authorize(&req, key.as_str());
        self.book.settle(id, outcome, now)
    }

    /// Refunds a settled spend: the credits are deposited again.
    pub fn refund(&mut self, amount: Credits, now: Timestamp)
        requires
            old(self).wf(),
        ensures
            final(self).wf(),
            final(self)@.book == old(self)@.book.step(BookOp::Refund(amount, now)),
            final(self)@.rail == old(self)@.rail,
            final(self)@.book == old(self)@.book.after_refund(amount, now),
    {
        self.book.refund(amount, now);
    }
}

} // verus!
