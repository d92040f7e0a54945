//! The books of the bridge: everything about a spend but the call of the payment rail.

use std::collections::HashMap;

use vstd::prelude::*;
use vstd::set_lib::lemma_set_subset_finite;

use super::laws::BookOp;
use super::policy::{
    Gate, PolicyView, SpendDenial, SpendDenialView, SpendPolicyGate, SpendRequest, SpendRequestView,
};
use super::records::{
    settlement_view, trail, AuditEntry, AuditEntryView, AuditEvent, AuditEventView, RailOutcome,
    RailOutcomeView, SpendReceipt, SpendReceiptView,
};
use crate::keys::numbers;
use crate::ledger::errors::EnrError;
use crate::ledger::model::LedgerView;
use crate::ledger::reservation::ReservationLedger;
use crate::ledger::sum::{lemma_sum_remove, reserved_sum};
use crate::ledger::types::{
    capped, credit_limit, CreditReservation, Credits, Duration, ReservationId, Timestamp,
};
use crate::text::{decimal, decimal_string};

verus! {

broadcast use vstd::std_specs::hash::group_hash_axioms;

/// The reason given for a refusal by the ledger.
pub open spec fn ledger_reason(e: EnrError) -> Seq<char> {
    match e {
        EnrError::InsufficientCredits { required, available } => "insufficient credits: required "@
            + decimal(required@) + ", available "@ + decimal(available@),
        EnrError::ZeroAmount => "zero-amount spend"@,
        other => other.words(),
    }
}

/// A refusal by the ledger, as a refusal of the spend.
pub fn ledger_denial(e: EnrError) -> (d: SpendDenial)
    ensures
        d@ == SpendDenialView::of(Gate::Ledger, ledger_reason(e)),
{
    match e {
        EnrError::InsufficientCredits { required, available } => {
            let mut reason = "insufficient credits: required ".to_owned();
            reason.append(required.to_text().as_str());
            reason.append(", available ");
            reason.append(available.to_text().as_str());
            SpendDenial::ledger(reason)
        },
        EnrError::ZeroAmount => SpendDenial::ledger("zero-amount spend"),
        other => SpendDenial::ledger(other.to_text()),
    }
}

/// The key under which the rail tells a repeated call for `id` from a new one.
pub open spec fn idempotency_key(id: ReservationId) -> Seq<char> {
    "resv-"@ + decimal(id.0 as nat)
}

/// The reason given where `id` names no open spend.
pub open spec fn unknown_reason(id: ReservationId) -> Seq<char> {
    "unknown reservation: ReservationId("@ + decimal(id.0 as nat) + ")"@
}

/// Where a spend stands when it is to be executed.
pub enum Readiness {
    /// No open spend has that id.
    Unknown,
    /// Its reservation has expired.
    Expired,
    /// The rail can be asked.
    Ready,
}

/// What the books hold.
pub struct BookView {
    pub ledger: LedgerView,
    pub policy: PolicyView,
    /// How long a reservation may be used.
    pub ttl: Duration,
    /// The spends reserved and not settled yet, by number of the reservation.
    pub pending: Map<u64, SpendRequestView>,
    /// The audit trail, oldest first.
    pub audit: Seq<AuditEntryView>,
}

impl BookView {
    /// The ledger is well formed, and every open spend has its amount in escrow.
    pub open spec fn wf(self) -> bool {
        &&& self.ledger.wf()
        &&& forall|k: u64| #[trigger]
            self.pending.contains_key(k) ==> {
                &&& self.ledger.held.contains_key(k)
                &&& self.ledger.held[k].amount == self.pending[k].amount
            }
    }

    /// The reservations of the open spends that are not expired at `now`.
    pub open spec fn open_part(self, now: Timestamp) -> Map<u64, CreditReservation> {
        Map::new(
            |k: u64|
                {
                    &&& self.pending.contains_key(k)
                    &&& self.ledger.held.contains_key(k)
                    &&& !self.ledger.held[k].expired_at(now)
                },
            |k: u64| self.ledger.held[k],
        )
    }

    /// The amounts of the open spends not expired at `now`, added up.
    pub open spec fn open_sum(self, now: Timestamp) -> nat {
        reserved_sum(self.open_part(now))
    }

    /// The books with one more record in the trail.
    pub open spec fn logged(
        self,
        reservation_id: Option<ReservationId>,
        amount: Credits,
        event: AuditEventView,
        at: Timestamp,
    ) -> BookView {
        BookView {
            audit: self.audit.push(AuditEntryView { reservation_id, amount, event, at }),
            ..self
        }
    }

    /// The refusal of `req` at `now`, if it is refused: by the policy, to which the open spends
    /// count like settled ones, else by the ledger.
    pub open spec fn reserve_denial(self, req: SpendRequestView, now: Timestamp) -> Option<
        SpendDenialView,
    > {
        let open = self.open_sum(now);
        match self.policy.refusal_with(req, open, now) {
            Some(why) => Some(
                SpendDenialView::of(Gate::Policy, self.policy.words_with(why, req, open, now)),
            ),
            None => match self.ledger.debit_error(req.amount) {
                Some(e) => Some(SpendDenialView::of(Gate::Ledger, ledger_reason(e))),
                None => None,
            },
        }
    }

    /// `req` was refused.
    pub open spec fn after_denial(
        self,
        req: SpendRequestView,
        denial: SpendDenialView,
        now: Timestamp,
    ) -> BookView {
        self.logged(
            None,
            req.amount,
            AuditEventView::Denied { gate: denial.gate, reason: denial.reason },
            now,
        )
    }

    /// The amount of `req` was put in escrow.
    pub open spec fn after_reserve(self, req: SpendRequestView, now: Timestamp) -> BookView {
        let id = ReservationId(self.ledger.next_id as u64);
        BookView {
            ledger: self.ledger.after_reserve(req.amount, self.ttl, now),
            pending: self.pending.insert(id.0, req),
            ..self
        }.logged(Some(id), req.amount, AuditEventView::Reserved, now)
    }

    /// Where the spend `id` stands at `now`.
    pub open spec fn readiness(self, id: ReservationId, now: Timestamp) -> Readiness {
        if !self.pending.contains_key(id.0) {
            Readiness::Unknown
        } else if self.ledger.holds_expired(id, now) {
            Readiness::Expired
        } else {
            Readiness::Ready
        }
    }

    /// The escrow of the spend `id` was given back for `reason`.
    pub open spec fn after_release(
        self,
        id: ReservationId,
        reason: Seq<char>,
        now: Timestamp,
    ) -> BookView {
        BookView {
            ledger: self.ledger.after_release(id),
            pending: self.pending.remove(id.0),
            ..self
        }.logged(
            Some(id),
            self.pending[id.0].amount,
            AuditEventView::Released { reason },
            now,
        )
    }

    /// The escrow of the spend `id` was spent for good.
    pub open spec fn after_commit(
        self,
        id: ReservationId,
        txn_id: Seq<char>,
        now: Timestamp,
    ) -> BookView {
        let amount = self.pending[id.0].amount;
        BookView {
            ledger: self.ledger.after_commit(id),
            policy: self.policy.after_record(amount, now),
            pending: self.pending.remove(id.0),
            ..self
        }.logged(Some(id), amount, AuditEventView::Committed { txn_id }, now)
    }

    /// The rail answered `outcome` for the spend `id`.
    pub open spec fn after_settlement(
        self,
        id: ReservationId,
        outcome: RailOutcomeView,
        now: Timestamp,
    ) -> BookView {
        match outcome {
            RailOutcomeView::Approved { txn_id } => self.after_commit(id, txn_id, now),
            RailOutcomeView::Declined { reason } => self.after_release(id, reason, now),
        }
    }

    /// What the answer `outcome` of the rail makes of the spend `id`.
    pub open spec fn settlement(self, id: ReservationId, outcome: RailOutcomeView) -> Result<
        SpendReceiptView,
        SpendDenialView,
    > {
        match outcome {
            RailOutcomeView::Approved { txn_id } => Ok(
                SpendReceiptView {
                    reservation_id: id,
                    amount: self.pending[id.0].amount,
                    txn_id,
                },
            ),
            RailOutcomeView::Declined { reason } => Err(SpendDenialView::of(Gate::Rail, reason)),
        }
    }

    /// `amount` was deposited again.
    pub open spec fn after_refund(self, amount: Credits, now: Timestamp) -> BookView {
        BookView { ledger: self.ledger.after_fund(amount), ..self }.logged(
            None,
            amount,
            AuditEventView::Refunded,
            now,
        )
    }
}

/// The ledger, the policy, the open spends and the audit trail of one account.
pub struct SpendBook {
    ledger: ReservationLedger,
    policy: SpendPolicyGate,
    ttl: Duration,
    pending: HashMap<u64, SpendRequest>,
    audit: Vec<AuditEntry>,
}

impl View for SpendBook {
    type V = BookView;

    closed spec fn view(&self) -> BookView {
        BookView {
            ledger: self.ledger@,
            policy: self.policy@,
            ttl: self.ttl,
            pending: self.pending@.map_values(|r: SpendRequest| r@),
            audit: trail(self.audit@),
        }
    }
}

impl SpendBook {
    /// The ledger kept in the books is well formed.
    pub closed spec fn ledger_wf(&self) -> bool {
        self.ledger.wf()
    }

    /// What holds of all books.
    pub open spec fn wf(&self) -> bool {
        &&& self.ledger_wf()
        &&& self@.wf()
    }

    /// Books over `ledger`, with no open spend and an empty trail.
    pub fn new(ledger: ReservationLedger, policy: SpendPolicyGate, ttl: Duration) -> (book: Self)
        requires
            ledger.wf(),
        ensures
            book.wf(),
            book@ == (BookView {
                ledger: ledger@,
                policy: policy@,
                ttl,
                pending: Map::empty(),
                audit: Seq::empty(),
            }),
    {
        let book = SpendBook { ledger, policy, ttl, pending: HashMap::new(), audit: Vec::new() };
        assert(book@.pending =~= Map::empty());
        assert(book@.audit =~= Seq::empty());
        book
    }

    /// The spendable balance.
    pub fn balance(&self) -> (c: Credits)
        ensures
            c@ == self@.ledger.spendable,
    {
        self.ledger.balance()
    }

    /// The credits in escrow.
    pub fn reserved(&self) -> (c: Credits)
        requires
            self.wf(),
        ensures
            c@ == capped(self@.ledger.reserved()),
    {
        self.ledger.reserved_total()
    }

    /// The audit trail, oldest first.
    pub fn audit(&self) -> (entries: &[AuditEntry])
        ensures
            trail(entries@) == self@.audit,
    {
        self.audit.as_slice()
    }

    /// Whether a number is left for another reservation.
    pub fn can_number_another(&self) -> (b: bool)
        ensures
            b == (self@.ledger.next_id < u64::MAX),
    {
        self.ledger.can_number_another()
    }

    /// Appends a record to the audit trail.
    fn log(
        &mut self,
        reservation_id: Option<ReservationId>,
        amount: Credits,
        event: AuditEvent,
        at: Timestamp,
    )
        requires
            old(self).wf(),
        ensures
            final(self).wf(),
            final(self)@ == old(self)@.logged(reservation_id, amount, event@, at),
    {
        self.audit.push(AuditEntry { reservation_id, amount, event, at });
        assert(self@.audit =~= old(self)@.logged(reservation_id, amount, event@, at).audit);
    }

    /// What is promised to open spends that are not expired at `now`.
    fn open_total(&self, now: Timestamp) -> (c: Credits)
        requires
            self.wf(),
        ensures
            c@ == capped(self@.open_sum(now)),
    {
        let keys = numbers(&self.pending);
        let ghost open = self@.open_part(now);
        let ghost mut rest = open;
        let mut total = Credits::zero();
        proof {
            lemma_set_subset_finite(self@.ledger.held.dom(), open.dom());
            assert(rest =~= open.remove_keys(keys@.take(0).to_set()));
        }
        for i in 0..keys.len()
            invariant
                self.wf(),
                open == self@.open_part(now),
                keys@.no_duplicates(),
                keys@.to_set() == self.pending@.dom(),
                rest == open.remove_keys(keys@.take(i as int).to_set()),
                rest.dom().finite(),
                total@ + reserved_sum(rest) == reserved_sum(open) || (total@ == credit_limit()
                    && reserved_sum(open) >= total@ + reserved_sum(rest)),
        {
            let k = keys[i];
            proof {
                assert(keys@.to_set().contains(k));
                assert(self@.pending.contains_key(k));
                assert(!keys@.take(i as int).contains(k));
                assert(keys@.take(i + 1) =~= keys@.take(i as int).push(k));
                keys@.take(i as int).lemma_push_to_set_commute(k);
                assert(rest.remove(k) =~= open.remove_keys(keys@.take(i + 1).to_set()));
            }
            let reservation = self.ledger.get(ReservationId::new(k)).unwrap();
            if !reservation.is_expired(now) {
                total = total.saturating_add(reservation.amount);
                proof {
                    lemma_sum_remove(rest, k);
                }
            } else {
                assert(rest.remove(k) =~= rest);
            }
            proof {
                rest = rest.remove(k);
            }
        }
        proof {
            assert(keys@.take(keys@.len() as int) =~= keys@);
            assert forall|k: u64| !rest.contains_key(k) by {
                if open.contains_key(k) {
                    assert(self.pending@.contains_key(k));
                    assert(keys@.to_set().contains(k));
                }
            }
            assert(rest.dom() =~= Set::empty());
        }
        total
    }

    /// Puts the amount of `req` in escrow, if the policy and the ledger allow it. Open spends
    /// count against the policy's window until they settle or expire.
    pub fn reserve(&mut self, req: SpendRequest, now: Timestamp) -> (r: Result<
        ReservationId,
        SpendDenial,
    >)
        requires
            old(self).wf(),
            old(self)@.reserve_denial(req@, now) is None ==> old(self)@.ledger.next_id < u64::MAX,
        ensures
            final(self).wf(),
            final(self)@ == old(self)@.step(BookOp::Reserve(req@, now)),
            match old(self)@.reserve_denial(req@, now) {
                Some(denial) => {
                    &&& r matches Err(d)
                    &&& d@ == denial
                    &&& final(self)@ == old(self)@.after_denial(req@, denial, now)
                },
                None => {
                    &&& r matches Ok(id)
                    &&& id.0 == old(self)@.ledger.next_id
                    &&& final(self)@ == old(self)@.after_reserve(req@, now)
                },
            },
    {
        match self.policy.evaluate_with(&req, self.open_total(now), now) {
            Ok(()) => {},
            Err(denial) => {
                self.log(
                    None,
                    req.amount,
                    AuditEvent::Denied { gate: denial.gate, reason: denial.reason.clone() },
                    now,
                );
                return Err(denial);
            },
        }
        match self.ledger.reserve(req.amount, self.ttl, now) {
            Ok(id) => {
                let amount = req.amount;
                self.pending.insert(id.0, req);
                assert(self@.pending =~= old(self)@.pending.insert(id.0, req@));
                self.log(Some(id), amount, AuditEvent::Reserved, now);
                Ok(id)
            },
            Err(e) => {
                let denial = ledger_denial(e);
                self.log(
                    None,
                    req.amount,
                    AuditEvent::Denied { gate: denial.gate, reason: denial.reason.clone() },
                    now,
                );
                Err(denial)
            },
        }
    }

    /// Looks up the spend `id` for the rail: the request, and the idempotency key.
    ///
    /// Refuses an id that names no open spend. An expired spend is refused too, and its escrow
    /// is given back.
    pub fn prepare(&mut self, id: ReservationId, now: Timestamp) -> (r: Result<
        (SpendRequest, String),
        SpendDenial,
    >)
        requires
            old(self).wf(),
        ensures
            final(self).wf(),
            match old(self)@.readiness(id, now) {
                Readiness::Unknown => {
                    &&& r matches Err(d)
                    &&& d@ == SpendDenialView::of(Gate::Ledger, unknown_reason(id))
                    &&& final(self)@ == old(self)@
                },
                Readiness::Expired => {
                    &&& r matches Err(d)
                    &&& d@ == SpendDenialView::of(Gate::Ledger, "reservation expired"@)
                    &&& final(self)@ == old(self)@.after_release(id, "expired"@, now)
                },
                Readiness::Ready => {
                    &&& r matches Ok(p)
                    &&& p.0@ == old(self)@.pending[id.0]
                    &&& p.1@ == idempotency_key(id)
                    &&& final(self)@ == old(self)@
                },
            },
    {
        let req = match self.pending.get(&id.0) {
            Some(req) => req.clone(),
            None => {
                let mut reason = "unknown reservation: ReservationId(".to_owned();
                reason.append(decimal_string(id.0).as_str());
                reason.append(")");
                return Err(SpendDenial::ledger(reason));
            },
        };
        let expired = match self.ledger.get(id) {
            Some(reservation) => reservation.is_expired(now),
            None => false,
        };
        if expired {
            let _ = self.ledger.release(id);
            self.pending.remove(&id.0);
            assert(self@.pending =~= old(self)@.pending.remove(id.0));
            self.log(
                Some(id),
                req.amount,
                AuditEvent::Released { reason: "expired".to_owned() },
                now,
            );
            return Err(SpendDenial::ledger("reservation expired"));
        }
        let mut key = "resv-".to_owned();
        key.append(decimal_string(id.0).as_str());
        Ok((req, key))
    }

    /// Enters the answer of the rail for the spend `id`: an approved spend is committed and
    /// counts against the policy's window, a declined one gets its escrow back.
    pub fn settle(&mut self, id: ReservationId, outcome: RailOutcome, now: Timestamp) -> (r: Result<
        SpendReceipt,
        SpendDenial,
    >)
        requires
            old(self).wf(),
            old(self)@.readiness(id, now) is Ready,
        ensures
            final(self).wf(),
            settlement_view(r) == old(self)@.settlement(id, outcome@),
            final(self)@ == old(self)@.after_settlement(id, outcome@, now),
    {
        match outcome {
            RailOutcome::Approved { txn_id } => {
                let amount = match self.ledger.commit(id, now) {
                    Ok(amount) => amount,
                    // Out of reach for a spend that is ready; no receipt without a commit.
                    Err(e) => {
                        let mut reason = "commit failed: ".to_owned();
                        reason.append(e.to_text().as_str());
                        return Err(SpendDenial::ledger(reason));
                    },
                };
                self.policy.record_spend(amount, now);
                self.pending.remove(&id.0);
                assert(self@.pending =~= old(self)@.pending.remove(id.0));
                self.log(
                    Some(id),
                    amount,
                    AuditEvent::Committed { txn_id: txn_id.clone() },
                    now,
                );
                Ok(SpendReceipt { reservation_id: id, amount, txn_id })
            },
            RailOutcome::Declined { reason } => {
                let _ = self.ledger.release(id);
                let req = self.pending.remove(&id.0).unwrap();
                assert(self@.pending =~= old(self)@.pending.remove(id.0));
                self.log(
                    Some(id),
                    req.amount,
                    AuditEvent::Released { reason: reason.clone() },
                    now,
                );
                Err(SpendDenial::rail(reason))
            },
        }
    }

    /// Deposits `amount` again, for a spend that was undone.
    pub fn refund(&mut self, amount: Credits, now: Timestamp)
        requires
            old(self).wf(),
        ensures
            final(self).wf(),
            final(self)@ == old(self)@.step(BookOp::Refund(amount, now)),
            final(self)@ == old(self)@.after_refund(amount, now),
    {
        self.ledger.fund(amount);
        assert(self@.pending == old(self)@.pending);
        self.log(None, amount, AuditEvent::Refunded, now);
    }
}

} // verus!
