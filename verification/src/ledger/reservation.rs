//! The reservation ledger: escrow for one account.
//!
//! An authorization is a reservation. [`ReservationLedger::reserve`] takes credits out of the
//! spendable pool at once, so a second reservation cannot count on the same credits. A held
//! reservation is then either committed, which spends it for good, or released, which gives it
//! back.
//!
//! After every operation
//!
//! ```text
//! spendable + reserved + consumed == funded
//! ```
//!
//! as far as the amounts can be counted.

use std::collections::HashMap;

use vstd::prelude::*;

use super::errors::{EnrError, EnrResult};
use super::laws::{law_operation_keeps_ledger_well_formed, LedgerOp};
use super::model::LedgerView;
use super::state::CreditState;
use super::sum::{lemma_sum_partition, lemma_sum_remove, live_part, reserved_sum};
use super::types::{
    capped, credit_limit, AccountId, CreditReservation, Credits, Duration, ReservationId, Timestamp,
};
use crate::keys::numbers;

verus! {

broadcast use vstd::std_specs::hash::group_hash_axioms;

/// Pushing `x` onto `s` adds `x` to its elements and nothing else.
proof fn lemma_push_contains<T>(s: Seq<T>, x: T)
    ensures
        forall|y: T| #[trigger] s.push(x).contains(y) <==> s.contains(y) || y == x,
{
    assert forall|y: T| #[trigger] s.push(x).contains(y) <==> s.contains(y) || y == x by {
        if s.contains(y) {
            let i = choose|i: int| 0 <= i < s.len() && s[i] == y;
            assert(s.push(x)[i] == y);
        }
        assert(s.push(x)[s.len() as int] == x);
    }
}

/// One reservation held, with where it stands in the credit lifecycle.
#[derive(Debug, Clone, Copy)]
struct LedgerEntry {
    reservation: CreditReservation,
    /// Always `Reserved`: what is settled is not held any more.
    state: CreditState,
}

/// Escrow ledger of a single account.
#[derive(Debug, Clone)]
pub struct ReservationLedger {
    account: AccountId,
    spendable: Credits,
    consumed: Credits,
    funded: Credits,
    next_id: u64,
    reservations: HashMap<u64, LedgerEntry>,
}

impl View for ReservationLedger {
    type V = LedgerView;

    closed spec fn view(&self) -> LedgerView {
        LedgerView {
            account: self.account,
            spendable: self.spendable@,
            consumed: self.consumed@,
            funded: self.funded@,
            next_id: self.next_id as nat,
            held: self.reservations@.map_values(|e: LedgerEntry| e.reservation),
        }
    }
}

impl ReservationLedger {
    /// What holds of every ledger but for the balance of its pools.
    pub closed spec fn well_keyed(&self) -> bool {
        &&& self@.well_keyed()
        &&& forall|k: u64| #[trigger]
            self.reservations@.contains_key(k) ==> self.reservations@[k].state is Reserved
    }

    /// What holds of every ledger.
    pub open spec fn wf(&self) -> bool {
        &&& self.well_keyed()
        &&& self@.wf()
    }

    /// Where the credits of the reservation `id` stand in their lifecycle.
    pub closed spec fn lifecycle(&self, id: ReservationId) -> CreditState {
        self.reservations@[id.0].state
    }

    /// Credits held stand at `Reserved` in their lifecycle.
    pub proof fn law_held_credits_are_reserved(&self, id: ReservationId)
        requires
            self.well_keyed(),
            self@.holds(id),
        ensures
            self.lifecycle(id) is Reserved,
    {
        assert(self.reservations@.contains_key(id.0));
    }

    /// A ledger for `account` with nothing in it.
    pub fn new(account: AccountId) -> (ledger: Self)
        ensures
            ledger.wf(),
            ledger@ == LedgerView::empty(account),
    {
        let ledger = ReservationLedger {
            account,
            spendable: Credits::zero(),
            consumed: Credits::zero(),
            funded: Credits::zero(),
            next_id: 1,
            reservations: HashMap::new(),
        };
        assert(ledger@.held =~= Map::empty());
        ledger
    }

    /// A ledger for `account` with `amount` spendable credits.
    pub fn with_balance(account: AccountId, amount: Credits) -> (ledger: Self)
        ensures
            ledger.wf(),
            ledger@ == LedgerView::empty(account).after_fund(amount),
    {
        let mut ledger = Self::new(account);
        ledger.fund(amount);
        ledger
    }

    /// Deposits `amount` into the spendable pool.
    pub fn fund(&mut self, amount: Credits)
        requires
            old(self).wf(),
        ensures
            final(self).wf(),
            final(self)@ == old(self)@.step(LedgerOp::Fund(amount)),
            final(self)@ == old(self)@.after_fund(amount),
    {
        self.spendable = self.spendable.saturating_add(amount);
        self.funded = self.funded.saturating_add(amount);
    }

    /// The spendable balance.
    pub fn balance(&self) -> (c: Credits)
        ensures
            c@ == self@.spendable,
    {
        self.spendable
    }

    /// The credits set aside in reservations.
    pub fn reserved_total(&self) -> (c: Credits)
        requires
            self.well_keyed(),
        ensures
            c@ == capped(self@.reserved()),
    {
        let keys = numbers(&self.reservations);
        assert(keys@.to_set() =~= self@.held.dom());
        let ghost held = self@.held;
        let ghost mut rest = held;
        let mut total = Credits::zero();
        for i in 0..keys.len()
            invariant
                held == self@.held,
                keys@.no_duplicates(),
                keys@.to_set() == held.dom(),
                rest == held.remove_keys(keys@.take(i as int).to_set()),
                rest.dom().finite(),
                total@ + reserved_sum(rest) == reserved_sum(held) || (total@ == credit_limit()
                    && reserved_sum(held) >= total@ + reserved_sum(rest)),
        {
            let k = keys[i];
            proof {
                assert(keys@.to_set().contains(k));
                assert(!keys@.take(i as int).contains(k));
                lemma_sum_remove(rest, k);
                assert(keys@.take(i + 1) =~= keys@.take(i as int).push(k));
                keys@.take(i as int).lemma_push_to_set_commute(k);
                assert(rest.remove(k) =~= held.remove_keys(keys@.take(i + 1).to_set()));
                rest = rest.remove(k);
            }
            total = total.saturating_add(self.reservations.get(&k).unwrap().reservation.amount);
        }
        assert(keys@.take(keys@.len() as int) =~= keys@);
        assert(rest.dom() =~= Set::empty());
        total
    }

    /// The credits spent for good.
    pub fn consumed_total(&self) -> (c: Credits)
        ensures
            c@ == self@.consumed,
    {
        self.consumed
    }

    /// The credits ever deposited.
    pub fn funded_total(&self) -> (c: Credits)
        ensures
            c@ == self@.funded,
    {
        self.funded
    }

    /// How many reservations are held.
    pub fn active_count(&self) -> (n: usize)
        ensures
            n == self@.held.len(),
    {
        assert(self@.held.dom() =~= self.reservations@.dom());
        self.reservations.len()
    }

    /// The reservation `id`, if it is held.
    pub fn get(&self, id: ReservationId) -> (r: Option<&CreditReservation>)
        ensures
            match r {
                Some(r) => self@.holds(id) && *r == self@.held[id.0],
                None => !self@.holds(id),
            },
    {
        match self.reservations.get(&id.0) {
            Some(entry) => Some(&entry.reservation),
            None => None,
        }
    }

    /// Whether a number is left for another reservation.
    pub fn can_number_another(&self) -> (b: bool)
        ensures
            b == (self@.next_id < u64::MAX),
    {
        self.next_id < u64::MAX
    }

    /// Takes `amount` out of the spendable pool and holds it for up to `ttl` from `now`.
    ///
    /// Refuses a zero amount, and one above the spendable balance.
    pub fn reserve(&mut self, amount: Credits, ttl: Duration, now: Timestamp) -> (r: EnrResult<
        ReservationId,
    >)
        requires
            old(self).wf(),
            old(self)@.debit_error(amount) is None ==> old(self)@.next_id < u64::MAX,
        ensures
            final(self).wf(),
            final(self)@ == old(self)@.step(LedgerOp::Reserve(amount, ttl, now)),
            match old(self)@.debit_error(amount) {
                Some(e) => r == Err::<ReservationId, EnrError>(e) && final(self)@ == old(self)@,
                None => {
                    &&& r == Ok::<ReservationId, EnrError>(ReservationId(old(self)@.next_id as u64))
                    &&& final(self)@ == old(self)@.after_reserve(amount, ttl, now)
                },
            },
    {
        if amount.is_zero() {
            return Err(EnrError::ZeroAmount);
        }
        if self.spendable.amount < amount.amount {
            return Err(
                EnrError::InsufficientCredits { required: amount, available: self.spendable },
            );
        }
        let state = match CreditState::Active.transition(CreditState::Reserved) {
            Ok(state) => state,
            Err(_) => return Err(EnrError::InvalidStateTransition),
        };
        proof {
            law_operation_keeps_ledger_well_formed(self@, LedgerOp::Reserve(amount, ttl, now));
        }
        let id = ReservationId::new(self.next_id);
        self.next_id = self.next_id + 1;
        let reservation = CreditReservation::new(id, self.account, amount, ttl, now);
        self.spendable = self.spendable.saturating_sub(amount);
        self.reservations.insert(id.0, LedgerEntry { reservation, state });
        assert(self@.held =~= old(self)@.after_reserve(amount, ttl, now).held);
        Ok(id)
    }

    /// Spends the reservation `id` for good and returns its amount.
    ///
    /// Refuses one that is not held. An expired one is refused too, and its credits go back to
    /// the spendable pool.
    pub fn commit(&mut self, id: ReservationId, now: Timestamp) -> (r: EnrResult<Credits>)
        requires
            old(self).wf(),
        ensures
            final(self).wf(),
            final(self)@ == old(self)@.step(LedgerOp::Commit(id, now)),
            match old(self)@.commit_error(id, now) {
                Some(e) => {
                    &&& r == Err::<Credits, EnrError>(e)
                    &&& final(self)@ == if old(self)@.holds(id) {
                        old(self)@.after_release(id)
                    } else {
                        old(self)@
                    }
                },
                None => {
                    &&& r == Ok::<Credits, EnrError>(old(self)@.held[id.0].amount)
                    &&& final(self)@ == old(self)@.after_commit(id)
                },
            },
    {
        proof {
            law_operation_keeps_ledger_well_formed(self@, LedgerOp::Commit(id, now));
        }
        let entry = match self.reservations.get(&id.0) {
            Some(entry) => *entry,
            None => return Err(EnrError::ReservationNotFound(id)),
        };
        let amount = entry.reservation.amount;
        if entry.reservation.is_expired(now) {
            self.spendable = self.spendable.saturating_add(amount);
            self.reservations.remove(&id.0);
            assert(self@.held =~= old(self)@.held.remove(id.0));
            return Err(EnrError::ReservationExpired(id));
        }
        if entry.state.transition(CreditState::Consumed).is_err() {
            return Err(EnrError::InvalidStateTransition);
        }
        self.consumed = self.consumed.saturating_add(amount);
        self.reservations.remove(&id.0);
        assert(self@.held =~= old(self)@.held.remove(id.0));
        Ok(amount)
    }

    /// Spends `amount` straight from the spendable pool, with no reservation, and returns it.
    ///
    /// Refuses a zero amount, and one above the spendable balance.
    pub fn spend(&mut self, amount: Credits) -> (r: EnrResult<Credits>)
        requires
            old(self).wf(),
        ensures
            final(self).wf(),
            final(self)@ == old(self)@.step(LedgerOp::Spend(amount)),
            match old(self)@.debit_error(amount) {
                Some(e) => r == Err::<Credits, EnrError>(e) && final(self)@ == old(self)@,
                None => {
                    &&& r == Ok::<Credits, EnrError>(amount)
                    &&& final(self)@ == old(self)@.after_spend(amount)
                },
            },
    {
        if amount.is_zero() {
            return Err(EnrError::ZeroAmount);
        }
        if self.spendable.amount < amount.amount {
            return Err(
                EnrError::InsufficientCredits { required: amount, available: self.spendable },
            );
        }
        self.spendable = self.spendable.saturating_sub(amount);
        self.consumed = self.consumed.saturating_add(amount);
        Ok(amount)
    }

    /// Gives the credits of the reservation `id` back to the spendable pool and returns their
    /// amount.
    ///
    /// Refuses a reservation that is not held.
    pub fn release(&mut self, id: ReservationId) -> (r: EnrResult<Credits>)
        requires
            old(self).wf(),
        ensures
            final(self).wf(),
            final(self)@ == old(self)@.step(LedgerOp::Release(id)),
            if old(self)@.holds(id) {
                &&& r == Ok::<Credits, EnrError>(old(self)@.held[id.0].amount)
                &&& final(self)@ == old(self)@.after_release(id)
            } else {
                &&& r == Err::<Credits, EnrError>(EnrError::ReservationNotFound(id))
                &&& final(self)@ == old(self)@
            },
    {
        proof {
            law_operation_keeps_ledger_well_formed(self@, LedgerOp::Release(id));
        }
        let entry = match self.reservations.get(&id.0) {
            Some(entry) => *entry,
            None => return Err(EnrError::ReservationNotFound(id)),
        };
        let amount = entry.reservation.amount;
        match entry.state.transition(CreditState::Released) {
            Ok(released) => {
                if released.transition(CreditState::Active).is_err() {
                    return Err(EnrError::InvalidStateTransition);
                }
            },
            Err(_) => return Err(EnrError::InvalidStateTransition),
        }
        self.spendable = self.spendable.saturating_add(amount);
        self.reservations.remove(&id.0);
        assert(self@.held =~= old(self)@.held.remove(id.0));
        Ok(amount)
    }

    /// The ids of the reservations whose ttl has elapsed at `now`, each once, in no particular
    /// order.
    fn expired_ids(&self, now: Timestamp) -> (ids: Vec<ReservationId>)
        ensures
            ids@.no_duplicates(),
            forall|id: ReservationId| #[trigger]
                ids@.contains(id) <==> self@.holds_expired(id, now),
    {
        let keys = numbers(&self.reservations);
        assert(keys@.to_set() =~= self@.held.dom());
        let mut ids: Vec<ReservationId> = Vec::new();
        for i in 0..keys.len()
            invariant
                keys@.no_duplicates(),
                keys@.to_set() == self@.held.dom(),
                ids@.no_duplicates(),
                forall|id: ReservationId| #[trigger]
                    ids@.contains(id) <==> self@.holds_expired(id, now) && keys@.take(
                        i as int,
                    ).contains(id.0),
        {
            let k = keys[i];
            let ghost seen = keys@.take(i as int);
            let ghost before = ids@;
            proof {
                assert(keys@.to_set().contains(k));
                assert(!seen.contains(k));
                assert(keys@.take(i + 1) =~= seen.push(k));
                lemma_push_contains(seen, k);
                lemma_push_contains(before, ReservationId(k));
                assert(!before.contains(ReservationId(k)));
            }
            if self.reservations.get(&k).unwrap().reservation.is_expired(now) {
                ids.push(ReservationId::new(k));
            }
        }
        proof {
            assert(keys@.take(keys@.len() as int) =~= keys@);
            assert forall|id: ReservationId| #[trigger]
                ids@.contains(id) <==> self@.holds_expired(id, now) by {
                assert(keys@.to_set().contains(id.0) <==> self@.held.contains_key(id.0));
            }
        }
        ids
    }

    /// Releases every reservation whose ttl has elapsed at `now` and returns their ids, each
    /// once, in no particular order.
    pub fn release_expired(&mut self, now: Timestamp) -> (ids: Vec<ReservationId>)
        requires
            old(self).wf(),
        ensures
            final(self).wf(),
            final(self)@ == old(self)@.step(LedgerOp::ReleaseExpired(now)),
            final(self)@ == old(self)@.after_sweep(now),
            ids@.no_duplicates(),
            forall|id: ReservationId| #[trigger]
                ids@.contains(id) <==> old(self)@.holds_expired(id, now),
    {
        let ids = self.expired_ids(now);
        let ghost held = self@.held;
        let ghost mut released: nat = 0;
        for i in 0..ids.len()
            invariant
                self.wf(),
                held == old(self)@.held,
                ids@.no_duplicates(),
                forall|id: ReservationId| #[trigger]
                    ids@.contains(id) <==> old(self)@.holds_expired(id, now),
                forall|k: u64| #[trigger]
                    self@.held.contains_key(k) <==> held.contains_key(k) && !ids@.take(
                        i as int,
                    ).contains(ReservationId(k)),
                self@.held.submap_of(held),
                released + self@.reserved() == old(self)@.reserved(),
                self@ == (LedgerView {
                    spendable: capped(old(self)@.spendable + released),
                    held: self@.held,
                    ..old(self)@
                }),
        {
            let id = ids[i];
            proof {
                let done = ids@.take(i as int);
                assert(ids@.contains(id));
                assert(!done.contains(id));
                assert(ids@.take(i + 1) =~= done.push(id));
                lemma_push_contains(done, id);
                lemma_sum_remove(self@.held, id.0);
                released = released + self@.held[id.0].amount@;
            }
            let _ = self.release(id);
        }
        proof {
            assert(ids@.take(ids@.len() as int) =~= ids@);
            lemma_sum_partition(held, now);
            assert(self@.held =~= live_part(held, now)) by {
                assert forall|k: u64| #[trigger]
                    self@.held.contains_key(k) <==> live_part(held, now).contains_key(k) by {
                    assert(ids@.contains(ReservationId(k)) <==> old(self)@.holds_expired(
                        ReservationId(k),
                        now,
                    ));
                }
            }
        }
        ids
    }

    /// Whether `spendable + reserved + consumed == funded`, with sums that stop at the largest
    /// amount.
    pub fn conservation_holds(&self) -> (b: bool)
        requires
            self.well_keyed(),
        ensures
            b == self@.balanced(),
    {
        let actual = self.spendable.saturating_add(self.reserved_total()).saturating_add(
            self.consumed,
        );
        actual.amount == self.funded.amount
    }

    /// Checks that credits were conserved, and says what was found where they were not.
    pub fn assert_conservation(&self) -> (r: EnrResult<()>)
        requires
            self.well_keyed(),
        ensures
            match r {
                Ok(_) => self@.balanced(),
                Err(e) => {
                    &&& !self@.balanced()
                    &&& e matches EnrError::ConservationViolation { expected, actual }
                    &&& expected@ == self@.funded
                    &&& actual@ == capped(self@.total())
                },
            },
    {
        if self.conservation_holds() {
            Ok(())
        } else {
            let actual = self.spendable.saturating_add(self.reserved_total()).saturating_add(
                self.consumed,
            );
            Err(EnrError::ConservationViolation { expected: self.funded, actual })
        }
    }
}

} // verus!
