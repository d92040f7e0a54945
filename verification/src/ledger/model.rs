//! The ledger as a mathematical value, and what each operation makes of it.

use vstd::prelude::*;

use super::errors::EnrError;
use super::sum::{expired_part, live_part, reserved_sum};
use super::types::{
    capped, credit_limit, AccountId, CreditReservation, Credits, Duration, ReservationId, Timestamp,
};

verus! {

/// What a ledger holds.
pub struct LedgerView {
    pub account: AccountId,
    /// Credits free to be reserved.
    pub spendable: nat,
    /// Credits spent for good.
    pub consumed: nat,
    /// Credits ever deposited.
    pub funded: nat,
    /// The number that the next reservation gets.
    pub next_id: nat,
    /// The reservations held, by number.
    pub held: Map<u64, CreditReservation>,
}

impl LedgerView {
    /// A ledger that nothing was deposited into.
    pub open spec fn empty(account: AccountId) -> LedgerView {
        LedgerView {
            account,
            spendable: 0,
            consumed: 0,
            funded: 0,
            next_id: 1,
            held: Map::empty(),
        }
    }

    /// Credits set aside in reservations.
    pub open spec fn reserved(self) -> nat {
        reserved_sum(self.held)
    }

    /// The credits in all three pools.
    pub open spec fn total(self) -> nat {
        self.spendable + self.reserved() + self.consumed
    }

    /// The pools hold exactly what was funded.
    pub open spec fn conserved(self) -> bool {
        self.total() == self.funded
    }

    /// The pools hold what was funded, as far as it can be counted.
    pub open spec fn balanced(self) -> bool {
        capped(self.total()) == self.funded
    }

    /// Amounts can be counted, and every reservation held is one of this account, under a
    /// number given out before.
    pub open spec fn well_keyed(self) -> bool {
        &&& self.spendable <= credit_limit()
        &&& self.consumed <= credit_limit()
        &&& self.funded <= credit_limit()
        &&& 1 <= self.next_id <= u64::MAX
        &&& self.held.dom().finite()
        &&& forall|k: u64| #[trigger]
            self.held.contains_key(k) ==> {
                &&& 1 <= k < self.next_id
                &&& self.held[k].id.0 == k
                &&& self.held[k].account == self.account
                &&& self.held[k].amount@ > 0
            }
    }

    /// Well keyed, and balanced.
    pub open spec fn wf(self) -> bool {
        &&& self.well_keyed()
        &&& self.balanced()
    }

    /// Whether the reservation `id` is held.
    pub open spec fn holds(self, id: ReservationId) -> bool {
        self.held.contains_key(id.0)
    }

    /// Whether the reservation `id` is held and its ttl has elapsed at `now`.
    pub open spec fn holds_expired(self, id: ReservationId, now: Timestamp) -> bool {
        self.holds(id) && self.held[id.0].expired_at(now)
    }

    /// Why `amount` cannot leave the spendable pool, if it cannot.
    pub open spec fn debit_error(self, amount: Credits) -> Option<EnrError> {
        if amount@ == 0 {
            Some(EnrError::ZeroAmount)
        } else if self.spendable < amount@ {
            Some(
                EnrError::InsufficientCredits {
                    required: amount,
                    available: Credits { amount: self.spendable as u64 },
                },
            )
        } else {
            None
        }
    }

    /// Why the reservation `id` cannot be committed at `now`, if it cannot.
    pub open spec fn commit_error(self, id: ReservationId, now: Timestamp) -> Option<EnrError> {
        if !self.holds(id) {
            Some(EnrError::ReservationNotFound(id))
        } else if self.holds_expired(id, now) {
            Some(EnrError::ReservationExpired(id))
        } else {
            None
        }
    }

    /// `amount` was deposited.
    pub open spec fn after_fund(self, amount: Credits) -> LedgerView {
        LedgerView {
            spendable: capped(self.spendable + amount@),
            funded: capped(self.funded + amount@),
            ..self
        }
    }

    /// `amount` went from spendable into a reservation under the next number.
    pub open spec fn after_reserve(
        self,
        amount: Credits,
        ttl: Duration,
        now: Timestamp,
    ) -> LedgerView {
        let id = ReservationId(self.next_id as u64);
        let r = CreditReservation { id, account: self.account, amount, ttl, created_at: now };
        LedgerView {
            spendable: (self.spendable - amount@) as nat,
            next_id: self.next_id + 1,
            held: self.held.insert(id.0, r),
            ..self
        }
    }

    /// The reservation `id` was spent for good.
    pub open spec fn after_commit(self, id: ReservationId) -> LedgerView {
        LedgerView {
            consumed: capped(self.consumed + self.held[id.0].amount@),
            held: self.held.remove(id.0),
            ..self
        }
    }

    /// The reservation `id` went back to spendable.
    pub open spec fn after_release(self, id: ReservationId) -> LedgerView {
        LedgerView {
            spendable: capped(self.spendable + self.held[id.0].amount@),
            held: self.held.remove(id.0),
            ..self
        }
    }

    /// `amount` went from spendable straight to consumed.
    pub open spec fn after_spend(self, amount: Credits) -> LedgerView {
        LedgerView {
            spendable: (self.spendable - amount@) as nat,
            consumed: capped(self.consumed + amount@),
            ..self
        }
    }

    /// Every reservation expired at `now` went back to spendable.
    pub open spec fn after_sweep(self, now: Timestamp) -> LedgerView {
        LedgerView {
            spendable: capped(self.spendable + reserved_sum(expired_part(self.held, now))),
            held: live_part(self.held, now),
            ..self
        }
    }
}

} // verus!
