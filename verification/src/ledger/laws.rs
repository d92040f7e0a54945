//! What holds of a ledger across its operations.

use vstd::prelude::*;

use super::errors::EnrError;
use super::model::LedgerView;
use super::sum::{
    expired_part, lemma_sum_insert, lemma_sum_partition, lemma_sum_remove, live_part, reserved_sum,
};
use super::types::{
    capped, credit_limit, AccountId, CreditReservation, Credits, Duration, ReservationId, Timestamp,
};

verus! {

/// An operation on a ledger, with its arguments.
pub enum LedgerOp {
    Fund(Credits),
    Reserve(Credits, Duration, Timestamp),
    Commit(ReservationId, Timestamp),
    Spend(Credits),
    Release(ReservationId),
    ReleaseExpired(Timestamp),
}

impl LedgerView {
    /// Whether a number is left for the reservation that `op` makes, if it makes one.
    pub open spec fn admits(self, op: LedgerOp) -> bool {
        match op {
            LedgerOp::Reserve(amount, _, _) => self.debit_error(amount) is None ==> self.next_id
                < u64::MAX,
            _ => true,
        }
    }

    /// The ledger after `op`, refused or not.
    pub open spec fn step(self, op: LedgerOp) -> LedgerView {
        match op {
            LedgerOp::Fund(amount) => self.after_fund(amount),
            LedgerOp::Reserve(amount, ttl, now) => if self.debit_error(amount) is None {
                self.after_reserve(amount, ttl, now)
            } else {
                self
            },
            LedgerOp::Commit(id, now) => if !self.holds(id) {
                self
            } else if self.holds_expired(id, now) {
                self.after_release(id)
            } else {
                self.after_commit(id)
            },
            LedgerOp::Spend(amount) => if self.debit_error(amount) is None {
                self.after_spend(amount)
            } else {
                self
            },
            LedgerOp::Release(id) => if self.holds(id) {
                self.after_release(id)
            } else {
                self
            },
            LedgerOp::ReleaseExpired(now) => self.after_sweep(now),
        }
    }

    /// The ledger after `ops`, one after the other.
    pub open spec fn run(self, ops: Seq<LedgerOp>) -> LedgerView
        decreases ops.len(),
    {
        if ops.len() == 0 {
            self
        } else {
            self.run(ops.drop_last()).step(ops.last())
        }
    }

    /// Whether numbers are left for all reservations that `ops` make.
    pub open spec fn admits_all(self, ops: Seq<LedgerOp>) -> bool
        decreases ops.len(),
    {
        ops.len() > 0 ==> {
            &&& self.admits_all(ops.drop_last())
            &&& self.run(ops.drop_last()).admits(ops.last())
        }
    }
}

/// What `op` deposits.
pub open spec fn deposit(op: LedgerOp) -> nat {
    match op {
        LedgerOp::Fund(amount) => amount@,
        _ => 0,
    }
}

/// What `ops` deposit in all.
pub open spec fn deposits(ops: Seq<LedgerOp>) -> nat
    decreases ops.len(),
{
    if ops.len() == 0 {
        0
    } else {
        deposits(ops.drop_last()) + deposit(ops.last())
    }
}

/// What `op` does to the credits set aside.
proof fn lemma_step_reserved(ledger: LedgerView, op: LedgerOp)
    requires
        ledger.wf(),
    ensures
        ledger.step(op).held.dom().finite(),
        match op {
            LedgerOp::Fund(_) | LedgerOp::Spend(_) => ledger.step(op).held == ledger.held,
            LedgerOp::Reserve(amount, _, _) => ledger.debit_error(amount) is None
                ==> ledger.step(op).reserved() == ledger.reserved() + amount@,
            LedgerOp::Commit(id, _) | LedgerOp::Release(id) => ledger.holds(id) ==> ledger.step(
                op,
            ).reserved() + ledger.held[id.0].amount@ == ledger.reserved(),
            LedgerOp::ReleaseExpired(now) => ledger.step(op).reserved() + reserved_sum(
                expired_part(ledger.held, now),
            ) == ledger.reserved(),
        },
{
    match op {
        LedgerOp::Reserve(amount, ttl, now) => {
            if ledger.debit_error(amount) is None {
                let next = ledger.after_reserve(amount, ttl, now);
                let k = ledger.next_id as u64;
                lemma_sum_insert(ledger.held, k, next.held[k]);
            }
        },
        LedgerOp::Commit(id, _) | LedgerOp::Release(id) => {
            if ledger.holds(id) {
                lemma_sum_remove(ledger.held, id.0);
            }
        },
        LedgerOp::ReleaseExpired(now) => {
            lemma_sum_partition(ledger.held, now);
        },
        _ => {},
    }
}

/// Every operation, refused or not, leaves a ledger well formed: in particular the pools still
/// hold what was funded, as far as it can be counted.
pub proof fn law_operation_keeps_ledger_well_formed(ledger: LedgerView, op: LedgerOp)
    requires
        ledger.wf(),
        ledger.admits(op),
    ensures
        ledger.step(op).wf(),
{
    lemma_step_reserved(ledger, op);
}

/// While the deposits can be counted, every operation, refused or not, conserves credits
/// exactly: `spendable + reserved + consumed == funded` stays true.
pub proof fn law_operation_conserves_credits(ledger: LedgerView, op: LedgerOp)
    requires
        ledger.wf(),
        ledger.admits(op),
        ledger.funded + deposit(op) <= credit_limit(),
        ledger.conserved(),
    ensures
        ledger.step(op).conserved(),
{
    lemma_step_reserved(ledger, op);
}

/// Whatever is done to a new ledger, it stays well formed: in particular the pools hold what was
/// funded, as far as it can be counted.
pub proof fn law_history_keeps_ledger_well_formed(account: AccountId, ops: Seq<LedgerOp>)
    requires
        LedgerView::empty(account).admits_all(ops),
    ensures
        LedgerView::empty(account).run(ops).wf(),
    decreases ops.len(),
{
    if ops.len() > 0 {
        law_history_keeps_ledger_well_formed(account, ops.drop_last());
        law_operation_keeps_ledger_well_formed(
            LedgerView::empty(account).run(ops.drop_last()),
            ops.last(),
        );
    }
}

/// Whatever is done to a new ledger, while all deposits together can be counted,
/// `spendable + reserved + consumed == funded`, and `funded` is what was deposited in all.
pub proof fn law_history_conserves_credits(account: AccountId, ops: Seq<LedgerOp>)
    requires
        LedgerView::empty(account).admits_all(ops),
        deposits(ops) <= credit_limit(),
    ensures
        LedgerView::empty(account).run(ops).conserved(),
        LedgerView::empty(account).run(ops).funded == deposits(ops),
    decreases ops.len(),
{
    if ops.len() > 0 {
        let before = LedgerView::empty(account).run(ops.drop_last());
        law_history_conserves_credits(account, ops.drop_last());
        law_history_keeps_ledger_well_formed(account, ops.drop_last());
        law_operation_conserves_credits(before, ops.last());
    }
}

/// A balanced ledger whose deposits stay below the largest amount is conserved exactly.
pub proof fn law_balance_is_exact_below_the_limit(ledger: LedgerView)
    requires
        ledger.wf(),
        ledger.funded < credit_limit(),
    ensures
        ledger.conserved(),
{
}

/// Two reservations cannot both take the same credits: after one of `first`, one that would
/// need more than is left is refused.
pub proof fn law_no_double_spend(
    ledger: LedgerView,
    first: Credits,
    second: Credits,
    ttl: Duration,
    now: Timestamp,
)
    requires
        ledger.wf(),
        ledger.debit_error(first) is None,
        second@ > 0,
        first@ + second@ > ledger.spendable,
    ensures
        ledger.after_reserve(first, ttl, now).debit_error(second) == Some(
            EnrError::InsufficientCredits {
                required: second,
                available: Credits { amount: (ledger.spendable - first@) as u64 },
            },
        ),
{
}

/// An amount can leave the spendable pool exactly if it is not zero and not above the spendable
/// balance, whatever is held or consumed.
pub proof fn law_whatever_is_spendable_can_be_taken(
    ledger: LedgerView,
    amount: Credits,
    ttl: Duration,
    now: Timestamp,
)
    requires
        ledger.wf(),
    ensures
        ledger.debit_error(amount) is None <==> 0 < amount.amount <= ledger.spendable,
        amount.amount == 0 ==> ledger.debit_error(amount) == Some(EnrError::ZeroAmount),
        amount.amount > ledger.spendable ==> {
            &&& ledger.debit_error(amount) matches Some(
                EnrError::InsufficientCredits { required, available },
            )
            &&& required.amount == amount.amount
            &&& available.amount == ledger.spendable
        },
        0 < amount.amount <= ledger.spendable ==> {
            &&& ledger.step(LedgerOp::Reserve(amount, ttl, now)).spendable == ledger.spendable
                - amount.amount
            &&& ledger.step(LedgerOp::Spend(amount)).spendable == ledger.spendable - amount.amount
        },
        !(0 < amount.amount <= ledger.spendable) ==> {
            &&& ledger.step(LedgerOp::Reserve(amount, ttl, now)) == ledger
            &&& ledger.step(LedgerOp::Spend(amount)) == ledger
        },
{
}

/// Any reservation held can be committed until its ttl has elapsed, and not from then on,
/// whenever it was made: its amount is then spendable again, and nothing is consumed.
pub proof fn law_expired_reservation_is_reclaimed(
    ledger: LedgerView,
    id: ReservationId,
    now: Timestamp,
)
    requires
        ledger.wf(),
        ledger.held.contains_key(id.0),
    ensures
        ({
            let r = ledger.held[id.0];
            let next = ledger.step(LedgerOp::Commit(id, now));
            &&& next.held == ledger.held.remove(id.0)
            &&& next.funded == ledger.funded
            &&& if r.created_at.millis + r.ttl.millis <= now.millis {
                &&& ledger.commit_error(id, now) == Some(EnrError::ReservationExpired(id))
                &&& next.spendable == if ledger.spendable + r.amount.amount <= u64::MAX {
                    ledger.spendable + r.amount.amount
                } else {
                    u64::MAX as int
                }
                &&& next.consumed == ledger.consumed
            } else {
                &&& ledger.commit_error(id, now) is None
                &&& next.spendable == ledger.spendable
                &&& next.consumed == if ledger.consumed + r.amount.amount <= u64::MAX {
                    ledger.consumed + r.amount.amount
                } else {
                    u64::MAX as int
                }
            }
        }),
{
}

/// What is set aside and what is spent never exceed what was funded.
pub proof fn law_escrow_is_covered(ledger: LedgerView)
    requires
        ledger.wf(),
        ledger.conserved(),
    ensures
        ledger.reserved() + ledger.consumed <= ledger.funded,
{
}

/// A reservation takes its amount from the spendable pool to the reserved one, under an id that
/// no reservation held has.
pub proof fn law_reserve_moves_spendable_to_reserved(
    ledger: LedgerView,
    amount: Credits,
    ttl: Duration,
    now: Timestamp,
)
    requires
        ledger.wf(),
        ledger.debit_error(amount) is None,
    ensures
        ({
            let id = ReservationId(ledger.next_id as u64);
            let next = ledger.after_reserve(amount, ttl, now);
            &&& !ledger.holds(id)
            &&& next.holds(id)
            &&& next.spendable + amount@ == ledger.spendable
            &&& next.reserved() == ledger.reserved() + amount@
            &&& next.consumed == ledger.consumed
            &&& next.funded == ledger.funded
        }),
{
    let k = ledger.next_id as u64;
    lemma_sum_insert(ledger.held, k, ledger.after_reserve(amount, ttl, now).held[k]);
}

/// Releasing a reservation just made gives back exactly what it took: only its number is used up.
pub proof fn law_release_undoes_reserve(
    ledger: LedgerView,
    amount: Credits,
    ttl: Duration,
    now: Timestamp,
)
    requires
        ledger.wf(),
        ledger.debit_error(amount) is None,
    ensures
        ledger.after_reserve(amount, ttl, now).after_release(ReservationId(ledger.next_id as u64))
            == (LedgerView { next_id: ledger.next_id + 1, ..ledger }),
{
    let k = ledger.next_id as u64;
    let next = ledger.after_reserve(amount, ttl, now).after_release(ReservationId(k));
    assert(next.held =~= ledger.held);
}

/// Committing a reservation just made spends exactly what it took, once: only its number sets
/// it apart from spending the amount directly.
pub proof fn law_reserve_and_commit_is_a_spend(
    ledger: LedgerView,
    amount: Credits,
    ttl: Duration,
    now: Timestamp,
)
    requires
        ledger.wf(),
        ledger.debit_error(amount) is None,
    ensures
        ledger.after_reserve(amount, ttl, now).after_commit(ReservationId(ledger.next_id as u64))
            == (LedgerView { next_id: ledger.next_id + 1, ..ledger.after_spend(amount) }),
{
    let k = ledger.next_id as u64;
    let next = ledger.after_reserve(amount, ttl, now).after_commit(ReservationId(k));
    assert(next.held =~= ledger.held);
}

/// A commit takes the amount of the reservation from the reserved pool to the consumed one and
/// leaves the spendable pool alone.
pub proof fn law_commit_moves_reserved_to_consumed(ledger: LedgerView, id: ReservationId)
    requires
        ledger.wf(),
        ledger.holds(id),
    ensures
        ({
            let next = ledger.after_commit(id);
            &&& next.reserved() + ledger.held[id.0].amount@ == ledger.reserved()
            &&& next.consumed == capped(ledger.consumed + ledger.held[id.0].amount@)
            &&& next.spendable == ledger.spendable
        }),
{
    lemma_sum_remove(ledger.held, id.0);
}

/// A reservation can be committed until its ttl has elapsed, and not from then on: the attempt
/// gives back exactly what it took.
pub proof fn law_reservation_lives_for_its_ttl(
    ledger: LedgerView,
    amount: Credits,
    ttl: Duration,
    created: Timestamp,
    now: Timestamp,
)
    requires
        ledger.wf(),
        ledger.debit_error(amount) is None,
    ensures
        ({
            let id = ReservationId(ledger.next_id as u64);
            let held = ledger.after_reserve(amount, ttl, created);
            if now.millis < created.millis + ttl.millis {
                held.commit_error(id, now) is None
            } else {
                &&& held.commit_error(id, now) == Some(EnrError::ReservationExpired(id))
                &&& held.step(LedgerOp::Commit(id, now)) == (LedgerView {
                    next_id: ledger.next_id + 1,
                    ..ledger
                })
            }
        }),
{
    law_release_undoes_reserve(ledger, amount, ttl, created);
}

/// Once a reservation is committed, released or found expired, it is not held any more, and
/// every further attempt to settle it is refused.
pub proof fn law_settled_reservation_is_gone(
    ledger: LedgerView,
    id: ReservationId,
    now: Timestamp,
    later: Timestamp,
)
    ensures
        !ledger.step(LedgerOp::Commit(id, now)).holds(id),
        !ledger.step(LedgerOp::Release(id)).holds(id),
        ledger.step(LedgerOp::Commit(id, now)).commit_error(id, later) == Some(
            EnrError::ReservationNotFound(id),
        ),
        ledger.step(LedgerOp::Release(id)).commit_error(id, later) == Some(
            EnrError::ReservationNotFound(id),
        ),
        ledger.step(LedgerOp::Commit(id, now)).step(LedgerOp::Release(id)) == ledger.step(
            LedgerOp::Commit(id, now),
        ),
        ledger.step(LedgerOp::Release(id)).step(LedgerOp::Release(id)) == ledger.step(
            LedgerOp::Release(id),
        ),
{
}

/// A number given out once is never given out again: a reservation that is settled stays so,
/// whatever is done.
pub proof fn law_settled_reservation_never_returns(
    ledger: LedgerView,
    id: ReservationId,
    ops: Seq<LedgerOp>,
)
    requires
        ledger.wf(),
        ledger.admits_all(ops),
        id.0 < ledger.next_id,
        !ledger.holds(id),
    ensures
        ledger.run(ops).wf(),
        id.0 < ledger.run(ops).next_id,
        !ledger.run(ops).holds(id),
    decreases ops.len(),
{
    if ops.len() > 0 {
        law_settled_reservation_never_returns(ledger, id, ops.drop_last());
        law_operation_keeps_ledger_well_formed(ledger.run(ops.drop_last()), ops.last());
    }
}

impl LedgerView {
    /// Whether `op` makes the reservation `id`.
    pub open spec fn makes(self, op: LedgerOp, id: ReservationId) -> bool {
        op matches LedgerOp::Reserve(amount, _, _) && self.debit_error(amount) is None && id.0
            == self.next_id
    }

    /// Whether `op` commits, releases or reclaims the reservation `id`.
    pub open spec fn settles(self, op: LedgerOp, id: ReservationId) -> bool {
        match op {
            LedgerOp::Commit(which, _) => which == id && self.holds(id),
            LedgerOp::Release(which) => which == id && self.holds(id),
            LedgerOp::ReleaseExpired(now) => self.holds_expired(id, now),
            _ => false,
        }
    }

    /// Whether, among `ops`, the one at `i` makes the reservation `id`.
    pub open spec fn makes_at(self, ops: Seq<LedgerOp>, i: int, id: ReservationId) -> bool {
        self.run(ops.take(i)).makes(ops[i], id)
    }

    /// Whether, among `ops`, the one at `i` settles the reservation `id`.
    pub open spec fn settles_at(self, ops: Seq<LedgerOp>, i: int, id: ReservationId) -> bool {
        self.run(ops.take(i)).settles(ops[i], id)
    }

    /// How many reservations `ops` make.
    pub open spec fn reservations_made(self, ops: Seq<LedgerOp>) -> nat
        decreases ops.len(),
    {
        if ops.len() == 0 {
            0
        } else {
            let before = self.run(ops.drop_last());
            self.reservations_made(ops.drop_last()) + if before.makes(
                ops.last(),
                ReservationId(before.next_id as u64),
            ) {
                1nat
            } else {
                0
            }
        }
    }
}

/// Reservations are numbered in the order in which they are made: after `k` of them on a new
/// ledger, the next one gets the number `k + 1`.
pub proof fn law_reservations_are_numbered_in_order(account: AccountId, ops: Seq<LedgerOp>)
    requires
        LedgerView::empty(account).admits_all(ops),
    ensures
        LedgerView::empty(account).run(ops).next_id == LedgerView::empty(account).reservations_made(
            ops,
        ) + 1,
    decreases ops.len(),
{
    if ops.len() > 0 {
        law_reservations_are_numbered_in_order(account, ops.drop_last());
        law_history_keeps_ledger_well_formed(account, ops.drop_last());
    }
}

/// An operation holds what it makes, lets go of what it settles, and leaves every other
/// reservation as it is.
pub proof fn law_operation_holds_what_is_not_settled(
    ledger: LedgerView,
    op: LedgerOp,
    id: ReservationId,
)
    requires
        ledger.wf(),
        ledger.admits(op),
    ensures
        ledger.step(op).holds(id) <==> ledger.makes(op, id) || (ledger.holds(id)
            && !ledger.settles(op, id)),
        ledger.holds(id) && !ledger.settles(op, id) ==> ledger.step(op).held[id.0]
            == ledger.held[id.0],
{
}

/// Whatever is done, the account stays the same.
proof fn lemma_history_keeps_account(account: AccountId, ops: Seq<LedgerOp>)
    ensures
        LedgerView::empty(account).run(ops).account == account,
    decreases ops.len(),
{
    if ops.len() > 0 {
        lemma_history_keeps_account(account, ops.drop_last());
    }
}

/// A number given out by one of `ops` is below the next one after them.
proof fn lemma_made_number_is_used(
    account: AccountId,
    ops: Seq<LedgerOp>,
    i: int,
    id: ReservationId,
)
    requires
        LedgerView::empty(account).admits_all(ops),
        0 <= i < ops.len(),
        LedgerView::empty(account).makes_at(ops, i, id),
    ensures
        id.0 < LedgerView::empty(account).run(ops).next_id,
    decreases ops.len(),
{
    let earlier = ops.drop_last();
    if i < earlier.len() {
        assert(ops.take(i) =~= earlier.take(i));
        lemma_made_number_is_used(account, earlier, i, id);
    } else {
        assert(ops.take(i) =~= earlier);
    }
}

/// A reservation is held exactly from when it is made until it is settled, whatever is done to
/// a new ledger, and with the amount, the ttl and the time that it was made with.
pub proof fn law_history_holds_what_is_not_settled(
    account: AccountId,
    ops: Seq<LedgerOp>,
    id: ReservationId,
)
    requires
        LedgerView::empty(account).admits_all(ops),
    ensures
        LedgerView::empty(account).run(ops).holds(id) <==> exists|i: int|
            {
                &&& 0 <= i < ops.len()
                &&& #[trigger] LedgerView::empty(account).makes_at(ops, i, id)
                &&& forall|j: int|
                    i < j < ops.len() ==> !#[trigger] LedgerView::empty(account).settles_at(
                        ops,
                        j,
                        id,
                    )
            },
        forall|i: int|
            {
                &&& 0 <= i < ops.len()
                &&& #[trigger] LedgerView::empty(account).makes_at(ops, i, id)
                &&& LedgerView::empty(account).run(ops).holds(id)
            } ==> {
                &&& ops[i] matches LedgerOp::Reserve(amount, ttl, created_at)
                &&& LedgerView::empty(account).run(ops).held[id.0] == (CreditReservation {
                    id,
                    account,
                    amount,
                    ttl,
                    created_at,
                })
            },
    decreases ops.len(),
{
    let new = LedgerView::empty(account);
    lemma_history_keeps_account(account, ops);
    if ops.len() > 0 {
        let earlier = ops.drop_last();
        let last = ops.len() - 1;
        law_history_holds_what_is_not_settled(account, earlier, id);
        law_history_keeps_ledger_well_formed(account, earlier);
        law_operation_holds_what_is_not_settled(new.run(earlier), ops.last(), id);
        assert(ops.take(last) =~= earlier);
        assert forall|i: int| 0 <= i < last implies #[trigger] new.makes_at(ops, i, id)
            == new.makes_at(earlier, i, id) && new.settles_at(ops, i, id) == new.settles_at(
            earlier,
            i,
            id,
        ) by {
            assert(ops.take(i) =~= earlier.take(i));
        }
        assert forall|i: int| 0 <= i < last implies #[trigger] new.settles_at(ops, i, id)
            == new.settles_at(earlier, i, id) by {
            assert(ops.take(i) =~= earlier.take(i));
        }
        lemma_history_keeps_account(account, earlier);
        assert forall|i: int|
            {
                &&& 0 <= i < ops.len()
                &&& #[trigger] new.makes_at(ops, i, id)
                &&& new.run(ops).holds(id)
            } implies {
            &&& ops[i] matches LedgerOp::Reserve(amount, ttl, created_at)
            &&& new.run(ops).held[id.0] == (CreditReservation {
                id,
                account,
                amount,
                ttl,
                created_at,
            })
        } by {
            if i < last {
                assert(new.makes_at(earlier, i, id));
                lemma_made_number_is_used(account, earlier, i, id);
            }
        }
        if new.run(ops).holds(id) {
            if new.run(earlier).makes(ops.last(), id) {
                assert(new.makes_at(ops, last, id));
            } else {
                let i = choose|i: int|
                    {
                        &&& 0 <= i < earlier.len()
                        &&& #[trigger] new.makes_at(earlier, i, id)
                        &&& forall|j: int|
                            i < j < earlier.len() ==> !#[trigger] new.settles_at(earlier, j, id)
                    };
                assert(new.makes_at(ops, i, id));
                assert(!new.settles_at(ops, last, id));
            }
        } else if exists|i: int|
            {
                &&& 0 <= i < ops.len()
                &&& #[trigger] new.makes_at(ops, i, id)
                &&& forall|j: int| i < j < ops.len() ==> !#[trigger] new.settles_at(ops, j, id)
            } {
            let i = choose|i: int|
                {
                    &&& 0 <= i < ops.len()
                    &&& #[trigger] new.makes_at(ops, i, id)
                    &&& forall|j: int| i < j < ops.len() ==> !#[trigger] new.settles_at(ops, j, id)
                };
            if i < last {
                assert(new.makes_at(earlier, i, id));
                assert forall|j: int| i < j < earlier.len() implies !#[trigger] new.settles_at(
                    earlier,
                    j,
                    id,
                ) by {
                    assert(!new.settles_at(ops, j, id));
                }
                assert(!new.settles_at(ops, last, id));
            }
        }
    }
}

/// Only a deposit changes what was funded, spent credits stay spent, numbers only go up, and
/// the account stays the same.
pub proof fn law_operation_never_takes_back(ledger: LedgerView, op: LedgerOp)
    requires
        ledger.wf(),
    ensures
        ledger.step(op).funded == capped(ledger.funded + deposit(op)),
        ledger.step(op).consumed >= ledger.consumed,
        ledger.step(op).next_id >= ledger.next_id,
        ledger.step(op).account == ledger.account,
{
}

/// A sweep leaves no reservation that is expired at its time, touches no other, and a second
/// one finds nothing left to do.
pub proof fn law_sweep_reclaims_all_expired(ledger: LedgerView, now: Timestamp)
    requires
        ledger.wf(),
    ensures
        ({
            let next = ledger.after_sweep(now);
            &&& forall|id: ReservationId| !#[trigger] next.holds_expired(id, now)
            &&& forall|id: ReservationId|
                ledger.holds(id) && !ledger.holds_expired(id, now) ==> #[trigger] next.holds(id)
                    && next.held[id.0] == ledger.held[id.0]
            &&& next.after_sweep(now) == next
        }),
{
    let next = ledger.after_sweep(now);
    assert(expired_part(next.held, now).dom() =~= Set::empty());
    assert(live_part(next.held, now) =~= next.held);
}

/// A sweep takes the amounts of the expired reservations from the reserved pool to the spendable
/// one.
pub proof fn law_sweep_moves_reserved_to_spendable(ledger: LedgerView, now: Timestamp)
    requires
        ledger.wf(),
    ensures
        ({
            let next = ledger.after_sweep(now);
            let reclaimed = reserved_sum(expired_part(ledger.held, now));
            &&& next.reserved() + reclaimed == ledger.reserved()
            &&& next.spendable == capped(ledger.spendable + reclaimed)
            &&& next.consumed == ledger.consumed
        }),
{
    lemma_sum_partition(ledger.held, now);
}

} // verus!
