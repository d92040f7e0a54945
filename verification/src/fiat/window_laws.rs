//! The window cap across the bridge: what is spent and what is promised to open spends stay
//! within it together.

use vstd::prelude::*;

use super::book::{BookView, Readiness};
use super::laws::{
    committed_on, law_audit_trail_is_append_only, law_history_keeps_books_well_formed, refunds,
    BookOp,
};
use super::policy::{settled_since, PolicyView, SpendRequestView};
use super::policy_laws::{law_recorded_spend_counts_in_its_window, lemma_spent_within_shrinks};
use super::records::{AuditEntryView, RailOutcomeView};
use crate::ledger::sum::{lemma_sum_insert, lemma_sum_remove, lemma_sum_submap, reserved_sum};
use crate::ledger::types::{
    capped, credit_limit, CreditReservation, Credits, ReservationId, Timestamp,
};

verus! {

/// When `op` happens.
pub open spec fn op_time(op: BookOp) -> Timestamp {
    match op {
        BookOp::Reserve(_, now) => now,
        BookOp::Execute(_, _, now) => now,
        BookOp::Refund(_, now) => now,
    }
}

/// Whether the times of `ops` never go back, from `start` up to `end`.
pub open spec fn in_order(ops: Seq<BookOp>, start: int, end: int) -> bool
    decreases ops.len(),
{
    if ops.len() == 0 {
        start <= end
    } else {
        &&& in_order(ops.drop_last(), start, op_time(ops.last()).millis as int)
        &&& op_time(ops.last()).millis <= end
    }
}

impl PolicyView {
    /// Whether everything in the history settled at `now` or before.
    pub open spec fn settled_by(self, now: Timestamp) -> bool {
        forall|i: int|
            0 <= i < self.history.len() ==> (#[trigger] self.history[i]).0.millis <= now.millis
    }
}

impl BookView {
    /// What is spent within the window that ends at `now`, and what is promised to open spends
    /// not expired then.
    pub open spec fn window_load(self, now: Timestamp) -> nat {
        self.policy.spent(now) + self.open_sum(now)
    }
}

/// The reservations of open spends are finitely many.
proof fn lemma_open_part_finite(book: BookView, now: Timestamp)
    requires
        book.wf(),
    ensures
        book.open_part(now).dom().finite(),
{
    vstd::set_lib::lemma_set_subset_finite(book.ledger.held.dom(), book.open_part(now).dom());
}

/// Where no spend is open, nothing is promised.
pub proof fn law_no_open_spend_promises_nothing(book: BookView, now: Timestamp)
    requires
        book.wf(),
        book.pending.len() == 0,
    ensures
        book.open_sum(now) == 0,
{
    vstd::set_lib::lemma_set_subset_finite(book.ledger.held.dom(), book.pending.dom());
    assert(book.pending.dom() =~= Set::empty());
    assert(book.open_part(now).dom() =~= Set::empty());
}

/// A reserved spend is promised its amount until its ttl has elapsed.
pub proof fn law_reserved_spend_is_promised_its_amount(
    book: BookView,
    req: SpendRequestView,
    now: Timestamp,
    later: Timestamp,
)
    requires
        book.wf(),
        book.reserve_denial(req, now) is None,
    ensures
        book.after_reserve(req, now).open_sum(later) == book.open_sum(later) + if later.millis
            < now.millis + book.ttl.millis {
            req.amount@
        } else {
            0
        },
{
    let next = book.after_reserve(req, now);
    let open = book.open_part(later);
    let k = book.ledger.next_id as u64;
    let r = next.ledger.held[k];
    lemma_open_part_finite(book, later);
    if r.expired_at(later) {
        assert(next.open_part(later) =~= open);
    } else {
        assert(next.open_part(later) =~= open.insert(k, r));
        lemma_sum_insert(open, k, r);
    }
}

/// A spend that is settled, whatever the rail answered, is promised its amount no longer.
pub proof fn law_settled_spend_is_promised_nothing(
    book: BookView,
    id: ReservationId,
    answer: RailOutcomeView,
    now: Timestamp,
)
    requires
        book.wf(),
        book.readiness(id, now) is Ready,
    ensures
        book.after_settlement(id, answer, now).open_sum(now) + book.pending[id.0].amount@
            == book.open_sum(now),
{
    lemma_open_part_finite(book, now);
    assert(book.after_settlement(id, answer, now).open_part(now) =~= book.open_part(now).remove(
        id.0,
    ));
    lemma_sum_remove(book.open_part(now), id.0);
}

/// While nothing is done, no more is promised.
proof fn lemma_open_sum_shrinks(book: BookView, now: Timestamp, later: Timestamp)
    requires
        book.wf(),
        now.millis <= later.millis,
    ensures
        book.open_sum(later) <= book.open_sum(now),
{
    lemma_open_part_finite(book, now);
    lemma_sum_submap(book.open_part(later), book.open_part(now));
}

/// While nothing is done, the load of the window does not grow.
proof fn lemma_window_load_shrinks(book: BookView, now: Timestamp, later: Timestamp)
    requires
        book.wf(),
        book.policy.settled_by(now),
        now.millis <= later.millis,
    ensures
        book.window_load(later) <= book.window_load(now),
{
    lemma_spent_within_shrinks(
        book.policy.history,
        book.policy.window_start(now),
        now.millis as int,
        book.policy.window_start(later),
        later.millis as int,
    );
    lemma_open_sum_shrinks(book, now, later);
}

/// A spend recorded at `now` leaves a history that settled by then.
proof fn lemma_record_settled_by(policy: PolicyView, amount: Credits, now: Timestamp)
    requires
        policy.settled_by(now),
    ensures
        policy.after_record(amount, now).settled_by(now),
{
    let pushed = policy.history.push((now, amount));
    let recent = settled_since(policy.window_start(now));
    let kept = pushed.filter(recent);
    assert forall|i: int| 0 <= i < kept.len() implies (#[trigger] kept[i]).0.millis
        <= now.millis by {
        assert(kept.contains(kept[i]));
        pushed.lemma_filter_contains_rev(recent, kept[i]);
        let j = choose|j: int| 0 <= j < pushed.len() && pushed[j] == kept[i];
        assert(j < policy.history.len() ==> pushed[j] == policy.history[j]);
    }
}

/// An operation keeps the load of the window that ends with it within the cap.
proof fn lemma_operation_keeps_window_cap(book: BookView, op: BookOp, now: Timestamp)
    requires
        book.wf(),
        book.admits(op),
        now == op_time(op),
        book.policy.config.window_cap > 0,
        book.policy.settled_by(now),
        capped(book.window_load(now)) <= book.policy.config.window_cap,
    ensures
        book.step(op).policy.config == book.policy.config,
        book.step(op).policy.settled_by(now),
        capped(book.step(op).window_load(now)) <= book.policy.config.window_cap,
{
    let next = book.step(op);
    let open = book.open_part(now);
    match op {
        BookOp::Reserve(req, _) => {
            if book.reserve_denial(req, now) is None {
                law_reserved_spend_is_promised_its_amount(book, req, now, now);
            } else {
                assert(next.open_part(now) =~= open);
            }
        },
        BookOp::Execute(id, answer, _) => {
            match book.readiness(id, now) {
                Readiness::Unknown => {},
                Readiness::Expired => {
                    assert(next.open_part(now) =~= open);
                },
                Readiness::Ready => {
                    law_settled_spend_is_promised_nothing(book, id, answer, now);
                    lemma_record_settled_by(book.policy, book.pending[id.0].amount, now);
                    law_recorded_spend_counts_in_its_window(
                        book.policy,
                        book.pending[id.0].amount,
                        now,
                        now,
                    );
                },
            }
        },
        BookOp::Refund(_, _) => {
            assert(next.open_part(now) =~= open);
        },
    }
}

/// The credits committed on a trail from `start` up to `end`, both included.
pub open spec fn committed_within(trail: Seq<AuditEntryView>, start: int, end: int) -> nat
    decreases trail.len(),
{
    if trail.len() == 0 {
        0
    } else {
        committed_within(trail.drop_last(), start, end) + if trail.last().event is Committed
            && start <= trail.last().at.millis <= end {
            trail.last().amount@
        } else {
            0
        }
    }
}

/// Within part of the time no more is committed than in all.
proof fn lemma_committed_within_part(trail: Seq<AuditEntryView>, start: int, end: int)
    ensures
        committed_within(trail, start, end) <= committed_on(trail),
    decreases trail.len(),
{
    if trail.len() > 0 {
        lemma_committed_within_part(trail.drop_last(), start, end);
    }
}

/// Whether everything on `trail` happened at `now` or before.
pub open spec fn told_by(trail: Seq<AuditEntryView>, now: Timestamp) -> bool {
    forall|i: int| 0 <= i < trail.len() ==> (#[trigger] trail[i]).at.millis <= now.millis
}

/// A window moved on, past the end of the trail, holds no more than before.
proof fn lemma_committed_within_shrinks(
    trail: Seq<AuditEntryView>,
    start: int,
    now: Timestamp,
    later_start: int,
    later: Timestamp,
)
    requires
        start <= later_start,
        told_by(trail, now),
    ensures
        committed_within(trail, later_start, later.millis as int) <= committed_within(
            trail,
            start,
            now.millis as int,
        ),
    decreases trail.len(),
{
    if trail.len() > 0 {
        let earlier = trail.drop_last();
        assert forall|i: int| 0 <= i < earlier.len() implies (#[trigger] earlier[i]).at.millis
            <= now.millis by {
            assert(earlier[i] == trail[i]);
        }
        lemma_committed_within_shrinks(earlier, start, now, later_start, later);
        assert(trail[trail.len() - 1] == trail.last());
    }
}

impl BookView {
    /// The records that `ops` add to the trail.
    pub open spec fn added_records(self, ops: Seq<BookOp>) -> Seq<AuditEntryView> {
        self.run(ops).audit.skip(self.audit.len() as int)
    }

    /// The reservations of the open spends, expired or not.
    pub open spec fn pending_part(self) -> Map<u64, CreditReservation> {
        Map::new(
            |k: u64| self.pending.contains_key(k) && self.ledger.held.contains_key(k),
            |k: u64| self.ledger.held[k],
        )
    }

    /// The amounts of the open spends, expired or not, added up.
    pub open spec fn pending_sum(self) -> nat {
        reserved_sum(self.pending_part())
    }
}

/// The last operation adds at most one record to those that the ones before it added.
proof fn lemma_added_records(book: BookView, ops: Seq<BookOp>)
    requires
        ops.len() > 0,
    ensures
        ({
            let before = book.run(ops.drop_last());
            let next = book.run(ops);
            if next.audit == before.audit {
                book.added_records(ops) == book.added_records(ops.drop_last())
            } else {
                &&& next.audit.len() == before.audit.len() + 1
                &&& book.added_records(ops) == book.added_records(ops.drop_last()).push(
                    next.audit.last(),
                )
                &&& book.added_records(ops).drop_last() == book.added_records(ops.drop_last())
            }
        }),
{
    let before = book.run(ops.drop_last());
    let next = book.run(ops);
    law_audit_trail_is_append_only(book, ops.drop_last());
    if next.audit != before.audit {
        assert(next.audit == before.audit.push(next.audit.last()));
        assert(book.added_records(ops) =~= book.added_records(ops.drop_last()).push(
            next.audit.last(),
        ));
        assert(book.added_records(ops).drop_last() =~= book.added_records(ops.drop_last()));
    }
}

/// On new books, the records added are the whole trail.
pub proof fn law_new_books_add_the_whole_trail(book: BookView, ops: Seq<BookOp>)
    requires
        book.audit.len() == 0,
    ensures
        book.added_records(ops) == book.run(ops).audit,
{
    assert(book.run(ops).audit.skip(0) =~= book.run(ops).audit);
}

/// Where no spend is open, none has an amount in escrow.
proof fn lemma_no_pending_sum(book: BookView)
    requires
        book.wf(),
        book.pending.len() == 0,
    ensures
        book.pending_sum() == 0,
{
    vstd::set_lib::lemma_set_subset_finite(book.ledger.held.dom(), book.pending.dom());
    assert(book.pending.dom() =~= Set::empty());
    assert(book.pending_part().dom() =~= Set::empty());
}

/// What is promised at any time is in escrow for open spends.
proof fn lemma_promised_is_pending(book: BookView, now: Timestamp)
    requires
        book.wf(),
    ensures
        book.open_sum(now) <= book.pending_sum(),
{
    vstd::set_lib::lemma_set_subset_finite(book.ledger.held.dom(), book.pending_part().dom());
    lemma_sum_submap(book.open_part(now), book.pending_part());
}

/// Spent credits were spendable before: what is committed, what is in escrow for open spends
/// and what is left to spend never exceed, together, what was there at the start and what was
/// refunded since.
pub proof fn law_spends_come_from_the_spendable_pool(book: BookView, ops: Seq<BookOp>)
    requires
        book.wf(),
        book.admits_all(ops),
    ensures
        committed_on(book.added_records(ops)) + book.run(ops).pending_sum() + book.run(
            ops,
        ).ledger.spendable <= book.pending_sum() + book.ledger.spendable + refunds(ops),
    decreases ops.len(),
{
    if ops.len() == 0 {
        assert(book.added_records(ops) =~= Seq::empty());
    } else {
        let before = book.run(ops.drop_last());
        let next = book.run(ops);
        let pending = before.pending_part();
        law_spends_come_from_the_spendable_pool(book, ops.drop_last());
        law_history_keeps_books_well_formed(book, ops.drop_last());
        lemma_added_records(book, ops);
        vstd::set_lib::lemma_set_subset_finite(before.ledger.held.dom(), pending.dom());
        match ops.last() {
            BookOp::Reserve(req, now) => {
                if before.reserve_denial(req, now) is None {
                    let k = before.ledger.next_id as u64;
                    let r = next.ledger.held[k];
                    assert(next.pending_part() =~= pending.insert(k, r));
                    lemma_sum_insert(pending, k, r);
                } else {
                    assert(next.pending_part() =~= pending);
                }
            },
            BookOp::Execute(id, answer, now) => {
                if before.readiness(id, now) is Unknown {
                } else {
                    assert(next.pending_part() =~= pending.remove(id.0));
                    lemma_sum_remove(pending, id.0);
                }
            },
            BookOp::Refund(amount, _) => {
                assert(next.pending_part() =~= pending);
            },
        }
    }
}

/// What the policy counts within the window is what it counted there before and exactly what
/// the records added since show as committed within it, whatever is done at times up to `now`.
pub proof fn law_policy_counts_what_the_trail_shows(
    book: BookView,
    ops: Seq<BookOp>,
    now: Timestamp,
)
    requires
        forall|i: int| 0 <= i < ops.len() ==> op_time(#[trigger] ops[i]).millis <= now.millis,
    ensures
        book.run(ops).policy.config == book.policy.config,
        book.run(ops).policy.spent(now) == book.policy.spent(now) + committed_within(
            book.added_records(ops),
            book.policy.window_start(now),
            now.millis as int,
        ),
    decreases ops.len(),
{
    if ops.len() == 0 {
        assert(book.added_records(ops) =~= Seq::empty());
    } else {
        let before = book.run(ops.drop_last());
        assert forall|i: int| 0 <= i < ops.drop_last().len() implies op_time(
            #[trigger] ops.drop_last()[i],
        ).millis <= now.millis by {
            assert(ops.drop_last()[i] == ops[i]);
        }
        assert(ops[ops.len() - 1] == ops.last());
        law_policy_counts_what_the_trail_shows(book, ops.drop_last(), now);
        lemma_added_records(book, ops);
        match ops.last() {
            BookOp::Execute(id, answer, t) => {
                if before.readiness(id, t) is Ready && answer is Approved {
                    law_recorded_spend_counts_in_its_window(
                        before.policy,
                        before.pending[id.0].amount,
                        t,
                        now,
                    );
                }
            },
            _ => {},
        }
    }
}

/// Operations in order up to `end` all happen at `end` or before.
proof fn lemma_in_order_bound(ops: Seq<BookOp>, start: int, end: int)
    requires
        in_order(ops, start, end),
    ensures
        forall|i: int| 0 <= i < ops.len() ==> op_time(#[trigger] ops[i]).millis <= end,
    decreases ops.len(),
{
    if ops.len() > 0 {
        let t = op_time(ops.last()).millis as int;
        lemma_in_order_bound(ops.drop_last(), start, t);
        assert forall|i: int| 0 <= i < ops.len() implies op_time(#[trigger] ops[i]).millis
            <= end by {
            if i < ops.len() - 1 {
                assert(ops.drop_last()[i] == ops[i]);
            }
        }
    }
}

/// Where what is promised is within the window cap at `start`, then what is committed since
/// within the window, and what is promised, stay within it together, whatever the policy counted
/// before and whatever is done at times that never go back. This is exact where the cap is below
/// the largest amount, and for any cap where what can be spent at all can be counted; else it
/// holds as far as it can be counted.
pub proof fn law_committed_spends_keep_window_cap_from(
    book: BookView,
    ops: Seq<BookOp>,
    start: Timestamp,
    now: Timestamp,
)
    requires
        book.wf(),
        book.admits_all(ops),
        book.policy.config.window_cap > 0,
        capped(book.open_sum(start)) <= book.policy.config.window_cap,
        in_order(ops, start.millis as int, now.millis as int),
    ensures
        told_by(book.added_records(ops), now),
        ({
            let load = committed_within(
                book.added_records(ops),
                book.policy.window_start(now),
                now.millis as int,
            ) + book.run(ops).open_sum(now);
            &&& capped(load) <= book.policy.config.window_cap
            &&& book.policy.config.window_cap < credit_limit() || book.pending_sum()
                + book.ledger.spendable + refunds(ops) <= credit_limit() ==> load
                <= book.policy.config.window_cap
        }),
    decreases ops.len(),
{
    law_history_keeps_books_well_formed(book, ops);
    law_spends_come_from_the_spendable_pool(book, ops);
    lemma_committed_within_part(
        book.added_records(ops),
        book.policy.window_start(now),
        now.millis as int,
    );
    lemma_promised_is_pending(book.run(ops), now);
    if ops.len() == 0 {
        assert(book.added_records(ops) =~= Seq::empty());
        lemma_open_sum_shrinks(book, start, now);
    } else {
        let before = book.run(ops.drop_last());
        let next = book.run(ops);
        let t = op_time(ops.last());
        let open = before.open_part(t);
        law_history_keeps_books_well_formed(book, ops.drop_last());
        law_committed_spends_keep_window_cap_from(book, ops.drop_last(), start, t);
        lemma_in_order_bound(ops.drop_last(), start.millis as int, t.millis as int);
        law_policy_counts_what_the_trail_shows(book, ops.drop_last(), t);
        lemma_added_records(book, ops);
        match ops.last() {
            BookOp::Reserve(req, _) => {
                if before.reserve_denial(req, t) is None {
                    law_reserved_spend_is_promised_its_amount(before, req, t, t);
                } else {
                    assert(next.open_part(t) =~= open);
                }
            },
            BookOp::Execute(id, answer, _) => {
                match before.readiness(id, t) {
                    Readiness::Unknown => {},
                    Readiness::Expired => {
                        assert(next.open_part(t) =~= open);
                    },
                    Readiness::Ready => {
                        law_settled_spend_is_promised_nothing(before, id, answer, t);
                    },
                }
            },
            BookOp::Refund(_, _) => {
                assert(next.open_part(t) =~= open);
            },
        }
        assert(told_by(book.added_records(ops), t));
        lemma_committed_within_shrinks(
            book.added_records(ops),
            book.policy.window_start(t),
            t,
            book.policy.window_start(now),
            now,
        );
        lemma_open_sum_shrinks(next, t, now);
    }
}

/// The records added of committed spends within the window, and what is promised to open ones,
/// never add up to more than its cap, whatever the policy counted before and whatever is done at
/// times that never go back to books with no open spend. This is exact where the cap is below
/// the largest amount, and for any cap where the balance and the refunds can be counted together,
/// so always without refunds; else it holds as far as it can be counted.
pub proof fn law_committed_spends_keep_window_cap(book: BookView, ops: Seq<BookOp>, now: Timestamp)
    requires
        book.wf(),
        book.admits_all(ops),
        book.policy.config.window_cap > 0,
        book.pending.len() == 0,
        in_order(ops, 0, now.millis as int),
    ensures
        ({
            let load = committed_within(
                book.added_records(ops),
                book.policy.window_start(now),
                now.millis as int,
            ) + book.run(ops).open_sum(now);
            &&& capped(load) <= book.policy.config.window_cap
            &&& book.policy.config.window_cap < credit_limit() || book.ledger.spendable + refunds(
                ops,
            ) <= credit_limit() ==> load <= book.policy.config.window_cap
            &&& refunds(ops) == 0 ==> load <= book.policy.config.window_cap
        }),
{
    let start = Timestamp { millis: 0 };
    law_no_open_spend_promises_nothing(book, start);
    lemma_no_pending_sum(book);
    law_committed_spends_keep_window_cap_from(book, ops, start, now);
}

/// Where what is spent and promised is within the window cap at `start`, it stays so, whatever
/// is done at times that never go back. This is exact where the cap is below the largest amount,
/// and for any cap where what was and what can be spent can be counted together; else it holds as
/// far as it can be counted.
pub proof fn law_history_keeps_window_cap_from(
    book: BookView,
    ops: Seq<BookOp>,
    start: Timestamp,
    now: Timestamp,
)
    requires
        book.wf(),
        book.admits_all(ops),
        book.policy.config.window_cap > 0,
        book.policy.settled_by(start),
        capped(book.window_load(start)) <= book.policy.config.window_cap,
        in_order(ops, start.millis as int, now.millis as int),
    ensures
        book.run(ops).policy.config == book.policy.config,
        book.run(ops).policy.settled_by(now),
        capped(book.run(ops).policy.spent(now) + book.run(ops).open_sum(now))
            <= book.policy.config.window_cap,
        book.policy.config.window_cap < credit_limit() || book.policy.spent(now)
            + book.pending_sum() + book.ledger.spendable + refunds(ops) <= credit_limit()
            ==> book.run(ops).policy.spent(now) + book.run(ops).open_sum(now)
            <= book.policy.config.window_cap,
    decreases ops.len(),
{
    law_history_keeps_books_well_formed(book, ops);
    lemma_in_order_bound(ops, start.millis as int, now.millis as int);
    law_policy_counts_what_the_trail_shows(book, ops, now);
    law_spends_come_from_the_spendable_pool(book, ops);
    lemma_committed_within_part(
        book.added_records(ops),
        book.policy.window_start(now),
        now.millis as int,
    );
    lemma_promised_is_pending(book.run(ops), now);
    if ops.len() > 0 {
        let before = book.run(ops.drop_last());
        let t = op_time(ops.last());
        law_history_keeps_books_well_formed(book, ops.drop_last());
        law_history_keeps_window_cap_from(book, ops.drop_last(), start, t);
        lemma_operation_keeps_window_cap(before, ops.last(), t);
        lemma_window_load_shrinks(book.run(ops), t, now);
    } else {
        lemma_window_load_shrinks(book, start, now);
    }
}

/// Never more than the window cap is spent within the window and promised to open spends,
/// whatever is done to new books at times that never go back. This is exact where the cap is
/// below the largest amount, and for any cap where the balance and the refunds can be counted
/// together, so always without refunds; else it holds as far as it can be counted.
pub proof fn law_history_keeps_window_cap(book: BookView, ops: Seq<BookOp>, now: Timestamp)
    requires
        book.wf(),
        book.admits_all(ops),
        book.policy.config.window_cap > 0,
        book.pending.len() == 0,
        book.policy.history.len() == 0,
        in_order(ops, 0, now.millis as int),
    ensures
        capped(book.run(ops).policy.spent(now) + book.run(ops).open_sum(now))
            <= book.policy.config.window_cap,
        book.policy.config.window_cap < credit_limit() || book.ledger.spendable + refunds(ops)
            <= credit_limit() ==> book.run(ops).policy.spent(now) + book.run(ops).open_sum(now)
            <= book.policy.config.window_cap,
        refunds(ops) == 0 ==> book.run(ops).policy.spent(now) + book.run(ops).open_sum(now)
            <= book.policy.config.window_cap,
{
    let start = Timestamp { millis: 0 };
    law_no_open_spend_promises_nothing(book, start);
    lemma_no_pending_sum(book);
    law_history_keeps_window_cap_from(book, ops, start, now);
}

} // verus!
