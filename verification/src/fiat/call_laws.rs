//! What each call on the policy and the books returns and changes, in plain numbers.
//!
//! `before` and `after` are the value before and after one call, `r` is what the call returned.

use vstd::prelude::*;

use super::book::{ledger_denial, BookView, SpendBook};
use super::policy::{
    settled_since, Gate, PolicyView, Settled, SpendDenial, SpendPolicyConfig, SpendPolicyGate,
    SpendRequest, SpendRequestView,
};
use super::records::{
    AuditEntry, AuditEntryView, AuditEvent, AuditEventView, RailOutcome, SpendReceipt,
};
use crate::ledger::errors::EnrError;
use crate::ledger::model::LedgerView;
use crate::ledger::reservation::ReservationLedger;
use crate::ledger::sum::lemma_sum_remove;
use crate::ledger::types::{CreditReservation, Credits, Duration, ReservationId, Timestamp};
use crate::text::{decimal, IntoText};

verus! {

/// A refusal names its gate, gives the reason as it is, and is never to be retried.
pub proof fn law_refusal_names_its_gate<T: IntoText>(
    gate: Gate,
    reason: T,
    any: SpendDenial,
    ledger: SpendDenial,
    policy: SpendDenial,
    rail: SpendDenial,
)
    requires
        call_ensures(SpendDenial::new::<T>, (gate, reason), any),
        call_ensures(SpendDenial::ledger::<T>, (reason,), ledger),
        call_ensures(SpendDenial::policy::<T>, (reason,), policy),
        call_ensures(SpendDenial::rail::<T>, (reason,), rail),
    ensures
        any.gate == gate,
        ledger.gate is Ledger,
        policy.gate is Policy,
        rail.gate is Rail,
        any.reason@ == reason.text(),
        ledger.reason@ == reason.text(),
        policy.reason@ == reason.text(),
        rail.reason@ == reason.text(),
        !any.retryable,
        !ledger.retryable,
        !policy.retryable,
        !rail.retryable,
{
}

/// A request asks for what it was made with.
pub proof fn law_request_asks_for_what_it_was_made_with<P: IntoText, C: IntoText, M: IntoText>(
    amount: Credits,
    purpose: P,
    category: C,
    merchant: M,
    r: SpendRequest,
)
    requires
        call_ensures(SpendRequest::new::<P, C, M>, (amount, purpose, category, merchant), r),
    ensures
        r.amount == amount,
        r.purpose@ == purpose.text(),
        r.category@ == category.text(),
        r.merchant@ == merchant.text(),
{
}

/// A new gate goes by its configuration as it was written, and nothing was spent yet.
pub proof fn law_new_gate_goes_by_its_configuration(config: SpendPolicyConfig, r: SpendPolicyGate)
    requires
        call_ensures(SpendPolicyGate::new, (config,), r),
    ensures
        r@.config.per_transaction_cap == config.per_transaction_cap.amount,
        r@.config.window_cap == config.window_cap.amount,
        r@.config.window.millis == config.window.millis,
        r@.config.allowed_categories.len() == config.allowed_categories@.len(),
        forall|i: int|
            0 <= i < config.allowed_categories@.len()
                ==> #[trigger] r@.config.allowed_categories[i] == config.allowed_categories@[i]@,
        r@.config.allowed_merchants.len() == config.allowed_merchants@.len(),
        forall|i: int|
            0 <= i < config.allowed_merchants@.len()
                ==> #[trigger] r@.config.allowed_merchants[i] == config.allowed_merchants@[i]@,
        r@.history.len() == 0,
{
}

/// The default configuration has no caps, a window of 24 hours and empty lists.
pub proof fn law_default_configuration_is_unset(r: SpendPolicyConfig)
    requires
        call_ensures(<SpendPolicyConfig as Default>::default, (), r),
    ensures
        r.per_transaction_cap.amount == 0,
        r.window_cap.amount == 0,
        r.window.millis == 24 * 3600 * 1000,
        r.allowed_categories@.len() == 0,
        r.allowed_merchants@.len() == 0,
{
    assert(r@.allowed_categories.len() == r.allowed_categories@.len());
    assert(r@.allowed_merchants.len() == r.allowed_merchants@.len());
}

/// What a gate shows as spent is what is spent within the window, up to the largest amount.
pub proof fn law_gate_shows_what_is_spent(gate: SpendPolicyGate, now: Timestamp, r: Credits)
    requires
        call_ensures(SpendPolicyGate::spent_in_window, (&gate, now), r),
    ensures
        gate@.spent(now) <= u64::MAX ==> r.amount == gate@.spent(now),
        gate@.spent(now) > u64::MAX ==> r.amount == u64::MAX,
{
}

/// A request is allowed exactly if it asks for something, is within both caps, counting what is
/// spent and promised, and names a category and a merchant that stand anywhere in their lists; a
/// cap of zero and an empty list do not restrict. A refusal is one by the policy, never to be
/// retried, and says the first of these that fails.
pub proof fn law_policy_allows_what_is_within_its_limits(
    gate: SpendPolicyGate,
    req: SpendRequest,
    open: Credits,
    now: Timestamp,
    r: Result<(), SpendDenial>,
)
    requires
        call_ensures(SpendPolicyGate::evaluate_with, (&gate, &req, open, now), r),
    ensures
        ({
            let amount = req.amount.amount;
            let cap = gate@.config.per_transaction_cap;
            let window_cap = gate@.config.window_cap;
            let within_cap = cap == 0 || amount <= cap;
            let category = gate@.config.allowed_categories.len() == 0 || exists|i: int|
                0 <= i < gate@.config.allowed_categories.len()
                    && #[trigger] gate@.config.allowed_categories[i] == req.category@;
            let merchant = gate@.config.allowed_merchants.len() == 0 || exists|i: int|
                0 <= i < gate@.config.allowed_merchants.len()
                    && #[trigger] gate@.config.allowed_merchants[i] == req.merchant@;
            let all = gate@.spent(now) + open.amount + amount;
            let projected = if all <= u64::MAX {
                all
            } else {
                u64::MAX as int
            };
            let within_window = window_cap == 0 || projected <= window_cap;
            &&& r is Ok <==> amount > 0 && within_cap && category && merchant && within_window
            &&& r matches Err(denial) ==> {
                &&& denial.gate is Policy
                &&& !denial.retryable
                &&& denial.reason@ == if amount == 0 {
                    "zero-amount spend"@
                } else if !within_cap {
                    "per-transaction cap exceeded: "@ + decimal(amount as nat) + " > "@ + decimal(
                        cap,
                    )
                } else if !category {
                    "category not allowed: "@ + req.category@
                } else if !merchant {
                    "merchant not allowed: "@ + req.merchant@
                } else {
                    "window cap exceeded: "@ + decimal(projected as nat) + " over window > "@
                        + decimal(window_cap)
                }
            }
        }),
{
}

/// Where nothing is promised to other spends, a request is judged as if nothing were promised:
/// the two ways of asking agree.
pub proof fn law_nothing_promised_changes_nothing(
    gate: SpendPolicyGate,
    req: SpendRequest,
    nothing: Credits,
    now: Timestamp,
    r: Result<(), SpendDenial>,
    with: Result<(), SpendDenial>,
)
    requires
        nothing.amount == 0,
        call_ensures(SpendPolicyGate::evaluate, (&gate, &req, now), r),
        call_ensures(SpendPolicyGate::evaluate_with, (&gate, &req, nothing, now), with),
    ensures
        r is Ok <==> with is Ok,
        r matches Err(a) ==> with matches Err(b) && a.gate == b.gate && a.reason@ == b.reason@
            && a.retryable == b.retryable,
{
}

/// Recording a spend remembers it, and everything that settled no longer than the configured
/// window before it, in order.
pub proof fn law_record_remembers_the_window(
    before: SpendPolicyGate,
    after: SpendPolicyGate,
    amount: Credits,
    now: Timestamp,
)
    requires
        exists|gate: &mut SpendPolicyGate|
            {
                &&& #[trigger] call_ensures(SpendPolicyGate::record_spend, (gate, amount, now), ())
                &&& *gate == before
                &&& *final(gate) == after
            },
    ensures
        after@.config == before@.config,
        after@.history == before@.history.push((now, amount)).filter(
            |e: Settled| now.millis - e.0.millis <= before@.config.window.millis,
        ),
{
    lemma_recent(before@, now);
}

/// What settled since the window began is what settled no longer ago than the window.
pub proof fn lemma_recent(policy: PolicyView, now: Timestamp)
    ensures
        settled_since(policy.window_start(now)) == (|e: Settled|
            now.millis - e.0.millis <= policy.config.window.millis),
{
    assert(settled_since(policy.window_start(now)) =~= (|e: Settled|
        now.millis - e.0.millis <= policy.config.window.millis));
}

/// What is promised is the sum of the open spends whose ttl has not elapsed: nothing where no
/// spend is open, and any one adds its amount to the others while its ttl lasts.
pub proof fn law_promised_is_the_sum_of_live_open_spends(book: BookView, k: u64, now: Timestamp)
    requires
        book.wf(),
    ensures
        book.pending == Map::<u64, SpendRequestView>::empty() ==> book.open_sum(now) == 0,
        book.pending.contains_key(k) ==> book.open_sum(now) == (BookView {
            pending: book.pending.remove(k),
            ..book
        }).open_sum(now) + if now.millis < book.ledger.held[k].created_at.millis
            + book.ledger.held[k].ttl.millis {
            book.pending[k].amount.amount as nat
        } else {
            0
        },
{
    let open = book.open_part(now);
    vstd::set_lib::lemma_set_subset_finite(book.ledger.held.dom(), open.dom());
    if book.pending == Map::<u64, SpendRequestView>::empty() {
        assert(open.dom() =~= Set::empty());
    }
    if book.pending.contains_key(k) {
        let others = BookView { pending: book.pending.remove(k), ..book };
        if open.contains_key(k) {
            lemma_sum_remove(open, k);
            assert(others.open_part(now) =~= open.remove(k));
        } else {
            assert(others.open_part(now) =~= open);
        }
    }
}

/// A refusal by the ledger keeps its reason when it becomes a refusal of the spend.
pub proof fn law_ledger_refusal_keeps_its_reason(error: EnrError, r: SpendDenial)
    requires
        call_ensures(ledger_denial, (error,), r),
    ensures
        r.gate is Ledger,
        !r.retryable,
        error matches EnrError::InsufficientCredits { required, available } ==> r.reason@
            == "insufficient credits: required "@ + decimal(required.amount as nat)
            + ", available "@ + decimal(available.amount as nat),
        error is ZeroAmount ==> r.reason@ == "zero-amount spend"@,
        error matches EnrError::ReservationNotFound(id) ==> r.reason@ == "reservation not found: "@
            + decimal(id.0 as nat),
        error matches EnrError::ReservationExpired(id) ==> r.reason@ == "reservation expired: "@
            + decimal(id.0 as nat),
        error is InvalidStateTransition ==> r.reason@ == "invalid state transition"@,
        error matches EnrError::ConservationViolation { expected, actual } ==> r.reason@
            == "conservation violated: expected "@ + decimal(expected.amount as nat)
            + ", actual "@ + decimal(actual.amount as nat),
{
}

/// New books keep what they are made of, with no open spend and nothing on the trail.
pub proof fn law_new_books_are_blank(
    ledger: ReservationLedger,
    policy: SpendPolicyGate,
    ttl: Duration,
    r: SpendBook,
)
    requires
        ledger.wf(),
        call_ensures(SpendBook::new, (ledger, policy, ttl), r),
    ensures
        r@.ledger == ledger@,
        r@.policy == policy@,
        r@.ttl == ttl,
        r@.pending == Map::<u64, SpendRequestView>::empty(),
        r@.audit.len() == 0,
{
}

/// Whether `view` says what `event` says.
pub open spec fn says(event: AuditEvent, view: AuditEventView) -> bool {
    match event {
        AuditEvent::Reserved => view is Reserved,
        AuditEvent::Denied { gate, reason } => view == (AuditEventView::Denied {
            gate,
            reason: reason@,
        }),
        AuditEvent::Committed { txn_id } => view == (AuditEventView::Committed {
            txn_id: txn_id@,
        }),
        AuditEvent::Released { reason } => view == (AuditEventView::Released { reason: reason@ }),
        AuditEvent::Refunded => view is Refunded,
    }
}

/// Books show their pools and their whole trail.
pub proof fn law_books_show_their_trail(
    book: SpendBook,
    balance: Credits,
    reserved: Credits,
    more: bool,
    entries: &[AuditEntry],
    i: int,
)
    requires
        book.wf(),
        call_ensures(SpendBook::balance, (&book,), balance),
        call_ensures(SpendBook::reserved, (&book,), reserved),
        call_ensures(SpendBook::can_number_another, (&book,), more),
        call_ensures(SpendBook::audit, (&book,), entries),
    ensures
        balance.amount == book@.ledger.spendable,
        book@.ledger.reserved() <= u64::MAX ==> reserved.amount == book@.ledger.reserved(),
        book@.ledger.reserved() > u64::MAX ==> reserved.amount == u64::MAX,
        more <==> book@.ledger.next_id < u64::MAX,
        entries@.len() == book@.audit.len(),
        0 <= i < entries@.len() ==> {
            &&& entries@[i].reservation_id == book@.audit[i].reservation_id
            &&& entries@[i].amount == book@.audit[i].amount
            &&& entries@[i].at == book@.audit[i].at
            &&& says(entries@[i].event, book@.audit[i].event)
        },
{
    if 0 <= i < entries@.len() {
        assert(book@.audit[i] == entries@[i]@);
    }
}

/// A spend is reserved exactly if it asks for something within the limits of the policy, counting
/// what is promised to open spends, and for no more than is spendable. Its amount is then held
/// under the next number for the books' ttl, the spend is open as it was asked for, and one record
/// says so. A refusal comes from the policy if that refuses, else from the ledger; it leaves one
/// record with the same reason, and nothing else changes.
pub proof fn law_spend_is_reserved_within_all_limits(
    before: SpendBook,
    after: SpendBook,
    req: SpendRequest,
    now: Timestamp,
    r: Result<ReservationId, SpendDenial>,
)
    requires
        before.wf(),
        exists|book: &mut SpendBook|
            {
                &&& #[trigger] call_ensures(SpendBook::reserve, (book, req, now), r)
                &&& *book == before
                &&& *final(book) == after
            },
    ensures
        after.wf(),
        ({
            let amount = req.amount.amount;
            let config = before@.policy.config;
            let all = before@.policy.spent(now) + before@.open_sum(now) + amount;
            let projected = if all <= u64::MAX {
                all
            } else {
                u64::MAX as int
            };
            let within_cap = config.per_transaction_cap == 0 || amount
                <= config.per_transaction_cap;
            let category = config.allowed_categories.len() == 0 || exists|i: int|
                0 <= i < config.allowed_categories.len()
                    && #[trigger] config.allowed_categories[i] == req.category@;
            let merchant = config.allowed_merchants.len() == 0 || exists|i: int|
                0 <= i < config.allowed_merchants.len()
                    && #[trigger] config.allowed_merchants[i] == req.merchant@;
            let within_window = config.window_cap == 0 || projected <= config.window_cap;
            let allowed = amount > 0 && within_cap && category && merchant && within_window;
            &&& r is Ok <==> allowed && amount <= before@.ledger.spendable
            &&& after@.policy == before@.policy
            &&& after@.ttl == before@.ttl
            &&& r matches Ok(id) ==> {
                &&& id.0 == before@.ledger.next_id
                &&& after@.ledger == (LedgerView {
                    spendable: (before@.ledger.spendable - amount) as nat,
                    next_id: before@.ledger.next_id + 1,
                    held: before@.ledger.held.insert(
                        id.0,
                        CreditReservation {
                            id,
                            account: before@.ledger.account,
                            amount: req.amount,
                            ttl: before@.ttl,
                            created_at: now,
                        },
                    ),
                    ..before@.ledger
                })
                &&& !before@.pending.contains_key(id.0)
                &&& after@.pending == before@.pending.insert(
                    id.0,
                    SpendRequestView {
                        amount: req.amount,
                        purpose: req.purpose@,
                        category: req.category@,
                        merchant: req.merchant@,
                    },
                )
                &&& after@.audit == before@.audit.push(
                    AuditEntryView {
                        reservation_id: Some(id),
                        amount: req.amount,
                        event: AuditEventView::Reserved,
                        at: now,
                    },
                )
            }
            &&& r matches Err(denial) ==> {
                &&& !denial.retryable
                &&& denial.gate == if allowed {
                    Gate::Ledger
                } else {
                    Gate::Policy
                }
                &&& denial.reason@ == if amount == 0 {
                    "zero-amount spend"@
                } else if !within_cap {
                    "per-transaction cap exceeded: "@ + decimal(amount as nat) + " > "@ + decimal(
                        config.per_transaction_cap,
                    )
                } else if !category {
                    "category not allowed: "@ + req.category@
                } else if !merchant {
                    "merchant not allowed: "@ + req.merchant@
                } else if !within_window {
                    "window cap exceeded: "@ + decimal(projected as nat) + " over window > "@
                        + decimal(config.window_cap)
                } else {
                    "insufficient credits: required "@ + decimal(amount as nat) + ", available "@
                        + decimal(before@.ledger.spendable)
                }
                &&& after@.ledger == before@.ledger
                &&& after@.pending == before@.pending
                &&& after@.audit == before@.audit.push(
                    AuditEntryView {
                        reservation_id: None,
                        amount: req.amount,
                        event: AuditEventView::Denied {
                            gate: denial.gate,
                            reason: denial.reason@,
                        },
                        at: now,
                    },
                )
            }
        }),
{
}

/// The rail is to be asked for an open spend whose ttl has not elapsed: for just what was asked
/// for, under a key made of its number, and nothing changes yet. One that is not open is refused,
/// and nothing changes. One whose ttl has elapsed is refused and closed: its amount is spendable
/// again, and one record says so.
pub proof fn law_spend_is_ready_before_its_ttl(
    before: SpendBook,
    after: SpendBook,
    id: ReservationId,
    now: Timestamp,
    r: Result<(SpendRequest, String), SpendDenial>,
)
    requires
        before.wf(),
        exists|book: &mut SpendBook|
            {
                &&& #[trigger] call_ensures(SpendBook::prepare, (book, id, now), r)
                &&& *book == before
                &&& *final(book) == after
            },
    ensures
        after.wf(),
        !before@.pending.contains_key(id.0) ==> {
            &&& r matches Err(denial)
            &&& denial.gate is Ledger
            &&& denial.reason@ == "unknown reservation: ReservationId("@ + decimal(id.0 as nat)
                + ")"@
            &&& !denial.retryable
            &&& after@ == before@
        },
        before@.pending.contains_key(id.0) ==> {
            let held = before@.ledger.held[id.0];
            let asked = before@.pending[id.0];
            if now.millis < held.created_at.millis + held.ttl.millis {
                &&& r matches Ok(prepared)
                &&& prepared.0.amount == asked.amount
                &&& prepared.0.purpose@ == asked.purpose
                &&& prepared.0.category@ == asked.category
                &&& prepared.0.merchant@ == asked.merchant
                &&& prepared.1@ == "resv-"@ + decimal(id.0 as nat)
                &&& after@ == before@
            } else {
                &&& r matches Err(denial)
                &&& denial.gate is Ledger
                &&& denial.reason@ == "reservation expired"@
                &&& !denial.retryable
                &&& after@ == (BookView {
                    ledger: LedgerView {
                        spendable: if before@.ledger.spendable + asked.amount.amount <= u64::MAX {
                            (before@.ledger.spendable + asked.amount.amount) as nat
                        } else {
                            u64::MAX as nat
                        },
                        held: before@.ledger.held.remove(id.0),
                        ..before@.ledger
                    },
                    pending: before@.pending.remove(id.0),
                    audit: before@.audit.push(
                        AuditEntryView {
                            reservation_id: Some(id),
                            amount: asked.amount,
                            event: AuditEventView::Released { reason: "expired"@ },
                            at: now,
                        },
                    ),
                    ..before@
                })
            }
        },
{
}

/// An approved spend is settled for the amount that was asked for and held: the receipt is for
/// it, the ledger consumes it, the policy counts it, and the record shows it, with the
/// transaction that the rail named. A declined one is refused for the rail's reason, and its
/// amount is spendable again. Either way the spend is open no longer, and nothing else changes.
pub proof fn law_settlement_is_for_the_amount_asked(
    before: SpendBook,
    after: SpendBook,
    id: ReservationId,
    outcome: RailOutcome,
    now: Timestamp,
    r: Result<SpendReceipt, SpendDenial>,
)
    requires
        before.wf(),
        before@.pending.contains_key(id.0),
        now.millis < before@.ledger.held[id.0].created_at.millis
            + before@.ledger.held[id.0].ttl.millis,
        exists|book: &mut SpendBook|
            {
                &&& #[trigger] call_ensures(SpendBook::settle, (book, id, outcome, now), r)
                &&& *book == before
                &&& *final(book) == after
            },
    ensures
        after.wf(),
        ({
            let asked = before@.pending[id.0].amount;
            let consumed = before@.ledger.consumed + asked.amount;
            let spendable = before@.ledger.spendable + asked.amount;
            &&& before@.ledger.held[id.0].amount == asked
            &&& after@.pending == before@.pending.remove(id.0)
            &&& after@.ledger.held == before@.ledger.held.remove(id.0)
            &&& after@.ledger.funded == before@.ledger.funded
            &&& after@.ledger.next_id == before@.ledger.next_id
            &&& after@.ledger.account == before@.ledger.account
            &&& after@.ttl == before@.ttl
            &&& after@.policy.config == before@.policy.config
            &&& match outcome {
                RailOutcome::Approved { txn_id } => {
                    &&& r matches Ok(receipt)
                    &&& receipt.reservation_id == id
                    &&& receipt.amount == asked
                    &&& receipt.txn_id@ == txn_id@
                    &&& after@.ledger.spendable == before@.ledger.spendable
                    &&& after@.ledger.consumed == if consumed <= u64::MAX {
                        consumed
                    } else {
                        u64::MAX as int
                    }
                    &&& after@.policy.history == before@.policy.history.push((now, asked)).filter(
                        |e: Settled|
                            now.millis - e.0.millis <= before@.policy.config.window.millis,
                    )
                    &&& after@.audit == before@.audit.push(
                        AuditEntryView {
                            reservation_id: Some(id),
                            amount: asked,
                            event: AuditEventView::Committed { txn_id: txn_id@ },
                            at: now,
                        },
                    )
                },
                RailOutcome::Declined { reason } => {
                    &&& r matches Err(denial)
                    &&& denial.gate is Rail
                    &&& denial.reason@ == reason@
                    &&& !denial.retryable
                    &&& after@.ledger.consumed == before@.ledger.consumed
                    &&& after@.ledger.spendable == if spendable <= u64::MAX {
                        spendable
                    } else {
                        u64::MAX as int
                    }
                    &&& after@.policy.history == before@.policy.history
                    &&& after@.audit == before@.audit.push(
                        AuditEntryView {
                            reservation_id: Some(id),
                            amount: asked,
                            event: AuditEventView::Released { reason: reason@ },
                            at: now,
                        },
                    )
                },
            }
        }),
{
    lemma_recent(before@.policy, now);
}

/// A refund deposits its amount and leaves one record; open spends, what is consumed and what
/// the policy counts stay as they are.
pub proof fn law_refund_deposits_its_amount(
    before: SpendBook,
    after: SpendBook,
    amount: Credits,
    now: Timestamp,
)
    requires
        before.wf(),
        exists|book: &mut SpendBook|
            {
                &&& #[trigger] call_ensures(SpendBook::refund, (book, amount, now), ())
                &&& *book == before
                &&& *final(book) == after
            },
    ensures
        after.wf(),
        after@ == (BookView {
            ledger: LedgerView {
                spendable: if before@.ledger.spendable + amount.amount <= u64::MAX {
                    (before@.ledger.spendable + amount.amount) as nat
                } else {
                    u64::MAX as nat
                },
                funded: if before@.ledger.funded + amount.amount <= u64::MAX {
                    (before@.ledger.funded + amount.amount) as nat
                } else {
                    u64::MAX as nat
                },
                ..before@.ledger
            },
            audit: before@.audit.push(
                AuditEntryView {
                    reservation_id: None,
                    amount,
                    event: AuditEventView::Refunded,
                    at: now,
                },
            ),
            ..before@
        }),
{
}

/// The policy may be asked at any time, and so may the books, except that a reservation needs a
/// number that is left, and only an open spend whose ttl has not elapsed can be settled.
pub proof fn law_policy_and_books_may_always_be_asked(
    gate: SpendPolicyGate,
    req: SpendRequest,
    amount: Credits,
    id: ReservationId,
    outcome: RailOutcome,
    now: Timestamp,
)
    ensures
        call_requires(SpendPolicyGate::spent_in_window, (&gate, now)),
        call_requires(SpendPolicyGate::evaluate, (&gate, &req, now)),
        call_requires(SpendPolicyGate::evaluate_with, (&gate, &req, amount, now)),
        forall|g: &mut SpendPolicyGate| #[trigger]
            call_requires(SpendPolicyGate::record_spend, (g, amount, now)),
        forall|book: &mut SpendBook|
            (*book).wf() && (*book)@.ledger.next_id < u64::MAX ==> #[trigger] call_requires(
                SpendBook::reserve,
                (book, req, now),
            ),
        forall|book: &mut SpendBook|
            (*book).wf() ==> #[trigger] call_requires(SpendBook::prepare, (book, id, now)),
        forall|book: &mut SpendBook|
            {
                &&& (*book).wf()
                &&& (*book)@.pending.contains_key(id.0)
                &&& now.millis < (*book)@.ledger.held[id.0].created_at.millis
                    + (*book)@.ledger.held[id.0].ttl.millis
            } ==> #[trigger] call_requires(SpendBook::settle, (book, id, outcome, now)),
        forall|book: &mut SpendBook|
            (*book).wf() ==> #[trigger] call_requires(SpendBook::refund, (book, amount, now)),
{
}

} // verus!
