//! What holds of the policy across its operations.

use vstd::prelude::*;

use super::policy::{
    settled_since, spent_within, PolicyConfigView, PolicyRefusal, PolicyView, Settled,
    SpendRequestView,
};
use crate::ledger::types::{capped, Credits, Timestamp};

verus! {

/// A cap of zero and an empty list restrict nothing.
pub proof fn law_unset_limits_do_not_restrict(
    policy: PolicyView,
    req: SpendRequestView,
    open: nat,
    now: Timestamp,
)
    ensures
        policy.config.per_transaction_cap == 0 ==> policy.refusal_with(req, open, now) != Some(
            PolicyRefusal::OverTransactionCap,
        ),
        policy.config.window_cap == 0 ==> policy.refusal_with(req, open, now) != Some(
            PolicyRefusal::OverWindowCap,
        ),
        policy.config.allowed_categories.len() == 0 ==> policy.refusal_with(req, open, now) != Some(
            PolicyRefusal::CategoryNotAllowed,
        ),
        policy.config.allowed_merchants.len() == 0 ==> policy.refusal_with(req, open, now) != Some(
            PolicyRefusal::MerchantNotAllowed,
        ),
{
}

/// The default configuration allows every request but one for nothing, whatever was spent or
/// promised.
pub proof fn law_default_policy_is_permissive(
    history: Seq<Settled>,
    req: SpendRequestView,
    open: nat,
    now: Timestamp,
)
    ensures
        (PolicyView { config: PolicyConfigView::permissive(), history }).refusal_with(
            req,
            open,
            now,
        ) is None <==> req.amount@ > 0,
{
}

/// What is allowed in one amount is allowed in every smaller one but zero, and with less
/// promised to other spends.
pub proof fn law_smaller_request_is_allowed_too(
    policy: PolicyView,
    req: SpendRequestView,
    open: nat,
    amount: Credits,
    less: nat,
    now: Timestamp,
)
    requires
        policy.refusal_with(req, open, now) is None,
        0 < amount@ <= req.amount@,
        less <= open,
    ensures
        policy.refusal_with(SpendRequestView { amount, ..req }, less, now) is None,
{
}

/// Forgetting what settled before `cutoff` has the same effect on a sum as starting it there, if
/// it starts earlier.
proof fn lemma_spent_within_filter(history: Seq<Settled>, cutoff: int, start: int, end: int)
    ensures
        spent_within(history.filter(settled_since(cutoff)), start, end) == spent_within(
            history,
            if start < cutoff {
                cutoff
            } else {
                start
            },
            end,
        ),
    decreases history.len(),
{
    if history.len() > 0 {
        let earlier = history.drop_last();
        let kept = earlier.filter(settled_since(cutoff));
        lemma_spent_within_filter(earlier, cutoff, start, end);
        assert(earlier.push(history.last()) =~= history);
        earlier.lemma_filter_push(history.last(), settled_since(cutoff));
        assert(kept.push(history.last()).drop_last() =~= kept);
    } else {
        assert(history.filter(settled_since(cutoff)) =~= history);
    }
}

/// A window moved on, past times at which nothing settled, holds no more than before.
pub proof fn lemma_spent_within_shrinks(
    history: Seq<Settled>,
    start: int,
    end: int,
    later_start: int,
    later_end: int,
)
    requires
        start <= later_start,
        forall|i: int|
            0 <= i < history.len() && (#[trigger] history[i]).0.millis <= later_end
                ==> history[i].0.millis <= end,
    ensures
        spent_within(history, later_start, later_end) <= spent_within(history, start, end),
    decreases history.len(),
{
    if history.len() > 0 {
        let earlier = history.drop_last();
        assert forall|i: int|
            0 <= i < earlier.len() && (#[trigger] earlier[i]).0.millis <= later_end implies
            earlier[i].0.millis <= end by {
            assert(earlier[i] == history[i]);
        }
        lemma_spent_within_shrinks(earlier, start, end, later_start, later_end);
        assert(history[history.len() - 1] == history.last());
    }
}

/// A recorded spend counts in every window that ends when it settled or later and reaches back
/// to it; otherwise, recording changes no such window.
pub proof fn law_recorded_spend_counts_in_its_window(
    policy: PolicyView,
    amount: Credits,
    now: Timestamp,
    later: Timestamp,
)
    requires
        now.millis <= later.millis,
    ensures
        policy.after_record(amount, now).spent(later) == policy.spent(later) + if now.millis
            >= policy.window_start(later) {
            amount@
        } else {
            0
        },
{
    let pushed = policy.history.push((now, amount));
    lemma_spent_within_filter(
        pushed,
        policy.window_start(now),
        policy.window_start(later),
        later.millis as int,
    );
    assert(pushed.drop_last() =~= policy.history);
}

/// A recorded spend counts for the configured window, from when it settled: exactly as long as
/// no more than the window has passed since. What counted before it still does.
pub proof fn law_recorded_spend_counts_for_the_configured_window(
    policy: PolicyView,
    amount: Credits,
    settled: Timestamp,
    now: Timestamp,
)
    requires
        settled.millis <= now.millis,
    ensures
        policy.after_record(amount, settled).config == policy.config,
        policy.after_record(amount, settled).spent(now) == policy.spent(now) + if now.millis
            - settled.millis <= policy.config.window.millis {
            amount.amount as nat
        } else {
            0
        },
{
    law_recorded_spend_counts_in_its_window(policy, amount, settled, now);
}

/// What is spent is the sum of what settled no longer ago than the configured window, and not
/// later than now: nothing where nothing settled, and each spend adds its amount if it is among
/// these.
pub proof fn law_spent_is_what_settled_within_the_window(
    policy: PolicyView,
    settled: Timestamp,
    amount: Credits,
    now: Timestamp,
)
    ensures
        (PolicyView { history: Seq::empty(), ..policy }).spent(now) == 0,
        (PolicyView { history: policy.history.push((settled, amount)), ..policy }).spent(now)
            == policy.spent(now) + if 0 <= now.millis - settled.millis
            <= policy.config.window.millis {
            amount.amount as nat
        } else {
            0
        },
{
    assert(policy.history.push((settled, amount)).drop_last() =~= policy.history);
}

/// A request for more than nothing that is within the caps is allowed exactly if its category
/// stands anywhere in the list of categories, or that is empty, and its merchant likewise.
pub proof fn law_listed_names_are_allowed(
    policy: PolicyView,
    req: SpendRequestView,
    open: nat,
    now: Timestamp,
)
    requires
        req.amount.amount > 0,
        policy.config.per_transaction_cap == 0 || req.amount.amount
            <= policy.config.per_transaction_cap,
        policy.config.window_cap == 0 || policy.spent(now) + open + req.amount.amount
            <= policy.config.window_cap,
    ensures
        policy.refusal_with(req, open, now) is None <==> {
            &&& policy.config.allowed_categories.len() == 0 || exists|i: int|
                0 <= i < policy.config.allowed_categories.len()
                    && #[trigger] policy.config.allowed_categories[i] == req.category
            &&& policy.config.allowed_merchants.len() == 0 || exists|j: int|
                0 <= j < policy.config.allowed_merchants.len()
                    && #[trigger] policy.config.allowed_merchants[j] == req.merchant
        },
{
}

/// The policy after `spends` were recorded, one after the other.
pub open spec fn after_records(policy: PolicyView, spends: Seq<Settled>) -> PolicyView
    decreases spends.len(),
{
    if spends.len() == 0 {
        policy
    } else {
        after_records(policy, spends.drop_last()).after_record(spends.last().1, spends.last().0)
    }
}

/// Of any spends recorded at times up to `now`, in whatever order, exactly those within the
/// window that ends at `now` count in it, on top of what counted before.
pub proof fn law_recorded_spends_count_in_their_window(
    policy: PolicyView,
    spends: Seq<Settled>,
    now: Timestamp,
)
    requires
        forall|i: int|
            0 <= i < spends.len() ==> (#[trigger] spends[i]).0.millis <= now.millis,
    ensures
        after_records(policy, spends).config == policy.config,
        after_records(policy, spends).spent(now) == policy.spent(now) + spent_within(
            spends,
            policy.window_start(now),
            now.millis as int,
        ),
    decreases spends.len(),
{
    if spends.len() > 0 {
        let earlier = spends.drop_last();
        assert forall|i: int| 0 <= i < earlier.len() implies (#[trigger] earlier[i]).0.millis
            <= now.millis by {
            assert(earlier[i] == spends[i]);
        }
        assert(spends[spends.len() - 1] == spends.last());
        law_recorded_spends_count_in_their_window(policy, earlier, now);
        law_recorded_spend_counts_in_its_window(
            after_records(policy, earlier),
            spends.last().1,
            spends.last().0,
            now,
        );
    }
}

/// A recorded spend does not count in a window that ended before it settled: recording it only
/// forgets what settled before the window that ends with it.
pub proof fn law_recorded_spend_does_not_count_before(
    policy: PolicyView,
    amount: Credits,
    now: Timestamp,
    earlier: Timestamp,
)
    requires
        earlier.millis < now.millis,
    ensures
        policy.after_record(amount, now).spent(earlier) == spent_within(
            policy.history,
            policy.window_start(now),
            earlier.millis as int,
        ),
        policy.after_record(amount, now).spent(earlier) <= policy.spent(earlier),
{
    let pushed = policy.history.push((now, amount));
    lemma_spent_within_filter(
        pushed,
        policy.window_start(now),
        policy.window_start(earlier),
        earlier.millis as int,
    );
    assert(pushed.drop_last() =~= policy.history);
    lemma_spent_within_shrinks(
        policy.history,
        policy.window_start(earlier),
        earlier.millis as int,
        policy.window_start(now),
        earlier.millis as int,
    );
}

/// A spend that was allowed at `now` and settles at `later`, with no other spend settled in
/// between, leaves the window within its cap.
pub proof fn law_allowed_spend_keeps_window_cap(
    policy: PolicyView,
    req: SpendRequestView,
    now: Timestamp,
    later: Timestamp,
)
    requires
        policy.config.window_cap > 0,
        policy.refusal(req, now) is None,
        now.millis <= later.millis,
        forall|i: int|
            0 <= i < policy.history.len() && (#[trigger] policy.history[i]).0.millis
                <= later.millis ==> policy.history[i].0.millis <= now.millis,
    ensures
        capped(policy.after_record(req.amount, later).spent(later)) <= policy.config.window_cap,
{
    law_recorded_spend_counts_in_its_window(policy, req.amount, later, later);
    lemma_spent_within_shrinks(
        policy.history,
        policy.window_start(now),
        now.millis as int,
        policy.window_start(later),
        later.millis as int,
    );
}

/// What settled before the window begins, or after it ends, does not count in it.
pub proof fn law_spends_outside_the_window_do_not_count(policy: PolicyView, now: Timestamp)
    requires
        forall|i: int|
            0 <= i < policy.history.len() ==> {
                ||| (#[trigger] policy.history[i]).0.millis < policy.window_start(now)
                ||| policy.history[i].0.millis > now.millis
            },
    ensures
        policy.spent(now) == 0,
    decreases policy.history.len(),
{
    if policy.history.len() > 0 {
        let earlier = PolicyView { history: policy.history.drop_last(), ..policy };
        assert forall|i: int| 0 <= i < earlier.history.len() implies {
            ||| (#[trigger] earlier.history[i]).0.millis < earlier.window_start(now)
            ||| earlier.history[i].0.millis > now.millis
        } by {
            assert(earlier.history[i] == policy.history[i]);
        }
        law_spends_outside_the_window_do_not_count(earlier, now);
        assert(policy.history[policy.history.len() - 1] == policy.history.last());
    }
}

} // verus!
