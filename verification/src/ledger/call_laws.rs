//! What each call on a ledger returns and changes, in plain numbers.
//!
//! `before` and `after` are a ledger before and after one call, `r` is what the call returned.

use vstd::prelude::*;

use super::errors::{EnrError, EnrResult};
use super::model::LedgerView;
use super::reservation::ReservationLedger;
use super::state::{CreditState, StateTransitionError};
use super::sum::{lemma_sum_partition, lemma_sum_remove};
use super::types::{
    AccountId, CreditReservation, Credits, Duration, NodeId, ReservationId, Timestamp,
};
use crate::text::{decimal, law_numeral_stands_for_its_number, value};

verus! {

/// Amounts are added and taken away exactly, but never above the largest amount or below zero.
pub proof fn law_amounts_stop_at_their_limits(a: Credits, b: Credits, sum: Credits, rest: Credits)
    requires
        call_ensures(Credits::saturating_add, (a, b), sum),
        call_ensures(Credits::saturating_sub, (a, b), rest),
    ensures
        a.amount + b.amount <= u64::MAX ==> sum.amount == a.amount + b.amount,
        a.amount + b.amount > u64::MAX ==> sum.amount == u64::MAX,
        a.amount >= b.amount ==> rest.amount == a.amount - b.amount,
        a.amount < b.amount ==> rest.amount == 0,
{
}

/// A second has 1000 milliseconds, and an hour 3600 seconds.
pub proof fn law_spans_count_milliseconds(count: u64, seconds: Duration, n: u64, hours: Duration)
    requires
        call_ensures(Duration::seconds, (count,), seconds),
        call_ensures(Duration::hours, (n,), hours),
    ensures
        seconds.millis == 1000 * count,
        hours.millis == 3600 * (1000 * n),
{
}

/// Amounts, times and names hold what they were made of.
pub proof fn law_values_hold_what_they_were_made_of(
    n: u64,
    bytes: [u8; 32],
    credits: Credits,
    nothing: Credits,
    time: Timestamp,
    node: NodeId,
    account: AccountId,
    id: ReservationId,
)
    requires
        call_ensures(Credits::new, (n,), credits),
        call_ensures(Credits::zero, (), nothing),
        call_ensures(Timestamp::new, (n,), time),
        call_ensures(NodeId::from_bytes, (bytes,), node),
        call_ensures(AccountId::node_account, (node,), account),
        call_ensures(ReservationId::new, (n,), id),
    ensures
        credits.amount == n,
        nothing.amount == 0,
        time.millis == n,
        node.bytes == bytes,
        account.node.bytes == bytes,
        id.0 == n,
{
}

/// Only an amount of zero is zero.
pub proof fn law_only_zero_is_zero(credits: Credits, r: bool)
    requires
        call_ensures(Credits::is_zero, (&credits,), r),
    ensures
        r <==> credits.amount == 0,
{
}

/// An amount in words is its decimal numeral.
pub proof fn law_amount_is_written_in_decimal(credits: Credits, r: String)
    requires
        call_ensures(Credits::to_text, (&credits,), r),
    ensures
        value(r@) == credits.amount,
        r@ == decimal(credits.amount as nat),
{
    law_numeral_stands_for_its_number(credits.amount as nat);
}

/// A reservation keeps what it was made with.
pub proof fn law_reservation_keeps_what_it_was_made_with(
    id: ReservationId,
    account: AccountId,
    amount: Credits,
    ttl: Duration,
    created_at: Timestamp,
    r: CreditReservation,
)
    requires
        call_ensures(CreditReservation::new, (id, account, amount, ttl, created_at), r),
    ensures
        r.id == id,
        r.account == account,
        r.amount == amount,
        r.ttl == ttl,
        r.created_at == created_at,
{
}

/// A reservation is expired exactly from `ttl` after its creation on.
pub proof fn law_reservation_expires_after_its_ttl(
    reservation: CreditReservation,
    now: Timestamp,
    r: bool,
)
    requires
        call_ensures(CreditReservation::is_expired, (&reservation, now), r),
    ensures
        r <==> now.millis - reservation.created_at.millis >= reservation.ttl.millis,
{
}

/// The lifecycle has four steps and no other: from active to reserved, from reserved to consumed
/// or released, and from released to active.
pub proof fn law_lifecycle_has_four_steps(
    from: CreditState,
    to: CreditState,
    r: Result<CreditState, StateTransitionError>,
)
    requires
        call_ensures(CreditState::transition, (from, to), r),
    ensures
        match (from, to) {
            (CreditState::Active, CreditState::Reserved) => r == Ok::<_, StateTransitionError>(
                CreditState::Reserved,
            ),
            (CreditState::Reserved, CreditState::Consumed) => r == Ok::<_, StateTransitionError>(
                CreditState::Consumed,
            ),
            (CreditState::Reserved, CreditState::Released) => r == Ok::<_, StateTransitionError>(
                CreditState::Released,
            ),
            (CreditState::Released, CreditState::Active) => r == Ok::<_, StateTransitionError>(
                CreditState::Active,
            ),
            _ => r matches Err(e) && e.from == from && e.to == to,
        },
{
}

/// What is reserved is the sum of the amounts held: nothing where nothing is held, and any one
/// reservation adds its amount to the others.
pub proof fn law_reserved_is_the_sum_of_what_is_held(ledger: LedgerView, k: u64)
    requires
        ledger.held.dom().finite(),
    ensures
        ledger.held == Map::<u64, CreditReservation>::empty() ==> ledger.reserved() == 0,
        ledger.held.contains_key(k) ==> ledger.reserved() == ledger.held[k].amount.amount + (
        LedgerView { held: ledger.held.remove(k), ..ledger }).reserved(),
{
    if ledger.held.contains_key(k) {
        lemma_sum_remove(ledger.held, k);
    }
}

/// A new ledger holds nothing, and one with a balance has just that balance, funded and
/// spendable. The first reservation will be number one.
pub proof fn law_new_ledger_holds_its_balance(
    account: AccountId,
    amount: Credits,
    empty: ReservationLedger,
    funded: ReservationLedger,
)
    requires
        call_ensures(ReservationLedger::new, (account,), empty),
        call_ensures(ReservationLedger::with_balance, (account, amount), funded),
    ensures
        empty@.account == account,
        empty@.spendable == 0,
        empty@.consumed == 0,
        empty@.funded == 0,
        empty@.next_id == 1,
        empty@.held == Map::<u64, CreditReservation>::empty(),
        funded@.account == account,
        funded@.spendable == amount.amount,
        funded@.consumed == 0,
        funded@.funded == amount.amount,
        funded@.next_id == 1,
        funded@.held == Map::<u64, CreditReservation>::empty(),
{
}

/// A ledger shows its pools, and each reservation that it holds.
pub proof fn law_ledger_shows_its_pools(
    ledger: ReservationLedger,
    id: ReservationId,
    balance: Credits,
    reserved: Credits,
    consumed: Credits,
    funded: Credits,
    count: usize,
    found: Option<&CreditReservation>,
    more: bool,
)
    requires
        ledger.wf(),
        call_ensures(ReservationLedger::balance, (&ledger,), balance),
        call_ensures(ReservationLedger::reserved_total, (&ledger,), reserved),
        call_ensures(ReservationLedger::consumed_total, (&ledger,), consumed),
        call_ensures(ReservationLedger::funded_total, (&ledger,), funded),
        call_ensures(ReservationLedger::active_count, (&ledger,), count),
        call_ensures(ReservationLedger::get, (&ledger, id), found),
        call_ensures(ReservationLedger::can_number_another, (&ledger,), more),
    ensures
        balance.amount == ledger@.spendable,
        ledger@.reserved() <= u64::MAX ==> reserved.amount == ledger@.reserved(),
        ledger@.reserved() > u64::MAX ==> reserved.amount == u64::MAX,
        consumed.amount == ledger@.consumed,
        funded.amount == ledger@.funded,
        count == ledger@.held.dom().len(),
        found is Some <==> ledger@.held.contains_key(id.0),
        found matches Some(reservation) ==> *reservation == ledger@.held[id.0],
        more <==> ledger@.next_id < u64::MAX,
{
}

/// A deposit adds its amount to what is spendable and to what was funded, and changes nothing
/// else.
pub proof fn law_fund_deposits_its_amount(
    before: ReservationLedger,
    after: ReservationLedger,
    amount: Credits,
)
    requires
        before.wf(),
        exists|ledger: &mut ReservationLedger|
            {
                &&& #[trigger] call_ensures(ReservationLedger::fund, (ledger, amount), ())
                &&& *ledger == before
                &&& *final(ledger) == after
            },
    ensures
        after.wf(),
        after@.spendable == if before@.spendable + amount.amount <= u64::MAX {
            before@.spendable + amount.amount
        } else {
            u64::MAX as int
        },
        after@.funded == if before@.funded + amount.amount <= u64::MAX {
            before@.funded + amount.amount
        } else {
            u64::MAX as int
        },
        after@.consumed == before@.consumed,
        after@.held == before@.held,
        after@.next_id == before@.next_id,
        after@.account == before@.account,
{
}

/// An amount is reserved exactly if it is not zero and not above the spendable balance, whatever
/// is held or consumed. It then leaves the spendable pool and is held under the next number, as
/// it was asked for. A refusal says why and changes nothing.
pub proof fn law_reserve_takes_what_is_spendable(
    before: ReservationLedger,
    after: ReservationLedger,
    amount: Credits,
    ttl: Duration,
    now: Timestamp,
    r: EnrResult<ReservationId>,
)
    requires
        before.wf(),
        exists|ledger: &mut ReservationLedger|
            {
                &&& #[trigger] call_ensures(
                    ReservationLedger::reserve,
                    (ledger, amount, ttl, now),
                    r,
                )
                &&& *ledger == before
                &&& *final(ledger) == after
            },
    ensures
        after.wf(),
        r is Ok <==> 0 < amount.amount <= before@.spendable,
        amount.amount == 0 ==> r == Err::<ReservationId, _>(EnrError::ZeroAmount),
        amount.amount > before@.spendable ==> {
            &&& r matches Err(EnrError::InsufficientCredits { required, available })
            &&& required.amount == amount.amount
            &&& available.amount == before@.spendable
        },
        r is Err ==> after@ == before@,
        r matches Ok(id) ==> {
            &&& id.0 == before@.next_id
            &&& !before@.held.contains_key(id.0)
            &&& after@.spendable == before@.spendable - amount.amount
            &&& after@.held == before@.held.insert(
                id.0,
                CreditReservation { id, account: before@.account, amount, ttl, created_at: now },
            )
            &&& after@.next_id == before@.next_id + 1
            &&& after@.consumed == before@.consumed
            &&& after@.funded == before@.funded
            &&& after@.account == before@.account
        },
{
}

/// Any reservation held can be committed before its ttl has elapsed: its amount, which is
/// returned, is then consumed. From then on it cannot: the commit is refused and the amount is
/// spendable again. Either way it is held no longer, and nothing else changes. A reservation that
/// is not held is refused, and nothing changes.
pub proof fn law_commit_consumes_only_before_the_ttl(
    before: ReservationLedger,
    after: ReservationLedger,
    id: ReservationId,
    now: Timestamp,
    r: EnrResult<Credits>,
)
    requires
        before.wf(),
        exists|ledger: &mut ReservationLedger|
            {
                &&& #[trigger] call_ensures(ReservationLedger::commit, (ledger, id, now), r)
                &&& *ledger == before
                &&& *final(ledger) == after
            },
    ensures
        after.wf(),
        !before@.held.contains_key(id.0) ==> {
            &&& r == Err::<Credits, _>(EnrError::ReservationNotFound(id))
            &&& after@ == before@
        },
        before@.held.contains_key(id.0) ==> {
            let held = before@.held[id.0];
            let amount = held.amount.amount;
            &&& after@.held == before@.held.remove(id.0)
            &&& after@.funded == before@.funded
            &&& after@.next_id == before@.next_id
            &&& after@.account == before@.account
            &&& if now.millis < held.created_at.millis + held.ttl.millis {
                &&& r == Ok::<Credits, EnrError>(held.amount)
                &&& after@.spendable == before@.spendable
                &&& after@.consumed == if before@.consumed + amount <= u64::MAX {
                    before@.consumed + amount
                } else {
                    u64::MAX as int
                }
            } else {
                &&& r == Err::<Credits, _>(EnrError::ReservationExpired(id))
                &&& after@.consumed == before@.consumed
                &&& after@.spendable == if before@.spendable + amount <= u64::MAX {
                    before@.spendable + amount
                } else {
                    u64::MAX as int
                }
            }
        },
{
}

/// An amount is spent directly exactly if it is not zero and not above the spendable balance,
/// whatever is held or consumed. It then goes from spendable to consumed. A refusal says why and
/// changes nothing.
pub proof fn law_spend_takes_what_is_spendable(
    before: ReservationLedger,
    after: ReservationLedger,
    amount: Credits,
    r: EnrResult<Credits>,
)
    requires
        before.wf(),
        exists|ledger: &mut ReservationLedger|
            {
                &&& #[trigger] call_ensures(ReservationLedger::spend, (ledger, amount), r)
                &&& *ledger == before
                &&& *final(ledger) == after
            },
    ensures
        after.wf(),
        r is Ok <==> 0 < amount.amount <= before@.spendable,
        amount.amount == 0 ==> r == Err::<Credits, _>(EnrError::ZeroAmount),
        amount.amount > before@.spendable ==> {
            &&& r matches Err(EnrError::InsufficientCredits { required, available })
            &&& required.amount == amount.amount
            &&& available.amount == before@.spendable
        },
        r is Err ==> after@ == before@,
        r matches Ok(spent) ==> {
            &&& spent == amount
            &&& after@.spendable == before@.spendable - amount.amount
            &&& after@.consumed == if before@.consumed + amount.amount <= u64::MAX {
                before@.consumed + amount.amount
            } else {
                u64::MAX as int
            }
            &&& after@.held == before@.held
            &&& after@.funded == before@.funded
            &&& after@.next_id == before@.next_id
            &&& after@.account == before@.account
        },
{
}

/// Any reservation held can be released, expired or not: its amount, which is returned, is
/// spendable again, it is held no longer, and nothing else changes. A reservation that is not held
/// is refused, and nothing changes.
pub proof fn law_release_gives_back_what_is_held(
    before: ReservationLedger,
    after: ReservationLedger,
    id: ReservationId,
    r: EnrResult<Credits>,
)
    requires
        before.wf(),
        exists|ledger: &mut ReservationLedger|
            {
                &&& #[trigger] call_ensures(ReservationLedger::release, (ledger, id), r)
                &&& *ledger == before
                &&& *final(ledger) == after
            },
    ensures
        after.wf(),
        !before@.held.contains_key(id.0) ==> {
            &&& r == Err::<Credits, _>(EnrError::ReservationNotFound(id))
            &&& after@ == before@
        },
        before@.held.contains_key(id.0) ==> {
            let amount = before@.held[id.0].amount;
            &&& r == Ok::<Credits, EnrError>(amount)
            &&& after@.held == before@.held.remove(id.0)
            &&& after@.spendable == if before@.spendable + amount.amount <= u64::MAX {
                before@.spendable + amount.amount
            } else {
                u64::MAX as int
            }
            &&& after@.consumed == before@.consumed
            &&& after@.funded == before@.funded
            &&& after@.next_id == before@.next_id
            &&& after@.account == before@.account
        },
{
}

/// A sweep returns, each once, the ids of exactly the reservations whose ttl has elapsed, and
/// holds exactly the others from then on, as they were. What is no longer reserved is spendable
/// again, and nothing else changes.
pub proof fn law_sweep_gives_back_exactly_the_expired(
    before: ReservationLedger,
    after: ReservationLedger,
    now: Timestamp,
    r: Vec<ReservationId>,
)
    requires
        before.wf(),
        exists|ledger: &mut ReservationLedger|
            {
                &&& #[trigger] call_ensures(ReservationLedger::release_expired, (ledger, now), r)
                &&& *ledger == before
                &&& *final(ledger) == after
            },
    ensures
        after.wf(),
        r@.no_duplicates(),
        forall|id: ReservationId| #[trigger]
            r@.contains(id) <==> {
                &&& before@.held.contains_key(id.0)
                &&& before@.held[id.0].created_at.millis + before@.held[id.0].ttl.millis
                    <= now.millis
            },
        forall|k: u64| #[trigger]
            after@.held.contains_key(k) <==> {
                &&& before@.held.contains_key(k)
                &&& now.millis < before@.held[k].created_at.millis + before@.held[k].ttl.millis
            },
        forall|k: u64| #[trigger]
            after@.held.contains_key(k) ==> after@.held[k] == before@.held[k],
        after@.reserved() <= before@.reserved(),
        ({
            let back = before@.reserved() - after@.reserved();
            after@.spendable == if before@.spendable + back <= u64::MAX {
                before@.spendable + back
            } else {
                u64::MAX as int
            }
        }),
        after@.consumed == before@.consumed,
        after@.funded == before@.funded,
        after@.next_id == before@.next_id,
        after@.account == before@.account,
{
    lemma_sum_partition(before@.held, now);
}

/// The three pools of a ledger together are what was funded, as far as it can be counted, and
/// each reservation is held under its own number, one that was given out before.
pub proof fn law_pools_hold_what_was_funded(ledger: ReservationLedger, k: u64)
    requires
        ledger.wf(),
    ensures
        ({
            let all = ledger@.spendable + ledger@.reserved() + ledger@.consumed;
            ledger@.funded == if all <= u64::MAX {
                all as int
            } else {
                u64::MAX as int
            }
        }),
        ledger@.held.contains_key(k) ==> {
            &&& ledger@.held[k].id.0 == k
            &&& ledger@.held[k].account == ledger@.account
            &&& ledger@.held[k].amount.amount > 0
            &&& 1 <= k < ledger@.next_id
        },
{
}

/// Credits are found conserved exactly if the three pools together are what was funded, where
/// sums stop at the largest amount; otherwise the check says what was found.
pub proof fn law_conservation_is_checked_against_all_pools(
    ledger: ReservationLedger,
    holds: bool,
    r: EnrResult<()>,
)
    requires
        ledger.well_keyed(),
        call_ensures(ReservationLedger::conservation_holds, (&ledger,), holds),
        call_ensures(ReservationLedger::assert_conservation, (&ledger,), r),
    ensures
        ({
            let all = ledger@.spendable + ledger@.reserved() + ledger@.consumed;
            let found = if all <= u64::MAX {
                all as int
            } else {
                u64::MAX as int
            };
            &&& holds <==> found == ledger@.funded
            &&& r is Ok <==> found == ledger@.funded
            &&& r matches Err(e) ==> {
                &&& e matches EnrError::ConservationViolation { expected, actual }
                &&& expected.amount == ledger@.funded
                &&& actual.amount == found
            }
        }),
{
}

/// Every operation may be asked of a ledger at any time, with any arguments, except that a
/// reservation needs a number that is left.
pub proof fn law_operations_may_always_be_asked(
    amount: Credits,
    ttl: Duration,
    id: ReservationId,
    now: Timestamp,
)
    ensures
        forall|ledger: &mut ReservationLedger|
            (*ledger).wf() ==> #[trigger] call_requires(ReservationLedger::fund, (ledger, amount)),
        forall|ledger: &mut ReservationLedger|
            (*ledger).wf() && (*ledger)@.next_id < u64::MAX ==> #[trigger] call_requires(
                ReservationLedger::reserve,
                (ledger, amount, ttl, now),
            ),
        forall|ledger: &mut ReservationLedger|
            (*ledger).wf() && !(0 < amount.amount <= (*ledger)@.spendable)
                ==> #[trigger] call_requires(
                ReservationLedger::reserve,
                (ledger, amount, ttl, now),
            ),
        forall|ledger: &mut ReservationLedger|
            (*ledger).wf() ==> #[trigger] call_requires(
                ReservationLedger::commit,
                (ledger, id, now),
            ),
        forall|ledger: &mut ReservationLedger|
            (*ledger).wf() ==> #[trigger] call_requires(ReservationLedger::spend, (ledger, amount)),
        forall|ledger: &mut ReservationLedger|
            (*ledger).wf() ==> #[trigger] call_requires(ReservationLedger::release, (ledger, id)),
        forall|ledger: &mut ReservationLedger|
            (*ledger).wf() ==> #[trigger] call_requires(
                ReservationLedger::release_expired,
                (ledger, now),
            ),
{
}

} // verus!
