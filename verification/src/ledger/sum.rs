//! What a collection of reservations adds up to.

use vstd::prelude::*;

use super::types::{CreditReservation, Timestamp};

verus! {

/// The amounts of all reservations in `held`, added up.
pub open spec fn reserved_sum(held: Map<u64, CreditReservation>) -> nat
    decreases held.dom().len(),
{
    if held.dom().finite() && held.dom().len() > 0 {
        let k = held.dom().choose();
        held[k].amount@ + reserved_sum(held.remove(k))
    } else {
        0
    }
}

/// The reservations in `held` whose ttl has elapsed at `now`.
pub open spec fn expired_part(held: Map<u64, CreditReservation>, now: Timestamp) -> Map<
    u64,
    CreditReservation,
> {
    Map::new(|k: u64| held.contains_key(k) && held[k].expired_at(now), |k: u64| held[k])
}

/// The reservations in `held` whose ttl has not elapsed at `now`.
pub open spec fn live_part(held: Map<u64, CreditReservation>, now: Timestamp) -> Map<
    u64,
    CreditReservation,
> {
    Map::new(|k: u64| held.contains_key(k) && !held[k].expired_at(now), |k: u64| held[k])
}

/// Any one reservation can be set apart from the sum.
pub proof fn lemma_sum_remove(held: Map<u64, CreditReservation>, k: u64)
    requires
        held.dom().finite(),
        held.contains_key(k),
    ensures
        reserved_sum(held) == held[k].amount@ + reserved_sum(held.remove(k)),
    decreases held.dom().len(),
{
    let c = held.dom().choose();
    if c != k {
        lemma_sum_remove(held.remove(c), k);
        lemma_sum_remove(held.remove(k), c);
        assert(held.remove(c).remove(k) =~= held.remove(k).remove(c));
    }
}

/// A reservation under a new key adds its amount to the sum.
pub proof fn lemma_sum_insert(held: Map<u64, CreditReservation>, k: u64, r: CreditReservation)
    requires
        held.dom().finite(),
        !held.contains_key(k),
    ensures
        reserved_sum(held.insert(k, r)) == reserved_sum(held) + r.amount@,
{
    lemma_sum_remove(held.insert(k, r), k);
    assert(held.insert(k, r).remove(k) =~= held);
}

/// Part of the reservations adds up to no more than all of them.
pub proof fn lemma_sum_submap(part: Map<u64, CreditReservation>, held: Map<u64, CreditReservation>)
    requires
        held.dom().finite(),
        part.submap_of(held),
    ensures
        part.dom().finite(),
        reserved_sum(part) <= reserved_sum(held),
    decreases held.dom().len(),
{
    vstd::set_lib::lemma_set_subset_finite(held.dom(), part.dom());
    if held.dom().len() > 0 {
        let k = held.dom().choose();
        lemma_sum_submap(part.remove(k), held.remove(k));
        if part.contains_key(k) {
            lemma_sum_remove(part, k);
        } else {
            assert(part.remove(k) =~= part);
        }
    } else {
        assert(held.dom() =~= Set::empty());
        assert forall|k: u64| !part.dom().contains(k) by {
            assert(part.dom().contains(k) ==> held.dom().contains(k));
        }
        assert(part.dom() =~= Set::empty());
    }
}

/// The expired and the live reservations are finitely many and make up the whole sum.
pub proof fn lemma_sum_partition(held: Map<u64, CreditReservation>, now: Timestamp)
    requires
        held.dom().finite(),
    ensures
        expired_part(held, now).dom().finite(),
        live_part(held, now).dom().finite(),
        reserved_sum(held) == reserved_sum(expired_part(held, now)) + reserved_sum(
            live_part(held, now),
        ),
    decreases held.dom().len(),
{
    let expired = expired_part(held, now);
    let live = live_part(held, now);
    vstd::set_lib::lemma_set_subset_finite(held.dom(), expired.dom());
    vstd::set_lib::lemma_set_subset_finite(held.dom(), live.dom());
    if held.dom().len() > 0 {
        let k = held.dom().choose();
        let rest = held.remove(k);
        lemma_sum_partition(rest, now);
        if held[k].expired_at(now) {
            assert(expired_part(rest, now) =~= expired.remove(k));
            assert(live_part(rest, now) =~= live);
            lemma_sum_remove(expired, k);
        } else {
            assert(expired_part(rest, now) =~= expired);
            assert(live_part(rest, now) =~= live.remove(k));
            lemma_sum_remove(live, k);
        }
    } else {
        assert(expired.dom() =~= Set::empty());
        assert(live.dom() =~= Set::empty());
    }
}

} // verus!
