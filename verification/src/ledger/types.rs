//! Amounts, time and identities.

use vstd::prelude::*;

use crate::text::{decimal, decimal_string};

verus! {

/// An amount of credits.
#[derive(Debug, Clone, Copy, PartialEq, Eq, PartialOrd, Ord, Hash)]
pub struct Credits {
    pub amount: u64,
}

/// The largest amount that can be counted.
pub open spec fn credit_limit() -> nat {
    u64::MAX as nat
}

/// `n` as far as it can be counted: the largest amount stands for anything above it.
pub open spec fn capped(n: nat) -> nat {
    if n <= credit_limit() {
        n
    } else {
        credit_limit()
    }
}

impl View for Credits {
    type V = nat;

    open spec fn view(&self) -> nat {
        self.amount as nat
    }
}

impl Credits {
    /// `amount` credits.
    pub fn new(amount: u64) -> (c: Self)
        ensures
            c.amount == amount,
    {
        Credits { amount }
    }

    /// No credits at all.
    pub fn zero() -> (c: Self)
        ensures
            c.amount == 0,
    {
        Credits { amount: 0 }
    }

    /// Whether there are none.
    pub fn is_zero(&self) -> (b: bool)
        ensures
            b == (self.amount == 0),
    {
        self.amount == 0
    }

    /// The sum, or the largest amount where the sum is above it.
    pub fn saturating_add(self, other: Credits) -> (c: Self)
        ensures
            c@ == capped(self@ + other@),
    {
        Credits { amount: self.amount.saturating_add(other.amount) }
    }

    /// The difference, or zero where it would be below zero.
    pub fn saturating_sub(self, other: Credits) -> (c: Self)
        ensures
            c@ == if self@ >= other@ {
                (self@ - other@) as nat
            } else {
                0
            },
    {
        Credits { amount: self.amount.saturating_sub(other.amount) }
    }

    /// The amount in decimal.
    pub fn to_text(&self) -> (s: String)
        ensures
            s@ == decimal(self@),
    {
        decimal_string(self.amount)
    }
}

/// A point in time, in milliseconds.
#[derive(Debug, Clone, Copy, PartialEq, Eq, PartialOrd, Ord, Hash)]
pub struct Timestamp {
    pub millis: u64,
}

impl Timestamp {
    /// The point in time `millis` milliseconds after the clock's origin.
    pub fn new(millis: u64) -> (t: Self)
        ensures
            t.millis == millis,
    {
        Timestamp { millis }
    }
}

/// A span of time, in milliseconds.
#[derive(Debug, Clone, Copy, PartialEq, Eq, PartialOrd, Ord, Hash)]
pub struct Duration {
    pub millis: u64,
}

impl Duration {
    /// A span of `count` seconds.
    pub fn seconds(count: u64) -> (d: Self)
        requires
            count * 1000 <= u64::MAX,
        ensures
            d.millis == count * 1000,
    {
        Duration { millis: count * 1000 }
    }

    /// A span of `count` hours.
    pub fn hours(count: u64) -> (d: Self)
        requires
            count * 3_600_000 <= u64::MAX,
        ensures
            d.millis == count * 3_600_000,
    {
        Duration { millis: count * 3_600_000 }
    }
}

/// Names a node of the network.
#[derive(Debug, Clone, Copy, PartialEq, Eq, Hash)]
pub struct NodeId {
    pub bytes: [u8; 32],
}

impl NodeId {
    /// The node that `bytes` names.
    pub fn from_bytes(bytes: [u8; 32]) -> (n: Self)
        ensures
            n.bytes == bytes,
    {
        NodeId { bytes }
    }
}

/// Names a credit account.
#[derive(Debug, Clone, Copy, PartialEq, Eq, Hash)]
pub struct AccountId {
    pub node: NodeId,
}

impl AccountId {
    /// The account of `node`.
    pub fn node_account(node: NodeId) -> (a: Self)
        ensures
            a.node == node,
    {
        AccountId { node }
    }
}

/// Names a reservation within one ledger.
#[derive(Debug, Clone, Copy, PartialEq, Eq, PartialOrd, Ord, Hash)]
pub struct ReservationId(pub u64);

impl ReservationId {
    /// The reservation numbered `number`.
    pub fn new(number: u64) -> (id: Self)
        ensures
            id.0 == number,
    {
        ReservationId(number)
    }
}

/// Credits set aside for one spend.
#[derive(Debug, Clone, Copy, PartialEq, Eq, Hash)]
pub struct CreditReservation {
    pub id: ReservationId,
    pub account: AccountId,
    pub amount: Credits,
    /// How long the reservation may be used.
    pub ttl: Duration,
    pub created_at: Timestamp,
}

impl CreditReservation {
    /// `amount` of `account`, set aside at `created_at` for up to `ttl`.
    pub fn new(
        id: ReservationId,
        account: AccountId,
        amount: Credits,
        ttl: Duration,
        created_at: Timestamp,
    ) -> (r: Self)
        ensures
            r == (CreditReservation { id, account, amount, ttl, created_at }),
    {
        CreditReservation { id, account, amount, ttl, created_at }
    }

    /// Whether `ttl` has elapsed at `now`.
    pub open spec fn expired_at(&self, now: Timestamp) -> bool {
        self.created_at.millis + self.ttl.millis <= now.millis
    }

    /// Whether `ttl` has elapsed at `now`.
    pub fn is_expired(&self, now: Timestamp) -> (b: bool)
        ensures
            b == self.expired_at(now),
    {
        now.millis >= self.created_at.millis && now.millis - self.created_at.millis
            >= self.ttl.millis
    }
}

} // verus!
