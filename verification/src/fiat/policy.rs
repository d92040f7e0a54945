//! The spend policy (Gate 2): caps per transaction and over a rolling window, and allow-lists
//! of categories and merchants.

use vstd::prelude::*;

use crate::ledger::types::{capped, Credits, Duration, Timestamp};
use crate::text::{decimal, IntoText};

verus! {

/// Which gate refused a spend.
#[derive(Debug, Clone, Copy, PartialEq, Eq)]
pub enum Gate {
    /// Gate 1: the ledger.
    Ledger,
    /// Gate 2: the spend policy.
    Policy,
    /// Gate 3: the payment rail.
    Rail,
}

/// A refusal. It is a clean stop: `retryable` is never set.
#[derive(Debug, Clone, PartialEq, Eq)]
pub struct SpendDenial {
    pub gate: Gate,
    pub reason: String,
    pub retryable: bool,
}

/// What a refusal says.
pub struct SpendDenialView {
    pub gate: Gate,
    pub reason: Seq<char>,
    pub retryable: bool,
}

impl SpendDenialView {
    /// A refusal by `gate`, for `reason`.
    pub open spec fn of(gate: Gate, reason: Seq<char>) -> SpendDenialView {
        SpendDenialView { gate, reason, retryable: false }
    }
}

impl View for SpendDenial {
    type V = SpendDenialView;

    open spec fn view(&self) -> SpendDenialView {
        SpendDenialView { gate: self.gate, reason: self.reason@, retryable: self.retryable }
    }
}

impl SpendDenial {
    /// A refusal by `gate`, for `reason`.
    pub fn new<T: IntoText>(gate: Gate, reason: T) -> (d: Self)
        ensures
            d@ == SpendDenialView::of(gate, reason.text()),
    {
        SpendDenial { gate, reason: reason.into_text(), retryable: false }
    }

    /// A refusal by the ledger.
    pub fn ledger<T: IntoText>(reason: T) -> (d: Self)
        ensures
            d@ == SpendDenialView::of(Gate::Ledger, reason.text()),
    {
        Self::new(Gate::Ledger, reason)
    }

    /// A refusal by the policy.
    pub fn policy<T: IntoText>(reason: T) -> (d: Self)
        ensures
            d@ == SpendDenialView::of(Gate::Policy, reason.text()),
    {
        Self::new(Gate::Policy, reason)
    }

    /// A refusal by the rail.
    pub fn rail<T: IntoText>(reason: T) -> (d: Self)
        ensures
            d@ == SpendDenialView::of(Gate::Rail, reason.text()),
    {
        Self::new(Gate::Rail, reason)
    }
}

/// A request to spend credits as fiat.
#[derive(Debug, PartialEq, Eq)]
pub struct SpendRequest {
    pub amount: Credits,
    pub purpose: String,
    pub category: String,
    pub merchant: String,
}

/// What a request asks for.
pub struct SpendRequestView {
    pub amount: Credits,
    pub purpose: Seq<char>,
    pub category: Seq<char>,
    pub merchant: Seq<char>,
}

impl View for SpendRequest {
    type V = SpendRequestView;

    open spec fn view(&self) -> SpendRequestView {
        SpendRequestView {
            amount: self.amount,
            purpose: self.purpose@,
            category: self.category@,
            merchant: self.merchant@,
        }
    }
}

impl Clone for SpendRequest {
    fn clone(&self) -> (r: Self)
        ensures
            r@ == self@,
    {
        SpendRequest {
            amount: self.amount,
            purpose: self.purpose.clone(),
            category: self.category.clone(),
            merchant: self.merchant.clone(),
        }
    }
}

impl SpendRequest {
    /// A request for `amount`, for `purpose`, at `merchant` of the kind `category`.
    pub fn new<P: IntoText, C: IntoText, M: IntoText>(
        amount: Credits,
        purpose: P,
        category: C,
        merchant: M,
    ) -> (r: Self)
        ensures
            r@ == (SpendRequestView {
                amount,
                purpose: purpose.text(),
                category: category.text(),
                merchant: merchant.text(),
            }),
    {
        SpendRequest {
            amount,
            purpose: purpose.into_text(),
            category: category.into_text(),
            merchant: merchant.into_text(),
        }
    }
}

/// What the policy allows. A cap of zero means no cap, an empty list allows all.
#[derive(Debug, Clone, PartialEq, Eq)]
pub struct SpendPolicyConfig {
    /// The most that one spend may take (0: no cap).
    pub per_transaction_cap: Credits,
    /// The most that may be spent within `window` (0: no cap).
    pub window_cap: Credits,
    /// The rolling window.
    pub window: Duration,
    /// The categories allowed (empty: all).
    pub allowed_categories: Vec<String>,
    /// The merchants allowed (empty: all).
    pub allowed_merchants: Vec<String>,
}

/// What a policy configuration says.
pub struct PolicyConfigView {
    pub per_transaction_cap: nat,
    pub window_cap: nat,
    pub window: Duration,
    pub allowed_categories: Seq<Seq<char>>,
    pub allowed_merchants: Seq<Seq<char>>,
}

/// The texts of a list of strings.
pub open spec fn texts(list: Seq<String>) -> Seq<Seq<char>> {
    list.map_values(|s: String| s@)
}

impl View for SpendPolicyConfig {
    type V = PolicyConfigView;

    open spec fn view(&self) -> PolicyConfigView {
        PolicyConfigView {
            per_transaction_cap: self.per_transaction_cap@,
            window_cap: self.window_cap@,
            window: self.window,
            allowed_categories: texts(self.allowed_categories@),
            allowed_merchants: texts(self.allowed_merchants@),
        }
    }
}

impl PolicyConfigView {
    /// No caps, a window of a day, and everything allowed.
    pub open spec fn permissive() -> PolicyConfigView {
        PolicyConfigView {
            per_transaction_cap: 0,
            window_cap: 0,
            window: Duration { millis: 86_400_000 },
            allowed_categories: Seq::empty(),
            allowed_merchants: Seq::empty(),
        }
    }
}

impl Default for SpendPolicyConfig {
    fn default() -> (c: Self)
        ensures
            c@ == PolicyConfigView::permissive(),
    {
        let c = SpendPolicyConfig {
            per_transaction_cap: Credits::zero(),
            window_cap: Credits::zero(),
            window: Duration::hours(24),
            allowed_categories: Vec::new(),
            allowed_merchants: Vec::new(),
        };
        assert(c@.allowed_categories =~= Seq::empty());
        assert(c@.allowed_merchants =~= Seq::empty());
        c
    }
}

/// A settled spend, and when it settled.
pub type Settled = (Timestamp, Credits);

/// The amounts in `history` that settled from `start` up to `end`, both included, added up.
pub open spec fn spent_within(history: Seq<Settled>, start: int, end: int) -> nat
    decreases history.len(),
{
    if history.len() == 0 {
        0
    } else {
        spent_within(history.drop_last(), start, end) + if start <= history.last().0.millis <= end {
            history.last().1@
        } else {
            0
        }
    }
}

/// Whether a spend settled at `cutoff` or later.
pub open spec fn settled_since(cutoff: int) -> spec_fn(Settled) -> bool {
    |e: Settled| e.0.millis >= cutoff
}

/// Why the policy refuses a request.
pub enum PolicyRefusal {
    ZeroAmount,
    OverTransactionCap,
    CategoryNotAllowed,
    MerchantNotAllowed,
    OverWindowCap,
}

/// What the policy gate holds.
pub struct PolicyView {
    pub config: PolicyConfigView,
    /// The spends that settled, oldest first.
    pub history: Seq<Settled>,
}

/// Whether an allow-list lets `name` pass.
pub open spec fn allows(list: Seq<Seq<char>>, name: Seq<char>) -> bool {
    list.len() == 0 || list.contains(name)
}

impl PolicyView {
    /// Where the rolling window that ends at `now` begins.
    pub open spec fn window_start(self, now: Timestamp) -> int {
        if now.millis >= self.config.window.millis {
            now.millis - self.config.window.millis
        } else {
            0
        }
    }

    /// The credits spent within the rolling window that ends at `now`.
    pub open spec fn spent(self, now: Timestamp) -> nat {
        spent_within(self.history, self.window_start(now), now.millis as int)
    }

    /// What would be spent within the window with `open` and `amount` on top, as far as it can
    /// be counted.
    pub open spec fn projected_with(self, amount: Credits, open: nat, now: Timestamp) -> nat {
        capped(self.spent(now) + open + amount@)
    }

    /// Why the policy refuses `req` at `now`, if it does, where `open` is promised to other
    /// spends already: the first reason in this order.
    pub open spec fn refusal_with(self, req: SpendRequestView, open: nat, now: Timestamp) -> Option<
        PolicyRefusal,
    > {
        if req.amount@ == 0 {
            Some(PolicyRefusal::ZeroAmount)
        } else if self.config.per_transaction_cap > 0 && req.amount@
            > self.config.per_transaction_cap {
            Some(PolicyRefusal::OverTransactionCap)
        } else if !allows(self.config.allowed_categories, req.category) {
            Some(PolicyRefusal::CategoryNotAllowed)
        } else if !allows(self.config.allowed_merchants, req.merchant) {
            Some(PolicyRefusal::MerchantNotAllowed)
        } else if self.config.window_cap > 0 && self.projected_with(req.amount, open, now)
            > self.config.window_cap {
            Some(PolicyRefusal::OverWindowCap)
        } else {
            None
        }
    }

    /// Why the policy refuses `req` at `now`, if it does, with nothing promised to other spends.
    pub open spec fn refusal(self, req: SpendRequestView, now: Timestamp) -> Option<PolicyRefusal> {
        self.refusal_with(req, 0, now)
    }

    /// The words for `why`, where `open` is promised to other spends.
    pub open spec fn words_with(
        self,
        why: PolicyRefusal,
        req: SpendRequestView,
        open: nat,
        now: Timestamp,
    ) -> Seq<char> {
        match why {
            PolicyRefusal::ZeroAmount => "zero-amount spend"@,
            PolicyRefusal::OverTransactionCap => "per-transaction cap exceeded: "@ + decimal(
                req.amount@,
            ) + " > "@ + decimal(self.config.per_transaction_cap),
            PolicyRefusal::CategoryNotAllowed => "category not allowed: "@ + req.category,
            PolicyRefusal::MerchantNotAllowed => "merchant not allowed: "@ + req.merchant,
            PolicyRefusal::OverWindowCap => "window cap exceeded: "@ + decimal(
                self.projected_with(req.amount, open, now),
            ) + " over window > "@ + decimal(self.config.window_cap),
        }
    }

    /// The words for `why`, with nothing promised to other spends.
    pub open spec fn words(
        self,
        why: PolicyRefusal,
        req: SpendRequestView,
        now: Timestamp,
    ) -> Seq<char> {
        self.words_with(why, req, 0, now)
    }

    /// `amount` settled at `now`, and what settled before the window is forgotten.
    pub open spec fn after_record(self, amount: Credits, now: Timestamp) -> PolicyView {
        PolicyView {
            history: self.history.push((now, amount)).filter(
                settled_since(self.window_start(now)),
            ),
            ..self
        }
    }
}

/// The policy gate, with what was spent of late.
#[derive(Debug, Clone)]
pub struct SpendPolicyGate {
    config: SpendPolicyConfig,
    history: Vec<Settled>,
}

impl View for SpendPolicyGate {
    type V = PolicyView;

    closed spec fn view(&self) -> PolicyView {
        PolicyView { config: self.config@, history: self.history@ }
    }
}

/// Whether `list` holds `name`.
fn lists(list: &Vec<String>, name: &String) -> (b: bool)
    ensures
        b == texts(list@).contains(name@),
{
    for i in 0..list.len()
        invariant
            forall|j: int| 0 <= j < i ==> texts(list@)[j] != name@,
    {
        if list[i] == *name {
            assert(texts(list@)[i as int] == name@);
            return true;
        }
    }
    false
}

impl SpendPolicyGate {
    /// A gate for `config`, with nothing spent yet.
    pub fn new(config: SpendPolicyConfig) -> (gate: Self)
        ensures
            gate@ == (PolicyView { config: config@, history: Seq::empty() }),
    {
        SpendPolicyGate { config, history: Vec::new() }
    }

    /// Where the rolling window that ends at `now` begins.
    fn cutoff(&self, now: Timestamp) -> (millis: u64)
        ensures
            millis == self@.window_start(now),
    {
        now.millis.saturating_sub(self.config.window.millis)
    }

    /// The credits spent within the rolling window that ends at `now`.
    pub fn spent_in_window(&self, now: Timestamp) -> (c: Credits)
        ensures
            c@ == capped(self@.spent(now)),
    {
        let cutoff = self.cutoff(now);
        let mut total = Credits::zero();
        for i in 0..self.history.len()
            invariant
                total@ == capped(
                    spent_within(
                        self.history@.take(i as int),
                        cutoff as int,
                        now.millis as int,
                    ),
                ),
        {
            assert(self.history@.take(i + 1).drop_last() =~= self.history@.take(i as int));
            let (at, amount) = self.history[i];
            if cutoff <= at.millis && at.millis <= now.millis {
                total = total.saturating_add(amount);
            }
        }
        assert(self.history@.take(self.history@.len() as int) =~= self.history@);
        total
    }

    /// Whether the policy allows `req` at `now`. What it allows still has to pass the ledger
    /// and the rail.
    pub fn evaluate(&self, req: &SpendRequest, now: Timestamp) -> (r: Result<(), SpendDenial>)
        ensures
            match self@.refusal(req@, now) {
                Some(why) => {
                    &&& r matches Err(d)
                    &&& d@ == SpendDenialView::of(Gate::Policy, self@.words(why, req@, now))
                },
                None => r is Ok,
            },
    {
        self.evaluate_with(req, Credits::zero(), now)
    }

    /// Whether the policy allows `req` at `now`, where `open` is promised to spends that have
    /// not settled yet and counts against the window like what has.
    pub fn evaluate_with(&self, req: &SpendRequest, open: Credits, now: Timestamp) -> (r: Result<
        (),
        SpendDenial,
    >)
        ensures
            match self@.refusal_with(req@, open@, now) {
                Some(why) => {
                    &&& r matches Err(d)
                    &&& d@ == SpendDenialView::of(
                        Gate::Policy,
                        self@.words_with(why, req@, open@, now),
                    )
                },
                None => r is Ok,
            },
    {
        if req.amount.is_zero() {
            return Err(SpendDenial::policy("zero-amount spend"));
        }
        if !self.config.per_transaction_cap.is_zero() && req.amount.amount
            > self.config.per_transaction_cap.amount {
            let mut reason = "per-transaction cap exceeded: ".to_owned();
            reason.append(req.amount.to_text().as_str());
            reason.append(" > ");
            reason.append(self.config.per_transaction_cap.to_text().as_str());
            return Err(SpendDenial::policy(reason));
        }
        if !self.config.allowed_categories.is_empty() && !lists(
            &self.config.allowed_categories,
            &req.category,
        ) {
            let mut reason = "category not allowed: ".to_owned();
            reason.append(req.category.as_str());
            return Err(SpendDenial::policy(reason));
        }
        if !self.config.allowed_merchants.is_empty() && !lists(
            &self.config.allowed_merchants,
            &req.merchant,
        ) {
            let mut reason = "merchant not allowed: ".to_owned();
            reason.append(req.merchant.as_str());
            return Err(SpendDenial::policy(reason));
        }
        if !self.config.window_cap.is_zero() {
            let projected = self.spent_in_window(now).saturating_add(open).saturating_add(
                req.amount,
            );
            if projected.amount > self.config.window_cap.amount {
                let mut reason = "window cap exceeded: ".to_owned();
                reason.append(projected.to_text().as_str());
                reason.append(" over window > ");
                reason.append(self.config.window_cap.to_text().as_str());
                return Err(SpendDenial::policy(reason));
            }
        }
        Ok(())
    }

    /// Records that `amount` settled at `now`.
    pub fn record_spend(&mut self, amount: Credits, now: Timestamp)
        ensures
            final(self)@ == old(self)@.after_record(amount, now),
    {
        self.history.push((now, amount));
        self.prune(now);
    }

    /// Forgets what settled before the window that ends at `now`.
    fn prune(&mut self, now: Timestamp)
        ensures
            final(self)@ == (PolicyView {
                history: old(self)@.history.filter(settled_since(old(self)@.window_start(now))),
                ..old(self)@
            }),
    {
        let cutoff = self.cutoff(now);
        let ghost recent = settled_since(cutoff as int);
        let mut kept: Vec<Settled> = Vec::new();
        for i in 0..self.history.len()
            invariant
                recent == settled_since(cutoff as int),
                kept@ == self.history@.take(i as int).filter(recent),
        {
            let entry = self.history[i];
            proof {
                assert(self.history@.take(i + 1) =~= self.history@.take(i as int).push(entry));
                self.history@.take(i as int).lemma_filter_push(entry, recent);
            }
            if entry.0.millis >= cutoff {
                kept.push(entry);
            }
        }
        assert(self.history@.take(self.history@.len() as int) =~= self.history@);
        self.history = kept;
    }
}

} // verus!
