use std::cell::RefCell;
use std::rc::Rc;

use enr::fiat::{
    AuditEvent, Gate, RailOutcome, SpendPolicyConfig, SpendPolicyGate, SpendRail, SpendRequest,
    StripeBridge,
};
use enr::ledger::{AccountId, Credits, Duration, NodeId, ReservationLedger, Timestamp};

/// A scripted rail for tests: returns a fixed outcome and records the key.
struct MockRail {
    outcome: RailOutcome,
    last_key: Rc<RefCell<Option<String>>>,
}

impl MockRail {
    fn approve() -> Self {
        Self {
            outcome: RailOutcome::Approved { txn_id: "txn_test_1".into() },
            last_key: Rc::new(RefCell::new(None)),
        }
    }
    fn decline() -> Self {
        Self {
            outcome: RailOutcome::Declined { reason: "out of envelope".into() },
            last_key: Rc::new(RefCell::new(None)),
        }
    }
}

impl SpendRail for MockRail {
    fn authorize(&mut self, _req: &SpendRequest, idempotency_key: &str) -> RailOutcome {
        *self.last_key.borrow_mut() = Some(idempotency_key.to_string());
        self.outcome.clone()
    }
}

fn account() -> AccountId {
    AccountId::node_account(NodeId::from_bytes([9u8; 32]))
}

fn bridge_with(balance: u64, config: SpendPolicyConfig, rail: MockRail) -> StripeBridge<MockRail> {
    let ledger = ReservationLedger::with_balance(account(), Credits::new(balance));
    let policy = SpendPolicyGate::new(config);
    StripeBridge::new(ledger, policy, rail, Duration::seconds(60))
}

fn req(amount: u64) -> SpendRequest {
    SpendRequest::new(Credits::new(amount), "buy api key", "api", "openweather")
}

fn now() -> Timestamp {
    Timestamp::new(1_000_000)
}

#[test]
fn happy_path_reserve_then_commit() {
    let mut b = bridge_with(1000, SpendPolicyConfig::default(), MockRail::approve());

    let id = b.reserve(req(200), now()).unwrap();
    assert_eq!(b.balance(), Credits::new(800)); // escrowed
    assert_eq!(b.reserved(), Credits::new(200));

    let receipt = b.execute(id, now()).unwrap();
    assert_eq!(receipt.amount, Credits::new(200));
    assert_eq!(receipt.txn_id, "txn_test_1");
    assert_eq!(b.balance(), Credits::new(800)); // committed, not returned
    assert_eq!(b.reserved(), Credits::zero());

    // Audit: Reserved then Committed.
    let events: Vec<_> = b.audit().iter().map(|e| &e.event).collect();
    assert!(matches!(events[0], AuditEvent::Reserved));
    assert!(matches!(events[1], AuditEvent::Committed { .. }));
}

#[test]
fn reservation_id_is_idempotency_key() {
    let rail = MockRail::approve();
    let last_key = rail.last_key.clone();
    let mut b = bridge_with(1000, SpendPolicyConfig::default(), rail);
    let id = b.reserve(req(100), now()).unwrap();
    b.execute(id, now()).unwrap();
    // Rail saw the reservation id as the key.
    assert_eq!(last_key.borrow().as_deref(), Some(format!("resv-{}", id.0).as_str()));
}

#[test]
fn rail_decline_releases_credits() {
    let mut b = bridge_with(1000, SpendPolicyConfig::default(), MockRail::decline());
    let id = b.reserve(req(300), now()).unwrap();
    assert_eq!(b.balance(), Credits::new(700));

    let d = b.execute(id, now()).unwrap_err();
    assert_eq!(d.gate, Gate::Rail);
    assert!(!d.retryable);
    assert_eq!(b.balance(), Credits::new(1000)); // released back
    assert_eq!(b.reserved(), Credits::zero());

    let last = &b.audit().last().unwrap().event;
    assert!(matches!(last, AuditEvent::Released { .. }));
}

#[test]
fn policy_denial_takes_no_escrow() {
    let config = SpendPolicyConfig {
        per_transaction_cap: Credits::new(100),
        ..Default::default()
    };
    let mut b = bridge_with(1000, config, MockRail::approve());
    let d = b.reserve(req(500), now()).unwrap_err();
    assert_eq!(d.gate, Gate::Policy);
    assert_eq!(b.balance(), Credits::new(1000)); // untouched
    assert_eq!(b.reserved(), Credits::zero());
}

#[test]
fn expired_reservation_releases_before_rail() {
    let mut b = bridge_with(1000, SpendPolicyConfig::default(), MockRail::approve());
    let id = b.reserve(req(200), now()).unwrap();

    // Execute well past the 60s ttl.
    let later = Timestamp::new(now().millis + 120_000);
    let d = b.execute(id, later).unwrap_err();
    assert_eq!(d.gate, Gate::Ledger);
    assert_eq!(b.balance(), Credits::new(1000)); // reclaimed
}

#[test]
fn refund_recredits() {
    let mut b = bridge_with(1000, SpendPolicyConfig::default(), MockRail::approve());
    let id = b.reserve(req(200), now()).unwrap();
    b.execute(id, now()).unwrap();
    assert_eq!(b.balance(), Credits::new(800));

    b.refund(Credits::new(200), now());
    assert_eq!(b.balance(), Credits::new(1000)); // minted back
    assert!(matches!(b.audit().last().unwrap().event, AuditEvent::Refunded));
}

/// Each gate refuses in turn, and the refusal is attributed to a *different* system.
#[test]
fn triple_denial_each_gate_fails_clean() {
    // Gate 1 (Ledger): reserve more than the balance.
    let mut b1 = bridge_with(50, SpendPolicyConfig::default(), MockRail::approve());
    let d1 = b1.reserve(req(100), now()).unwrap_err();
    assert_eq!(d1.gate, Gate::Ledger);
    assert_eq!(b1.balance(), Credits::new(50)); // nothing moved

    // Gate 2 (Policy): within balance, but over the per-transaction cap.
    let config = SpendPolicyConfig {
        per_transaction_cap: Credits::new(100),
        ..Default::default()
    };
    let mut b2 = bridge_with(1000, config, MockRail::approve());
    let d2 = b2.reserve(req(500), now()).unwrap_err();
    assert_eq!(d2.gate, Gate::Policy);
    assert_eq!(b2.balance(), Credits::new(1000)); // nothing moved

    // Gate 3 (Rail): passes 1 & 2, declined at the rail; credits released.
    let mut b3 = bridge_with(1000, SpendPolicyConfig::default(), MockRail::decline());
    let id = b3.reserve(req(200), now()).unwrap();
    let d3 = b3.execute(id, now()).unwrap_err();
    assert_eq!(d3.gate, Gate::Rail);
    assert_eq!(b3.balance(), Credits::new(1000)); // released, not spent

    // Three different systems, three clean refusals.
    assert_ne!(d1.gate, d2.gate);
    assert_ne!(d2.gate, d3.gate);
    assert!(!d1.retryable && !d2.retryable && !d3.retryable);
}
