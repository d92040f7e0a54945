use std::cell::RefCell;
use std::rc::Rc;

use enr::fiat::{
    ledger_denial, AuditEntry, AuditEvent, Gate, RailOutcome, SpendBook, SpendDenial,
    SpendPolicyConfig, SpendPolicyGate, SpendRail, SpendReceipt, SpendRequest, StripeBridge,
};
use enr::ledger::{
    AccountId, Credits, Duration, EnrError, NodeId, ReservationId, ReservationLedger, Timestamp,
};

/// Approves what is at most `limit`, and keeps the keys and amounts it was asked with.
struct LimitRail {
    limit: u64,
    asked: Rc<RefCell<Vec<(String, u64)>>>,
}

impl SpendRail for LimitRail {
    fn authorize(&mut self, req: &SpendRequest, idempotency_key: &str) -> RailOutcome {
        self.asked.borrow_mut().push((idempotency_key.to_string(), req.amount.amount));
        if req.amount.amount <= self.limit {
            RailOutcome::Approved { txn_id: format!("txn-{}", req.amount.amount) }
        } else {
            RailOutcome::Declined { reason: "over limit".to_string() }
        }
    }
}

fn ledger(balance: u64) -> ReservationLedger {
    let account = AccountId::node_account(NodeId::from_bytes([5u8; 32]));
    ReservationLedger::with_balance(account, Credits::new(balance))
}

type Asked = Rc<RefCell<Vec<(String, u64)>>>;

fn bridge(balance: u64, limit: u64) -> (StripeBridge<LimitRail>, Asked) {
    let asked: Asked = Rc::new(RefCell::new(Vec::new()));
    let rail = LimitRail { limit, asked: asked.clone() };
    let policy = SpendPolicyGate::new(SpendPolicyConfig::default());
    (StripeBridge::new(ledger(balance), policy, rail, Duration::seconds(60)), asked)
}

fn ask(amount: u64) -> SpendRequest {
    SpendRequest::new(Credits::new(amount), "p", "c", "m")
}

fn at(millis: u64) -> Timestamp {
    Timestamp::new(millis)
}

#[test]
fn trail_tells_the_whole_story() {
    let (mut b, asked) = bridge(1_000, 250);
    let a = b.reserve(ask(200), at(10)).unwrap();
    let c = b.reserve(ask(300), at(20)).unwrap();
    let e = b.reserve(ask(100), at(30)).unwrap();
    assert!(b.reserve(ask(401), at(40)).is_err());
    assert_eq!(
        b.execute(a, at(50)),
        Ok(SpendReceipt {
            reservation_id: a,
            amount: Credits::new(200),
            txn_id: "txn-200".to_string()
        })
    );
    assert_eq!(b.execute(c, at(60)), Err(SpendDenial::rail("over limit")));
    assert_eq!(b.execute(e, at(60_030)), Err(SpendDenial::ledger("reservation expired")));
    b.refund(Credits::new(200), at(70_000));

    let entry = |id: Option<ReservationId>, amount: u64, event: AuditEvent, millis: u64| AuditEntry {
        reservation_id: id,
        amount: Credits::new(amount),
        event,
        at: at(millis),
    };
    let expected = vec![
        entry(Some(a), 200, AuditEvent::Reserved, 10),
        entry(Some(c), 300, AuditEvent::Reserved, 20),
        entry(Some(e), 100, AuditEvent::Reserved, 30),
        entry(
            None,
            401,
            AuditEvent::Denied {
                gate: Gate::Ledger,
                reason: "insufficient credits: required 401, available 400".to_string(),
            },
            40,
        ),
        entry(Some(a), 200, AuditEvent::Committed { txn_id: "txn-200".to_string() }, 50),
        entry(Some(c), 300, AuditEvent::Released { reason: "over limit".to_string() }, 60),
        entry(Some(e), 100, AuditEvent::Released { reason: "expired".to_string() }, 60_030),
        entry(None, 200, AuditEvent::Refunded, 70_000),
    ];
    assert_eq!(b.audit(), expected.as_slice());
    assert_eq!(
        *asked.borrow(),
        vec![("resv-1".to_string(), 200), ("resv-2".to_string(), 300)]
    );
    assert_eq!(b.balance(), Credits::new(1_000));
    assert_eq!(b.reserved(), Credits::zero());
}

#[test]
fn unknown_spend_is_refused_and_leaves_no_trace() {
    let (mut b, asked) = bridge(100, 100);
    let id = ReservationId(7);
    let d = b.execute(id, at(0)).unwrap_err();
    assert_eq!(d.gate, Gate::Ledger);
    assert_eq!(d.reason, format!("unknown reservation: {:?}", id));
    assert!(b.audit().is_empty());
    assert!(asked.borrow().is_empty());
}

#[test]
fn spend_is_executed_only_once() {
    let (mut b, asked) = bridge(100, 50);
    let paid = b.reserve(ask(40), at(0)).unwrap();
    let declined = b.reserve(ask(60), at(0)).unwrap();
    assert!(b.execute(paid, at(1)).is_ok());
    assert!(b.execute(declined, at(1)).is_err());
    for id in [paid, declined] {
        assert_eq!(b.execute(id, at(2)).unwrap_err().gate, Gate::Ledger);
    }
    assert_eq!(asked.borrow().len(), 2);
    assert_eq!(b.balance(), Credits::new(60));
}

#[test]
fn reservation_of_the_ledger_alone_is_no_open_spend() {
    let mut l = ledger(100);
    let id = l.reserve(Credits::new(30), Duration::seconds(60), at(0)).unwrap();
    let policy = SpendPolicyGate::new(SpendPolicyConfig::default());
    let mut book = SpendBook::new(l, policy, Duration::seconds(60));
    assert_eq!(book.prepare(id, at(0)).unwrap_err().gate, Gate::Ledger);
    assert_eq!(book.reserved(), Credits::new(30));
    assert_eq!(book.reserve(ask(10), at(0)).unwrap(), ReservationId(2));
}

#[test]
fn expired_spend_does_not_reach_the_rail() {
    let (mut b, asked) = bridge(100, 100);
    let id = b.reserve(ask(40), at(0)).unwrap();
    assert_eq!(b.execute(id, at(60_000)), Err(SpendDenial::ledger("reservation expired")));
    assert!(asked.borrow().is_empty());
    assert_eq!(b.balance(), Credits::new(100));
}

#[test]
fn zero_amount_is_refused_by_the_policy() {
    let (mut b, _asked) = bridge(100, 100);
    assert_eq!(b.reserve(ask(0), at(0)), Err(SpendDenial::policy("zero-amount spend")));
    assert_eq!(b.balance(), Credits::new(100));
}

fn capped_bridge(cap: u64, limit: u64) -> StripeBridge<LimitRail> {
    let config = SpendPolicyConfig { window_cap: Credits::new(cap), ..Default::default() };
    let rail = LimitRail { limit, asked: Rc::new(RefCell::new(Vec::new())) };
    StripeBridge::new(ledger(1_000), SpendPolicyGate::new(config), rail, Duration::seconds(60))
}

fn committed(b: &StripeBridge<LimitRail>) -> u64 {
    b.audit()
        .iter()
        .filter(|e| matches!(e.event, AuditEvent::Committed { .. }))
        .map(|e| e.amount.amount)
        .sum()
}

#[test]
fn open_spends_count_against_the_window() {
    let mut b = capped_bridge(100, 100);
    let a = b.reserve(ask(60), at(0)).unwrap();
    assert_eq!(
        b.reserve(ask(60), at(0)),
        Err(SpendDenial::policy("window cap exceeded: 120 over window > 100"))
    );
    let c = b.reserve(ask(40), at(0)).unwrap();
    assert!(b.execute(a, at(1)).is_ok());
    assert_eq!(
        b.reserve(ask(1), at(2)),
        Err(SpendDenial::policy("window cap exceeded: 101 over window > 100"))
    );
    assert!(b.execute(c, at(3)).is_ok());
    assert_eq!(committed(&b), 100);
    assert!(b.reserve(ask(100), at(86_400_004)).is_ok());
}

#[test]
fn declined_spends_do_not_count_against_the_window() {
    let mut b = capped_bridge(100, 50);
    let a = b.reserve(ask(100), at(0)).unwrap();
    assert!(b.reserve(ask(1), at(0)).is_err());
    assert_eq!(b.execute(a, at(1)).unwrap_err().gate, Gate::Rail);
    assert!(b.reserve(ask(100), at(1)).is_ok());
}

#[test]
fn expired_spends_do_not_count_against_the_window() {
    let mut b = capped_bridge(100, 100);
    let a = b.reserve(ask(60), at(0)).unwrap();
    assert!(b.reserve(ask(60), at(59_999)).is_err());
    let c = b.reserve(ask(60), at(60_000)).unwrap();
    assert!(b.execute(a, at(60_000)).is_err());
    assert!(b.execute(c, at(60_000)).is_ok());
    assert_eq!(committed(&b), 60);
}

#[test]
fn committed_spends_stay_within_the_window_cap() {
    let mut b = capped_bridge(100, 45);
    let mut open = vec![];
    for step in 0..200u64 {
        let now = at(step * 1_000);
        if let Ok(id) = b.reserve(ask(1 + (step * 37) % 60), now) {
            open.push(id);
        }
        if step % 3 == 0 && !open.is_empty() {
            let id = open.remove(0);
            let _ = b.execute(id, now);
        }
        assert!(committed(&b) <= 100);
    }
}

#[test]
fn trail_opens_and_closes_each_spend_once() {
    let (mut b, asked) = bridge(1_000, 50);
    for amount in [40u64, 60, 20] {
        let id = b.reserve(ask(amount), at(0)).unwrap();
        for _ in 0..3 {
            let _ = b.execute(id, at(1));
        }
    }
    for number in 1..=3u64 {
        let of_spend: Vec<_> = b
            .audit()
            .iter()
            .filter(|e| e.reservation_id == Some(ReservationId(number)))
            .map(|e| &e.event)
            .collect();
        assert_eq!(of_spend.len(), 2);
        assert!(matches!(of_spend[0], AuditEvent::Reserved));
        assert!(matches!(
            of_spend[1],
            AuditEvent::Committed { .. } | AuditEvent::Released { .. }
        ));
    }
    assert_eq!(asked.borrow().len(), 3);
}

#[test]
fn answer_of_the_rail_decides_the_settlement() {
    let policy = SpendPolicyGate::new(SpendPolicyConfig::default());
    let mut book = SpendBook::new(ledger(100), policy, Duration::seconds(60));
    let id = book.reserve(ask(30), at(0)).unwrap();
    let (req, key) = book.prepare(id, at(1)).unwrap();
    assert_eq!(req, ask(30));
    assert_eq!(key, "resv-1");
    let receipt = book
        .settle(id, RailOutcome::Approved { txn_id: "t".to_string() }, at(1))
        .unwrap();
    assert_eq!(receipt.amount, Credits::new(30));
    assert_eq!(book.balance(), Credits::new(70));

    let other = book.reserve(ask(20), at(2)).unwrap();
    let denial = book
        .settle(other, RailOutcome::Declined { reason: "no".to_string() }, at(2))
        .unwrap_err();
    assert_eq!(denial, SpendDenial::rail("no"));
    assert_eq!(book.balance(), Credits::new(70));
    assert_eq!(book.reserved(), Credits::zero());
    assert_eq!(book.audit().len(), 4);
}

#[test]
fn ledger_errors_become_ledger_denials() {
    let cases = [
        (EnrError::ZeroAmount, "zero-amount spend"),
        (
            EnrError::InsufficientCredits {
                required: Credits::new(100),
                available: Credits::new(50),
            },
            "insufficient credits: required 100, available 50",
        ),
        (EnrError::ReservationNotFound(ReservationId(3)), "reservation not found: 3"),
        (EnrError::InvalidStateTransition, "invalid state transition"),
    ];
    for (error, reason) in cases {
        assert_eq!(ledger_denial(error), SpendDenial::ledger(reason));
    }
}

#[test]
fn refund_also_raises_what_was_funded() {
    let (mut b, _asked) = bridge(100, 100);
    let id = b.reserve(ask(40), at(0)).unwrap();
    b.execute(id, at(0)).unwrap();
    b.refund(Credits::new(40), at(1));
    assert_eq!(b.balance(), Credits::new(100));
    assert!(b.can_number_another());
}

#[test]
fn late_refund_restores_the_balance_and_the_spend_still_counts() {
    let mut b = capped_bridge(100, 100);
    let id = b.reserve(ask(60), at(0)).unwrap();
    b.execute(id, at(10)).unwrap();
    b.refund(Credits::new(60), at(5_000));
    assert_eq!((b.balance(), b.reserved()), (Credits::new(1_000), Credits::zero()));
    assert_eq!(
        b.reserve(ask(60), at(86_400_010)),
        Err(SpendDenial::policy("window cap exceeded: 120 over window > 100"))
    );
    assert!(b.reserve(ask(60), at(86_400_011)).is_ok());
}

#[test]
fn spends_before_the_bridge_count_beside_its_own() {
    let config = SpendPolicyConfig { window_cap: Credits::new(100), ..Default::default() };
    let mut policy = SpendPolicyGate::new(config);
    policy.record_spend(Credits::new(70), at(0));
    let rail = LimitRail { limit: 100, asked: Rc::new(RefCell::new(Vec::new())) };
    let mut b = StripeBridge::new(ledger(1_000), policy, rail, Duration::seconds(60));
    let id = b.reserve(ask(30), at(1)).unwrap();
    b.execute(id, at(2)).unwrap();
    assert_eq!(
        b.reserve(ask(1), at(3)),
        Err(SpendDenial::policy("window cap exceeded: 101 over window > 100"))
    );
    assert_eq!(committed(&b), 30);
}

#[test]
fn without_refunds_the_largest_cap_holds_too() {
    let config = SpendPolicyConfig { window_cap: Credits::new(u64::MAX), ..Default::default() };
    let rail = LimitRail { limit: u64::MAX, asked: Rc::new(RefCell::new(Vec::new())) };
    let policy = SpendPolicyGate::new(config);
    let mut b = StripeBridge::new(ledger(u64::MAX), policy, rail, Duration::seconds(60));
    let id = b.reserve(ask(u64::MAX), at(0)).unwrap();
    b.execute(id, at(0)).unwrap();
    assert_eq!(b.reserve(ask(1), at(1)).unwrap_err().gate, Gate::Ledger);
    assert_eq!(committed(&b), u64::MAX);
    // A refund makes room for more than can be counted.
    b.refund(Credits::new(u64::MAX), at(2));
    assert!(b.reserve(ask(u64::MAX), at(3)).is_ok());
}
