use enr::fiat::{Gate, SpendPolicyConfig, SpendPolicyGate, SpendRequest};
use enr::ledger::{Credits, Duration, Timestamp};

fn req(amount: u64, category: &str, merchant: &str) -> SpendRequest {
    SpendRequest::new(Credits::new(amount), "test", category, merchant)
}

fn now() -> Timestamp {
    Timestamp::new(1_000_000)
}

#[test]
fn permissive_by_default() {
    let gate = SpendPolicyGate::new(SpendPolicyConfig::default());
    assert!(gate.evaluate(&req(1_000_000, "anything", "anyone"), now()).is_ok());
}

#[test]
fn per_transaction_cap_denies_over() {
    let gate = SpendPolicyGate::new(SpendPolicyConfig {
        per_transaction_cap: Credits::new(100),
        ..Default::default()
    });
    assert!(gate.evaluate(&req(100, "x", "y"), now()).is_ok());
    let d = gate.evaluate(&req(101, "x", "y"), now()).unwrap_err();
    assert_eq!(d.gate, Gate::Policy);
    assert!(!d.retryable);
}

#[test]
fn category_allowlist() {
    let gate = SpendPolicyGate::new(SpendPolicyConfig {
        allowed_categories: vec!["compute".into(), "api".into()],
        ..Default::default()
    });
    assert!(gate.evaluate(&req(10, "compute", "y"), now()).is_ok());
    let d = gate.evaluate(&req(10, "gambling", "y"), now()).unwrap_err();
    assert_eq!(d.gate, Gate::Policy);
}

#[test]
fn merchant_allowlist() {
    let gate = SpendPolicyGate::new(SpendPolicyConfig {
        allowed_merchants: vec!["openweather".into()],
        ..Default::default()
    });
    assert!(gate.evaluate(&req(10, "x", "openweather"), now()).is_ok());
    assert!(gate.evaluate(&req(10, "x", "shady-co"), now()).is_err());
}

#[test]
fn velocity_window_cap() {
    let mut gate = SpendPolicyGate::new(SpendPolicyConfig {
        window_cap: Credits::new(100),
        window: Duration::hours(24),
        ..Default::default()
    });
    let t = now();
    assert!(gate.evaluate(&req(60, "x", "y"), t).is_ok());
    gate.record_spend(Credits::new(60), t);

    // 60 + 60 = 120 > 100: denied.
    let d = gate.evaluate(&req(60, "x", "y"), t).unwrap_err();
    assert_eq!(d.gate, Gate::Policy);

    // 60 + 40 = 100 <= 100: ok.
    assert!(gate.evaluate(&req(40, "x", "y"), t).is_ok());
}

#[test]
fn velocity_window_resets_after_window() {
    let mut gate = SpendPolicyGate::new(SpendPolicyConfig {
        window_cap: Credits::new(100),
        window: Duration::hours(24),
        ..Default::default()
    });
    let t0 = Timestamp::new(0);
    gate.record_spend(Credits::new(100), t0);
    assert_eq!(gate.spent_in_window(t0), Credits::new(100));

    // 25h later: the old spend has aged out of the window.
    let later = Timestamp::new(Duration::hours(25).millis);
    assert_eq!(gate.spent_in_window(later), Credits::zero());
    assert!(gate.evaluate(&req(100, "x", "y"), later).is_ok());
}
