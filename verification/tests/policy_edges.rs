use std::borrow::Cow;

use enr::fiat::{Gate, SpendDenial, SpendPolicyConfig, SpendPolicyGate, SpendRequest};
use enr::ledger::{Credits, Duration, Timestamp};

fn ask(amount: u64, category: &str, merchant: &str) -> SpendRequest {
    SpendRequest::new(Credits::new(amount), String::from("test"), category, merchant)
}

fn at(millis: u64) -> Timestamp {
    Timestamp::new(millis)
}

fn reason(gate: &SpendPolicyGate, req: &SpendRequest, now: Timestamp) -> String {
    let denial = gate.evaluate(req, now).unwrap_err();
    assert_eq!(denial.gate, Gate::Policy);
    assert!(!denial.retryable);
    denial.reason
}

#[test]
fn denials_carry_their_gate() {
    assert_eq!(
        SpendDenial::new(Gate::Rail, "x"),
        SpendDenial { gate: Gate::Rail, reason: "x".to_string(), retryable: false }
    );
    assert_eq!(SpendDenial::ledger("x").gate, Gate::Ledger);
    assert_eq!(SpendDenial::policy(String::from("x")).gate, Gate::Policy);
    assert_eq!(SpendDenial::rail("x").gate, Gate::Rail);
}

#[test]
fn request_keeps_its_texts() {
    let r = SpendRequest::new(Credits::new(3), "p", "c", "m");
    assert_eq!(
        (r.purpose.as_str(), r.category.as_str(), r.merchant.as_str()),
        ("p", "c", "m")
    );
    assert_eq!(r.clone(), r);
}

#[test]
fn default_config_is_unlimited() {
    let c = SpendPolicyConfig::default();
    assert!(c.per_transaction_cap.is_zero());
    assert!(c.window_cap.is_zero());
    assert_eq!(c.window, Duration::hours(24));
    assert!(c.allowed_categories.is_empty());
    assert!(c.allowed_merchants.is_empty());
}

#[test]
fn default_config_refuses_only_nothing() {
    let mut gate = SpendPolicyGate::new(SpendPolicyConfig::default());
    gate.record_spend(Credits::new(u64::MAX), at(0));
    assert!(gate.evaluate(&ask(u64::MAX, "x", "y"), at(0)).is_ok());
    assert_eq!(reason(&gate, &ask(0, "x", "y"), at(0)), "zero-amount spend");
}

#[test]
fn reasons_name_the_numbers() {
    let mut gate = SpendPolicyGate::new(SpendPolicyConfig {
        per_transaction_cap: Credits::new(100),
        window_cap: Credits::new(150),
        allowed_categories: vec!["api".to_string()],
        allowed_merchants: vec!["openweather".to_string()],
        ..Default::default()
    });
    gate.record_spend(Credits::new(90), at(0));
    assert_eq!(
        reason(&gate, &ask(101, "api", "openweather"), at(0)),
        "per-transaction cap exceeded: 101 > 100"
    );
    assert_eq!(reason(&gate, &ask(1, "games", "openweather"), at(0)), "category not allowed: games");
    assert_eq!(reason(&gate, &ask(1, "api", "other"), at(0)), "merchant not allowed: other");
    assert_eq!(
        reason(&gate, &ask(61, "api", "openweather"), at(0)),
        "window cap exceeded: 151 over window > 150"
    );
    assert!(gate.evaluate(&ask(60, "api", "openweather"), at(0)).is_ok());
}

#[test]
fn first_reason_wins() {
    let gate = SpendPolicyGate::new(SpendPolicyConfig {
        per_transaction_cap: Credits::new(10),
        window_cap: Credits::new(5),
        allowed_categories: vec!["api".to_string()],
        allowed_merchants: vec!["m".to_string()],
        ..Default::default()
    });
    assert_eq!(reason(&gate, &ask(0, "x", "y"), at(0)), "zero-amount spend");
    assert_eq!(reason(&gate, &ask(11, "x", "y"), at(0)), "per-transaction cap exceeded: 11 > 10");
    assert_eq!(reason(&gate, &ask(9, "x", "y"), at(0)), "category not allowed: x");
    assert_eq!(reason(&gate, &ask(9, "api", "y"), at(0)), "merchant not allowed: y");
    assert_eq!(
        reason(&gate, &ask(9, "api", "m"), at(0)),
        "window cap exceeded: 9 over window > 5"
    );
}

#[test]
fn window_begins_inclusively() {
    let mut gate = SpendPolicyGate::new(SpendPolicyConfig {
        window: Duration::seconds(10),
        ..Default::default()
    });
    gate.record_spend(Credits::new(7), at(1_000));
    assert_eq!(gate.spent_in_window(at(11_000)), Credits::new(7));
    assert_eq!(gate.spent_in_window(at(11_001)), Credits::zero());
}

#[test]
fn window_ends_at_now() {
    let mut gate = SpendPolicyGate::new(SpendPolicyConfig::default());
    gate.record_spend(Credits::new(50), at(2_000_000));
    assert_eq!(gate.spent_in_window(at(1_000_000)), Credits::zero());
    assert_eq!(gate.spent_in_window(at(1_999_999)), Credits::zero());
    assert_eq!(gate.spent_in_window(at(2_000_000)), Credits::new(50));
}

#[test]
fn promised_credits_count_against_the_window() {
    let mut gate = SpendPolicyGate::new(SpendPolicyConfig {
        window_cap: Credits::new(100),
        ..Default::default()
    });
    gate.record_spend(Credits::new(30), at(5));
    assert!(gate.evaluate(&ask(70, "x", "y"), at(5)).is_ok());
    assert!(gate.evaluate_with(&ask(70, "x", "y"), Credits::zero(), at(5)).is_ok());
    assert!(gate.evaluate_with(&ask(50, "x", "y"), Credits::new(20), at(5)).is_ok());
    assert_eq!(
        gate.evaluate_with(&ask(51, "x", "y"), Credits::new(20), at(5)),
        Err(SpendDenial::policy("window cap exceeded: 101 over window > 100"))
    );
}

#[test]
fn texts_come_in_many_types() {
    let owned = String::from("api");
    let boxed: Box<str> = "shop".into();
    let r = SpendRequest::new(Credits::new(1), 'x', &owned, boxed);
    assert_eq!(
        (r.purpose.as_str(), r.category.as_str(), r.merchant.as_str()),
        ("x", "api", "shop")
    );
}

#[test]
fn texts_may_be_borrowed_or_changed_before() {
    let mut changed = String::from("shop");
    changed.make_ascii_uppercase();
    let borrowed = Cow::Borrowed("buy");
    let owned: Cow<str> = Cow::Owned(String::from("api"));
    let r = SpendRequest::new(Credits::new(1), borrowed, owned, changed.as_mut_str());
    assert_eq!(
        (r.purpose.as_str(), r.category.as_str(), r.merchant.as_str()),
        ("buy", "api", "SHOP")
    );
}

#[test]
fn window_at_the_start_of_time_holds_all() {
    let mut gate = SpendPolicyGate::new(SpendPolicyConfig::default());
    gate.record_spend(Credits::new(4), at(0));
    gate.record_spend(Credits::new(5), at(10));
    assert_eq!(gate.spent_in_window(at(10)), Credits::new(9));
}

#[test]
fn recording_forgets_what_is_older_than_the_window() {
    let mut gate = SpendPolicyGate::new(SpendPolicyConfig {
        window: Duration::seconds(10),
        ..Default::default()
    });
    gate.record_spend(Credits::new(1), at(0));
    gate.record_spend(Credits::new(2), at(10_000));
    assert_eq!(gate.spent_in_window(at(10_000)), Credits::new(3));
    gate.record_spend(Credits::new(4), at(10_001));
    assert_eq!(gate.spent_in_window(at(10_001)), Credits::new(6));
    // The first spend is gone for good, also for a window that reaches back to it.
    assert_eq!(gate.spent_in_window(at(10_000)), Credits::new(2));
}

#[test]
fn window_sum_stops_at_the_limit() {
    let mut gate = SpendPolicyGate::new(SpendPolicyConfig {
        window_cap: Credits::new(u64::MAX - 1),
        ..Default::default()
    });
    gate.record_spend(Credits::new(u64::MAX), at(0));
    gate.record_spend(Credits::new(u64::MAX), at(0));
    assert_eq!(gate.spent_in_window(at(0)), Credits::new(u64::MAX));
    assert!(gate.evaluate(&ask(1, "x", "y"), at(0)).is_err());
}

#[test]
fn smaller_amount_is_allowed_where_a_larger_one_is() {
    let mut gate = SpendPolicyGate::new(SpendPolicyConfig {
        per_transaction_cap: Credits::new(50),
        window_cap: Credits::new(80),
        ..Default::default()
    });
    gate.record_spend(Credits::new(40), at(5));
    assert!(gate.evaluate(&ask(40, "x", "y"), at(5)).is_ok());
    for amount in 1..40 {
        assert!(gate.evaluate(&ask(amount, "x", "y"), at(5)).is_ok());
    }
    assert!(gate.evaluate(&ask(41, "x", "y"), at(5)).is_err());
}

#[test]
fn allowed_and_recorded_spends_stay_within_the_cap() {
    let mut gate = SpendPolicyGate::new(SpendPolicyConfig {
        window_cap: Credits::new(100),
        window: Duration::seconds(10),
        ..Default::default()
    });
    for step in 0..50u64 {
        let now = at(step * 700);
        let amount = 1 + (step * 37) % 60;
        if gate.evaluate(&ask(amount, "x", "y"), now).is_ok() {
            gate.record_spend(Credits::new(amount), now);
        }
        assert!(gate.spent_in_window(now) <= Credits::new(100));
    }
}

#[test]
fn exactly_the_recorded_spends_within_the_window_count() {
    let spends = [(9_000u64, 1u64), (2_000, 2), (12_000, 4), (1_999, 8), (5_000, 16), (0, 32)];
    let mut gate = SpendPolicyGate::new(SpendPolicyConfig {
        window: Duration::seconds(10),
        ..Default::default()
    });
    for (time, amount) in spends {
        gate.record_spend(Credits::new(amount), at(time));
    }
    assert_eq!(gate.spent_in_window(at(12_000)), Credits::new(1 + 2 + 4 + 16));
    assert_eq!(gate.spent_in_window(at(15_001)), Credits::new(1 + 4));
    assert_eq!(gate.spent_in_window(at(22_001)), Credits::zero());
}
