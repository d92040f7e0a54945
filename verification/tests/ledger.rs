use enr::ledger::{
    AccountId, Credits, Duration, EnrError, NodeId, ReservationLedger, Timestamp,
};

fn ledger(balance: u64) -> ReservationLedger {
    let account = AccountId::node_account(NodeId::from_bytes([7u8; 32]));
    ReservationLedger::with_balance(account, Credits::new(balance))
}

fn ttl() -> Duration {
    Duration::seconds(60)
}

fn t0() -> Timestamp {
    Timestamp::new(1_000_000)
}

#[test]
fn reserve_decrements_spendable_and_conserves() {
    let mut l = ledger(100);
    assert!(l.conservation_holds());

    let id = l.reserve(Credits::new(40), ttl(), t0()).unwrap();
    assert_eq!(l.balance(), Credits::new(60));
    assert_eq!(l.reserved_total(), Credits::new(40));
    assert!(l.get(id).is_some());
    assert!(l.conservation_holds());
}

#[test]
fn reserve_rejects_zero() {
    let mut l = ledger(100);
    assert!(matches!(
        l.reserve(Credits::zero(), ttl(), t0()),
        Err(EnrError::ZeroAmount)
    ));
}

#[test]
fn reserve_rejects_insufficient_balance() {
    let mut l = ledger(50);
    let r = l.reserve(Credits::new(80), ttl(), t0());
    assert!(matches!(
        r,
        Err(EnrError::InsufficientCredits { required, available })
            if required == Credits::new(80) && available == Credits::new(50)
    ));
    // Balance untouched on failure.
    assert_eq!(l.balance(), Credits::new(50));
    assert!(l.conservation_holds());
}

#[test]
fn no_double_spend_toctou() {
    // The core guarantee: two reservations cannot both take from the same funds.
    let mut l = ledger(100);
    let _first = l.reserve(Credits::new(60), ttl(), t0()).unwrap();
    let second = l.reserve(Credits::new(60), ttl(), t0());
    assert!(matches!(second, Err(EnrError::InsufficientCredits { .. })));
    assert_eq!(l.reserved_total(), Credits::new(60));
    assert!(l.conservation_holds());
}

#[test]
fn commit_moves_reserved_to_consumed() {
    let mut l = ledger(100);
    let id = l.reserve(Credits::new(40), ttl(), t0()).unwrap();
    let amount = l.commit(id, t0()).unwrap();

    assert_eq!(amount, Credits::new(40));
    assert_eq!(l.balance(), Credits::new(60));
    assert_eq!(l.reserved_total(), Credits::zero());
    assert_eq!(l.consumed_total(), Credits::new(40));
    assert!(l.get(id).is_none());
    assert!(l.conservation_holds());
}

#[test]
fn release_restores_spendable_round_trip() {
    let mut l = ledger(100);
    let before = l.balance();
    let id = l.reserve(Credits::new(40), ttl(), t0()).unwrap();
    let amount = l.release(id).unwrap();

    assert_eq!(amount, Credits::new(40));
    assert_eq!(l.balance(), before); // exact round-trip
    assert_eq!(l.reserved_total(), Credits::zero());
    assert_eq!(l.consumed_total(), Credits::zero());
    assert!(l.conservation_holds());
}

#[test]
fn double_commit_fails() {
    let mut l = ledger(100);
    let id = l.reserve(Credits::new(40), ttl(), t0()).unwrap();
    l.commit(id, t0()).unwrap();
    assert!(matches!(
        l.commit(id, t0()),
        Err(EnrError::ReservationNotFound(_))
    ));
}

#[test]
fn double_release_fails() {
    let mut l = ledger(100);
    let id = l.reserve(Credits::new(40), ttl(), t0()).unwrap();
    l.release(id).unwrap();
    assert!(matches!(
        l.release(id),
        Err(EnrError::ReservationNotFound(_))
    ));
}

#[test]
fn commit_after_release_fails() {
    let mut l = ledger(100);
    let id = l.reserve(Credits::new(40), ttl(), t0()).unwrap();
    l.release(id).unwrap();
    assert!(matches!(
        l.commit(id, t0()),
        Err(EnrError::ReservationNotFound(_))
    ));
}

#[test]
fn expired_reservation_cannot_commit_and_is_reclaimed() {
    let mut l = ledger(100);
    let id = l.reserve(Credits::new(40), Duration::seconds(10), t0()).unwrap();

    // Commit well after the ttl.
    let later = Timestamp::new(t0().millis + 20_000);
    assert!(matches!(
        l.commit(id, later),
        Err(EnrError::ReservationExpired(_))
    ));

    // Credits reclaimed, not stranded.
    assert_eq!(l.balance(), Credits::new(100));
    assert_eq!(l.reserved_total(), Credits::zero());
    assert!(l.conservation_holds());
}

#[test]
fn release_expired_reclaims_stranded_reservations() {
    let mut l = ledger(100);
    let a = l.reserve(Credits::new(30), Duration::seconds(10), t0()).unwrap();
    let _b = l.reserve(Credits::new(20), Duration::hours(1), t0()).unwrap();

    let now = Timestamp::new(t0().millis + 20_000); // a expired, b still valid

    let reclaimed = l.release_expired(now);
    assert_eq!(reclaimed, vec![a]);
    assert_eq!(l.balance(), Credits::new(80)); // 50 spendable + 30 reclaimed
    assert_eq!(l.reserved_total(), Credits::new(20)); // b still held
    assert!(l.conservation_holds());
}

#[test]
fn spend_debits_directly_and_conserves() {
    let mut l = ledger(100);
    let amount = l.spend(Credits::new(30)).unwrap();
    assert_eq!(amount, Credits::new(30));
    assert_eq!(l.balance(), Credits::new(70));
    assert_eq!(l.consumed_total(), Credits::new(30));
    assert_eq!(l.reserved_total(), Credits::zero());
    assert!(l.conservation_holds());
}

#[test]
fn spend_rejects_insufficient_and_zero() {
    let mut l = ledger(20);
    assert!(matches!(
        l.spend(Credits::new(50)),
        Err(EnrError::InsufficientCredits { .. })
    ));
    assert!(matches!(l.spend(Credits::zero()), Err(EnrError::ZeroAmount)));
    assert_eq!(l.balance(), Credits::new(20)); // untouched
}

#[test]
fn conservation_holds_across_mixed_sequence() {
    let mut l = ledger(1000);
    let a = l.reserve(Credits::new(100), ttl(), t0()).unwrap();
    let b = l.reserve(Credits::new(250), ttl(), t0()).unwrap();
    let c = l.reserve(Credits::new(50), ttl(), t0()).unwrap();

    l.commit(a, t0()).unwrap();
    l.release(b).unwrap();
    l.fund(Credits::new(500));
    let _d = l.reserve(Credits::new(75), ttl(), t0()).unwrap();
    l.commit(c, t0()).unwrap();

    // funded = 1500, consumed = 150, reserved = 75, spendable = 1275
    assert_eq!(l.funded_total(), Credits::new(1500));
    assert_eq!(l.consumed_total(), Credits::new(150));
    assert_eq!(l.reserved_total(), Credits::new(75));
    assert_eq!(l.balance(), Credits::new(1275));
    assert!(l.conservation_holds());
    assert!(l.assert_conservation().is_ok());
}
