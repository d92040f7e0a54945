use enr::ledger::{
    AccountId, CreditReservation, CreditState, Credits, Duration, EnrError, NodeId, ReservationId,
    ReservationLedger, StateTransitionError, Timestamp,
};

fn account() -> AccountId {
    AccountId::node_account(NodeId::from_bytes([3u8; 32]))
}

fn ledger(balance: u64) -> ReservationLedger {
    ReservationLedger::with_balance(account(), Credits::new(balance))
}

fn at(millis: u64) -> Timestamp {
    Timestamp::new(millis)
}

#[test]
fn new_ledger_is_empty() {
    let l = ReservationLedger::new(account());
    assert_eq!(l.balance(), Credits::zero());
    assert_eq!(l.reserved_total(), Credits::zero());
    assert_eq!(l.consumed_total(), Credits::zero());
    assert_eq!(l.funded_total(), Credits::zero());
    assert_eq!(l.active_count(), 0);
    assert!(l.can_number_another());
    assert!(l.conservation_holds());
}

#[test]
fn credits_stop_at_the_limits() {
    let top = Credits::new(u64::MAX);
    assert_eq!(top.saturating_add(Credits::new(1)), top);
    assert_eq!(Credits::new(2).saturating_add(Credits::new(3)), Credits::new(5));
    assert_eq!(Credits::new(2).saturating_sub(Credits::new(3)), Credits::zero());
    assert_eq!(Credits::new(7).saturating_sub(Credits::new(3)), Credits::new(4));
    assert!(Credits::zero().is_zero());
    assert!(!Credits::new(1).is_zero());
}

#[test]
fn numerals_are_decimal() {
    for n in [0u64, 7, 10, 42, 100, 9_999, 1_000_000, u64::MAX] {
        assert_eq!(Credits::new(n).to_text(), n.to_string());
    }
}

#[test]
fn durations_count_milliseconds() {
    assert_eq!(Duration::seconds(60).millis, 60_000);
    assert_eq!(Duration::hours(24).millis, 86_400_000);
}

#[test]
fn lifecycle_has_four_steps() {
    let all = [
        CreditState::Active,
        CreditState::Reserved,
        CreditState::Consumed,
        CreditState::Released,
    ];
    let steps = [
        (CreditState::Active, CreditState::Reserved),
        (CreditState::Reserved, CreditState::Consumed),
        (CreditState::Reserved, CreditState::Released),
        (CreditState::Released, CreditState::Active),
    ];
    for from in all {
        for to in all {
            let expected = if steps.contains(&(from, to)) {
                Ok(to)
            } else {
                Err(StateTransitionError { from, to })
            };
            assert_eq!(from.transition(to), expected);
        }
    }
}

#[test]
fn ids_go_up_from_one_and_are_not_reused() {
    let mut l = ledger(100);
    let a = l.reserve(Credits::new(10), Duration::seconds(1), at(0)).unwrap();
    let b = l.reserve(Credits::new(10), Duration::seconds(1), at(0)).unwrap();
    assert_eq!((a, b), (ReservationId(1), ReservationId(2)));
    l.release(a).unwrap();
    l.commit(b, at(0)).unwrap();
    let c = l.reserve(Credits::new(10), Duration::seconds(1), at(0)).unwrap();
    assert_eq!(c, ReservationId(3));
    assert_eq!(l.release(a), Err(EnrError::ReservationNotFound(a)));
    assert_eq!(l.commit(b, at(0)), Err(EnrError::ReservationNotFound(b)));
}

#[test]
fn held_reservation_shows_what_was_asked_for() {
    let mut l = ledger(100);
    let id = l.reserve(Credits::new(30), Duration::seconds(5), at(77)).unwrap();
    let expected =
        CreditReservation::new(id, account(), Credits::new(30), Duration::seconds(5), at(77));
    assert_eq!(l.get(id), Some(&expected));
    assert_eq!(l.get(ReservationId(9)), None);
    assert_eq!(l.active_count(), 1);
}

#[test]
fn whole_balance_can_be_reserved() {
    let mut l = ledger(100);
    l.reserve(Credits::new(100), Duration::seconds(1), at(0)).unwrap();
    assert_eq!(l.balance(), Credits::zero());
    assert_eq!(
        l.reserve(Credits::new(1), Duration::seconds(1), at(0)),
        Err(EnrError::InsufficientCredits { required: Credits::new(1), available: Credits::zero() })
    );
}

#[test]
fn refused_operations_change_nothing() {
    let mut l = ledger(100);
    let id = l.reserve(Credits::new(30), Duration::seconds(5), at(0)).unwrap();
    assert_eq!(l.spend(Credits::zero()), Err(EnrError::ZeroAmount));
    assert_eq!(
        l.spend(Credits::new(71)),
        Err(EnrError::InsufficientCredits {
            required: Credits::new(71),
            available: Credits::new(70)
        })
    );
    assert!(l.reserve(Credits::new(71), Duration::seconds(5), at(0)).is_err());
    assert!(l.release(ReservationId(5)).is_err());
    assert!(l.commit(ReservationId(5), at(0)).is_err());
    assert_eq!(l.balance(), Credits::new(70));
    assert_eq!(l.reserved_total(), Credits::new(30));
    assert_eq!(l.consumed_total(), Credits::zero());
    assert!(l.get(id).is_some());
}

#[test]
fn ttl_elapses_at_its_end() {
    let mut l = ledger(100);
    let a = l.reserve(Credits::new(10), Duration::seconds(10), at(1_000)).unwrap();
    assert_eq!(l.commit(a, at(10_999)), Ok(Credits::new(10)));
    let b = l.reserve(Credits::new(10), Duration::seconds(10), at(1_000)).unwrap();
    assert_eq!(l.commit(b, at(11_000)), Err(EnrError::ReservationExpired(b)));
    assert_eq!(l.balance(), Credits::new(90));
    assert_eq!(l.commit(b, at(11_000)), Err(EnrError::ReservationNotFound(b)));
}

#[test]
fn ttl_near_the_end_of_time_does_not_wrap() {
    let mut l = ledger(100);
    let id = l
        .reserve(Credits::new(10), Duration { millis: u64::MAX }, at(u64::MAX - 1))
        .unwrap();
    assert_eq!(l.commit(id, at(u64::MAX)), Ok(Credits::new(10)));
}

#[test]
fn clock_before_creation_is_not_expired() {
    let mut l = ledger(100);
    let id = l.reserve(Credits::new(10), Duration::seconds(10), at(50_000)).unwrap();
    assert_eq!(l.commit(id, at(0)), Ok(Credits::new(10)));
}

#[test]
fn sweep_returns_every_expired_id_once() {
    let mut l = ledger(1_000);
    let mut expected = vec![];
    for i in 0..20u64 {
        let ttl = if i % 2 == 0 { 10 } else { 100 };
        let id = l.reserve(Credits::new(i + 1), Duration::seconds(ttl), at(0)).unwrap();
        if i % 2 == 0 {
            expected.push(id);
        }
    }
    let mut ids = l.release_expired(at(10_000));
    ids.sort();
    assert_eq!(ids, expected);
    assert_eq!(l.active_count(), 10);
    assert_eq!(l.reserved_total(), Credits::new(110));
    assert_eq!(l.balance(), Credits::new(890));
    assert!(l.release_expired(at(10_000)).is_empty());
    assert!(l.conservation_holds());
}

#[test]
fn direct_spend_and_committed_reservation_agree() {
    let mut a = ledger(100);
    let mut b = ledger(100);
    a.spend(Credits::new(25)).unwrap();
    let id = b.reserve(Credits::new(25), Duration::seconds(1), at(0)).unwrap();
    b.commit(id, at(0)).unwrap();
    assert_eq!(a.balance(), b.balance());
    assert_eq!(a.consumed_total(), b.consumed_total());
    assert_eq!(a.funded_total(), b.funded_total());
}

#[test]
fn balance_holds_where_sums_stop_at_the_limit() {
    let mut l = ledger(u64::MAX);
    l.spend(Credits::new(100)).unwrap();
    let id = l.reserve(Credits::new(50), Duration::seconds(1), at(0)).unwrap();
    l.fund(Credits::new(1_000));
    assert_eq!(l.funded_total(), Credits::new(u64::MAX));
    assert!(l.conservation_holds());
    l.fund(Credits::new(u64::MAX));
    assert_eq!(l.balance(), Credits::new(u64::MAX));
    l.release(id).unwrap();
    assert!(l.conservation_holds());
    assert_eq!(l.assert_conservation(), Ok(()));
}

#[test]
fn errors_have_words() {
    assert_eq!(EnrError::ZeroAmount.to_text(), "zero amount");
    assert_eq!(
        EnrError::InsufficientCredits { required: Credits::new(8), available: Credits::new(5) }
            .to_text(),
        "insufficient credits: required 8, available 5"
    );
    assert_eq!(EnrError::ReservationNotFound(ReservationId(4)).to_text(), "reservation not found: 4");
    assert_eq!(EnrError::ReservationExpired(ReservationId(12)).to_text(), "reservation expired: 12");
    assert_eq!(EnrError::InvalidStateTransition.to_text(), "invalid state transition");
    assert_eq!(
        EnrError::ConservationViolation { expected: Credits::new(10), actual: Credits::new(9) }
            .to_text(),
        "conservation violated: expected 10, actual 9"
    );
}

#[test]
fn reservations_stay_as_made_while_others_settle() {
    let mut l = ledger(100);
    let a = l.reserve(Credits::new(10), Duration::seconds(5), at(1)).unwrap();
    let b = l.reserve(Credits::new(20), Duration::seconds(6), at(2)).unwrap();
    let c = l.reserve(Credits::new(30), Duration::seconds(7), at(3)).unwrap();
    l.commit(a, at(4)).unwrap();
    l.release(c).unwrap();
    l.fund(Credits::new(5));
    l.spend(Credits::new(1)).unwrap();
    assert_eq!(l.release_expired(at(100)), vec![]);
    let expected =
        CreditReservation::new(b, account(), Credits::new(20), Duration::seconds(6), at(2));
    assert_eq!(l.get(b), Some(&expected));
    assert_eq!((l.get(a), l.get(c)), (None, None));
}
