use archlab::choreography::payments::{
    ChargeOutcome, InMemoryPaymentsRepository, PaymentCharged, PaymentDeclined, PaymentEvent, PaymentsService,
    PlacedOrder, UserId, STARTING_BALANCE_CENTS,
};

const USER: UserId = UserId(0x1234_5678_9abc_4def_8123_456789abcdef);
const ORDER: u128 = 0x0d1b_2a7c_44e0_4f3a_9c11_5e6f_7a8b_9c0d;

fn service() -> PaymentsService {
    PaymentsService::new(InMemoryPaymentsRepository::new())
}

#[test]
fn charges_when_balance_sufficient() {
    let mut svc = service();
    svc.open_wallet(USER, 2000);
    let mut published = Vec::new();

    published.extend(svc.on_order_placed(ORDER, USER, 1299));
    published.extend(svc.on_stock_reserved(ORDER));

    assert_eq!(svc.balance(USER), Some(701));
    assert_eq!(published[0].subject(), PaymentCharged::SUBJECT);
}

#[test]
fn declines_when_balance_insufficient() {
    let mut svc = service();
    svc.open_wallet(USER, 2000);
    let mut published = Vec::new();

    published.extend(svc.on_order_placed(ORDER, USER, 2598));
    published.extend(svc.on_stock_reserved(ORDER));

    assert_eq!(svc.balance(USER), Some(2000));
    assert_eq!(published[0].subject(), PaymentDeclined::SUBJECT);
    match &published[0] {
        PaymentEvent::Declined(e) => {
            assert_eq!(e.order_id, ORDER);
            assert_eq!(e.reason, "wallet 12345678-9abc-4def-8123-456789abcdef has 2000c, 2598c requested");
        }
        other => panic!("unexpected {other:?}"),
    }
}

#[test]
fn does_not_charge_on_placement_alone() {
    let mut svc = service();
    svc.open_wallet(USER, 2000);

    let published = svc.on_order_placed(ORDER, USER, 1299);

    assert_eq!(svc.balance(USER), Some(2000));
    assert!(published.is_none());
}

#[test]
fn charges_when_the_reservation_is_observed_before_the_order() {
    let mut svc = service();
    svc.open_wallet(USER, 2000);
    let mut published = Vec::new();

    published.extend(svc.on_stock_reserved(ORDER)); // arrives first
    assert!(published.is_empty(), "nothing to charge yet — parked");

    published.extend(svc.on_order_placed(ORDER, USER, 1299));

    assert_eq!(svc.balance(USER), Some(701));
    assert_eq!(published.len(), 1);
    assert_eq!(published[0].subject(), PaymentCharged::SUBJECT);
}

#[test]
fn charge_is_idempotent_by_order_id() {
    let mut svc = service();
    svc.open_wallet(USER, 2000);

    svc.on_order_placed(ORDER, USER, 1299);
    svc.on_stock_reserved(ORDER);
    let again = svc.on_stock_reserved(ORDER); // redelivery

    assert_eq!(svc.balance(USER), Some(701));
    assert_eq!(again.unwrap().subject(), PaymentCharged::SUBJECT);
}

#[test]
fn a_redelivered_placement_does_not_re_arm_the_join() {
    let mut svc = service();
    svc.open_wallet(USER, 2000);

    svc.on_stock_reserved(ORDER);
    svc.on_order_placed(ORDER, USER, 1299); // completes the join
    let again = svc.on_order_placed(ORDER, USER, 1299); // redelivery

    assert_eq!(svc.balance(USER), Some(701));
    assert!(again.is_none());
}

#[test]
fn a_missing_wallet_has_nothing_to_pay_with() {
    let mut svc = service();
    assert_eq!(svc.balance(USER), None);
    svc.on_order_placed(ORDER, USER, 1);
    match svc.on_stock_reserved(ORDER) {
        Some(PaymentEvent::Declined(e)) => {
            assert_eq!(e.reason, "wallet 12345678-9abc-4def-8123-456789abcdef has 0c, 1c requested")
        }
        other => panic!("unexpected {other:?}"),
    }
}

#[test]
fn new_wallets_open_at_twenty_dollars() {
    assert_eq!(STARTING_BALANCE_CENTS, 2000);
    let mut svc = service();
    svc.open_wallet(USER, STARTING_BALANCE_CENTS);
    assert_eq!(svc.balance(USER), Some(2000));
}

#[test]
fn the_repository_joins_either_way_round() {
    let mut repo = InMemoryPaymentsRepository::new();
    let details = PlacedOrder { user_id: USER, amount_cents: 5 };
    assert!(repo.join_reserved(ORDER).is_none());
    let joined = repo.join_placed(ORDER, details).unwrap();
    assert_eq!(joined.amount_cents, 5);
    let other = ORDER + 1;
    assert!(repo.join_placed(other, details).is_none());
    assert_eq!(repo.join_reserved(other).unwrap().user_id, USER);
    repo.open_wallet(USER, 7);
    assert!(matches!(repo.charge(ORDER, USER, 5), ChargeOutcome::Charged(5)));
    assert!(matches!(repo.charge(ORDER, USER, 5), ChargeOutcome::Charged(5)));
    assert_eq!(repo.balance(USER), Some(2));
}
