use archlab::choreography::notifications::{email, Outcome, PlacedOrder, Registry};

const ORDER: u128 = 0x0d1b_2a7c_44e0_4f3a_9c11_5e6f_7a8b_9c0d;

fn order() -> PlacedOrder {
    PlacedOrder { user_id: 0x77, total_cents: 1299 }
}

#[test]
fn sends_once_the_details_and_outcome_are_both_known() {
    let mut reg = Registry::new();

    assert!(reg.record_placed(ORDER, order()).is_none());
    let sent = reg.record_outcome(ORDER, Outcome::Confirmed).unwrap();
    assert_eq!(sent.0.user_id, 0x77);
    assert_eq!(sent.0.total_cents, 1299);
    assert!(matches!(sent.1, Outcome::Confirmed));
}

#[test]
fn sends_when_the_outcome_is_observed_before_the_order() {
    let mut reg = Registry::new();

    assert!(reg.record_outcome(ORDER, Outcome::Confirmed).is_none());
    assert!(reg.record_placed(ORDER, order()).is_some());
}

#[test]
fn never_emails_the_same_customer_twice() {
    let mut reg = Registry::new();

    reg.record_placed(ORDER, order());
    assert!(reg.record_outcome(ORDER, Outcome::Confirmed).is_some());
    assert!(reg.record_outcome(ORDER, Outcome::Confirmed).is_none());
    assert!(reg.record_outcome(ORDER, Outcome::Failed("late".to_string())).is_none());
}

#[test]
fn a_redelivered_placement_does_not_resend() {
    let mut reg = Registry::new();

    reg.record_outcome(ORDER, Outcome::Confirmed);
    assert!(reg.record_placed(ORDER, order()).is_some());
    assert!(reg.record_placed(ORDER, order()).is_none());
}

#[test]
fn the_first_parked_outcome_is_the_one_sent() {
    let mut reg = Registry::new();

    assert!(reg.record_outcome(ORDER, Outcome::Failed("out of stock".to_string())).is_none());
    assert!(reg.record_outcome(ORDER, Outcome::Confirmed).is_none());
    match reg.record_placed(ORDER, order()) {
        Some((_, Outcome::Failed(reason))) => assert_eq!(reason, "out of stock"),
        other => panic!("unexpected {other:?}"),
    }
}

#[test]
fn orders_are_notified_independently() {
    let mut reg = Registry::new();
    reg.record_placed(ORDER, order());
    reg.record_placed(ORDER + 1, order());
    assert!(reg.record_outcome(ORDER, Outcome::Confirmed).is_some());
    assert!(reg.record_outcome(ORDER + 1, Outcome::Confirmed).is_some());
}

#[test]
fn the_email_says_what_happened() {
    let details = PlacedOrder { user_id: 0x1234_5678_9abc_4def_8123_456789abcdef, total_cents: 1299 };
    assert_eq!(
        email(ORDER, details, &Outcome::Confirmed),
        "sending confirmation email for order 0d1b2a7c-44e0-4f3a-9c11-5e6f7a8b9c0d \
         (user 12345678-9abc-4def-8123-456789abcdef, total 1299c)"
    );
    assert_eq!(
        email(ORDER, details, &Outcome::Failed("no stock".to_string())),
        "sending sorry-your-order-failed email for order 0d1b2a7c-44e0-4f3a-9c11-5e6f7a8b9c0d \
         (user 12345678-9abc-4def-8123-456789abcdef): no stock"
    );
}
