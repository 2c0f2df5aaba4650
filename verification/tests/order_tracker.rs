use archlab::choreography::orders::{
    on_payment_charged, on_payment_declined, on_stock_rejected, on_stock_released, on_stock_reserved,
    InMemoryOrderRepository, Order, OrderId, OrderLine, OrderStatus, ProductId, ReadModel, UserId,
};

fn placed(id: u128) -> Order {
    Order {
        id: OrderId(id),
        user_id: UserId(5),
        lines: vec![OrderLine { product_id: ProductId(9), quantity: 2, unit_price_cents: 500 }],
        total_cents: 1000,
        status: OrderStatus::Pending,
        failure_reason: None,
    }
}

fn status(repo: &InMemoryOrderRepository, id: u128) -> OrderStatus {
    repo.get(OrderId(id)).unwrap().status
}

#[test]
fn a_paid_order_is_confirmed() {
    let mut repo = InMemoryOrderRepository::new();
    repo.insert(placed(1));
    assert_eq!(on_stock_reserved(&mut repo, 1).unwrap().status, OrderStatus::AwaitingPayment);
    assert_eq!(on_payment_charged(&mut repo, 1).unwrap().status, OrderStatus::Confirmed);
    assert_eq!(status(&repo, 1), OrderStatus::Confirmed);
}

#[test]
fn a_rejected_reservation_fails_the_order_with_its_reason() {
    let mut repo = InMemoryOrderRepository::new();
    repo.insert(placed(1));
    let o = on_stock_rejected(&mut repo, 1, "only 1 left".to_string()).unwrap();
    assert_eq!(o.status, OrderStatus::Failed);
    assert_eq!(o.failure_reason.as_deref(), Some("only 1 left"));
}

#[test]
fn a_declined_payment_fails_once_the_stock_is_back() {
    let mut repo = InMemoryOrderRepository::new();
    repo.insert(placed(1));
    on_stock_reserved(&mut repo, 1);
    let o = on_payment_declined(&mut repo, 1, "broke".to_string()).unwrap();
    assert_eq!(o.status, OrderStatus::Compensating);
    let o = on_stock_released(&mut repo, 1).unwrap();
    assert_eq!(o.status, OrderStatus::Failed);
    assert_eq!(o.failure_reason.as_deref(), Some("broke"));
}

#[test]
fn facts_out_of_turn_change_nothing() {
    let mut repo = InMemoryOrderRepository::new();
    repo.insert(placed(1));
    assert!(on_payment_charged(&mut repo, 1).is_none());
    assert!(on_stock_released(&mut repo, 1).is_none());
    assert_eq!(status(&repo, 1), OrderStatus::Pending);
    assert!(on_stock_reserved(&mut repo, 2).is_none());
    assert!(repo.get(OrderId(2)).is_none());
}

#[test]
fn terminal_orders_stay_put_and_repeats_are_harmless() {
    let mut repo = InMemoryOrderRepository::new();
    repo.insert(placed(1));
    on_stock_reserved(&mut repo, 1);
    assert!(on_stock_reserved(&mut repo, 1).is_none());
    on_payment_charged(&mut repo, 1);
    assert!(on_payment_declined(&mut repo, 1, "late".to_string()).is_none());
    assert!(on_stock_rejected(&mut repo, 1, "late".to_string()).is_none());
    let o = repo.get(OrderId(1)).unwrap();
    assert_eq!(o.status, OrderStatus::Confirmed);
    assert!(o.failure_reason.is_none());
    assert_eq!(o.lines.len(), 1);
    assert_eq!(o.total_cents, 1000);
}

#[test]
fn fresh_order_ids_are_version_four() {
    let a = OrderId::new();
    let b = OrderId::new();
    assert_eq!((a.0 >> 76) & 0xf, 4);
    assert_eq!((a.0 >> 62) & 0x3, 2);
    assert_ne!(a, b);
}

#[test]
fn the_read_model_remembers_users_and_prices() {
    let mut rm = ReadModel::new();
    assert!(!rm.user_exists(5));
    rm.record_user(5);
    assert!(rm.user_exists(5));
    assert_eq!(rm.price_of(9), None);
    rm.record_price(9, 500);
    rm.record_price(9, 450);
    assert_eq!(rm.price_of(9), Some(450));
}
