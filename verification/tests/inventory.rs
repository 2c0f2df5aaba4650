use archlab::choreography::inventory::{
    placed_lines, InMemoryInventoryRepository, InventoryEvent, InventoryService, OrderPlaced, OrderPlacedLine,
    ProductId, ReservationOutcome, StockRejected, StockReleased, StockReserved,
};

const ORDER: u128 = 0x0d1b_2a7c_44e0_4f3a_9c11_5e6f_7a8b_9c0d;
const PRODUCT: ProductId = ProductId(0x5a5a_0000_1111_4222_8333_444455556666);

fn service() -> InventoryService {
    InventoryService::new(InMemoryInventoryRepository::new())
}

fn reserve(svc: &mut InventoryService, order: u128, lines: Vec<(ProductId, u32)>) -> Option<InventoryEvent> {
    svc.reserve(order, lines)
}

fn release(svc: &mut InventoryService, order: u128) -> InventoryEvent {
    assert!(svc.release_fits(order));
    svc.release(order)
}

#[test]
fn reserves_when_stock_available() {
    let mut svc = service();
    svc.seed_product(PRODUCT, 5);

    let published = reserve(&mut svc, ORDER, vec![(PRODUCT, 3)]).unwrap();

    assert_eq!(svc.available(PRODUCT), Some(2));
    assert_eq!(published.subject(), StockReserved::SUBJECT);
    match published {
        InventoryEvent::Reserved(e) => assert_eq!(e.order_id, ORDER),
        other => panic!("unexpected {other:?}"),
    }
}

#[test]
fn rejects_when_stock_insufficient() {
    let mut svc = service();
    svc.seed_product(PRODUCT, 2);

    let published = reserve(&mut svc, ORDER, vec![(PRODUCT, 5)]).unwrap();

    assert_eq!(svc.available(PRODUCT), Some(2));
    assert_eq!(published.subject(), StockRejected::SUBJECT);
}

#[test]
fn a_rejection_says_what_was_short() {
    let mut svc = service();
    svc.seed_product(PRODUCT, 2);
    match reserve(&mut svc, ORDER, vec![(PRODUCT, 5)]) {
        Some(InventoryEvent::Rejected(e)) => {
            assert_eq!(e.order_id, ORDER);
            assert_eq!(
                e.reason,
                "only 2 unit(s) of 5a5a0000-1111-4222-8333-444455556666 available, 5 requested"
            );
        }
        other => panic!("unexpected {other:?}"),
    }
}

#[test]
fn an_unknown_product_counts_as_none_in_stock() {
    let mut svc = service();
    let ghost = ProductId(7);
    match reserve(&mut svc, ORDER, vec![(ghost, 1)]) {
        Some(InventoryEvent::Rejected(e)) => assert_eq!(
            e.reason,
            "only 0 unit(s) of 00000000-0000-0000-0000-000000000007 available, 1 requested"
        ),
        other => panic!("unexpected {other:?}"),
    }
    assert_eq!(svc.available(ghost), None);
}

#[test]
fn a_short_line_reserves_nothing_at_all() {
    let mut svc = service();
    let other = ProductId(9);
    svc.seed_product(PRODUCT, 5);
    svc.seed_product(other, 1);
    let published = reserve(&mut svc, ORDER, vec![(PRODUCT, 3), (other, 2)]).unwrap();
    assert_eq!(published.subject(), StockRejected::SUBJECT);
    assert_eq!(svc.available(PRODUCT), Some(5));
    assert_eq!(svc.available(other), Some(1));
}

#[test]
fn reserve_is_idempotent_by_order_id() {
    let mut svc = service();
    svc.seed_product(PRODUCT, 5);

    reserve(&mut svc, ORDER, vec![(PRODUCT, 3)]);
    let again = reserve(&mut svc, ORDER, vec![(PRODUCT, 3)]); // redelivery

    assert_eq!(svc.available(PRODUCT), Some(2));
    assert_eq!(again.unwrap().subject(), StockReserved::SUBJECT);
}

#[test]
fn release_restores_reserved_stock() {
    let mut svc = service();
    svc.seed_product(PRODUCT, 5);

    let first = reserve(&mut svc, ORDER, vec![(PRODUCT, 3)]).unwrap();
    let second = release(&mut svc, ORDER);

    assert_eq!(svc.available(PRODUCT), Some(5));
    assert_eq!(first.subject(), StockReserved::SUBJECT);
    assert_eq!(second.subject(), StockReleased::SUBJECT);
}

#[test]
fn release_is_idempotent() {
    let mut svc = service();
    svc.seed_product(PRODUCT, 5);

    reserve(&mut svc, ORDER, vec![(PRODUCT, 3)]);
    release(&mut svc, ORDER);
    release(&mut svc, ORDER); // redelivery

    assert_eq!(svc.available(PRODUCT), Some(5));
}

#[test]
fn releasing_an_order_never_reserved_changes_nothing() {
    let mut svc = service();
    svc.seed_product(PRODUCT, 5);
    let ev = release(&mut svc, ORDER);
    assert_eq!(ev.subject(), StockReleased::SUBJECT);
    assert_eq!(svc.available(PRODUCT), Some(5));
}

#[test]
fn a_redelivered_placement_after_compensation_does_not_re_reserve() {
    let mut svc = service();
    svc.seed_product(PRODUCT, 5);
    let mut published = Vec::new();

    published.extend(reserve(&mut svc, ORDER, vec![(PRODUCT, 3)]));
    published.push(release(&mut svc, ORDER));
    published.extend(reserve(&mut svc, ORDER, vec![(PRODUCT, 3)])); // late redelivery

    assert_eq!(svc.available(PRODUCT), Some(5));
    assert_eq!(published.len(), 2);
    assert_eq!(published[0].subject(), StockReserved::SUBJECT);
    assert_eq!(published[1].subject(), StockReleased::SUBJECT);
}

#[test]
fn an_order_asking_more_than_a_u32_can_hold_back_is_not_released() {
    let mut svc = service();
    svc.seed_product(PRODUCT, 5);
    reserve(&mut svc, ORDER, vec![(PRODUCT, 5)]);
    svc.seed_product(PRODUCT, u32::MAX);
    assert!(!svc.release_fits(ORDER));
}

#[test]
fn the_repository_reports_its_outcomes() {
    let mut repo = InMemoryInventoryRepository::new();
    repo.seed(PRODUCT, 4);
    let lines = vec![(PRODUCT, 1), (PRODUCT, 2)];
    match repo.reserve(ORDER, lines) {
        ReservationOutcome::Reserved(l) => assert_eq!(l, vec![(PRODUCT, 1), (PRODUCT, 2)]),
        other => panic!("unexpected {other:?}"),
    }
    assert_eq!(repo.available(PRODUCT), Some(1));
    repo.release(ORDER);
    assert_eq!(repo.available(PRODUCT), Some(4));
    assert!(matches!(repo.reserve(ORDER, vec![(PRODUCT, 1)]), ReservationOutcome::AlreadyReleased));
}

#[test]
fn lines_that_together_ask_too_much_are_rejected_whole() {
    let mut repo = InMemoryInventoryRepository::new();
    let other = ProductId(9);
    repo.seed(PRODUCT, 4);
    repo.seed(other, 5);
    match repo.reserve(ORDER, vec![(other, 1), (PRODUCT, 3), (PRODUCT, 3)]) {
        ReservationOutcome::Rejected(reason) => assert_eq!(
            reason,
            "only 4 unit(s) of 5a5a0000-1111-4222-8333-444455556666 available, 6 requested"
        ),
        other => panic!("unexpected {other:?}"),
    }
    assert_eq!(repo.available(PRODUCT), Some(4));
    assert_eq!(repo.available(other), Some(5));
    // The rejection is recorded: a redelivery gets it back and still moves nothing.
    assert!(matches!(repo.reserve(ORDER, vec![(PRODUCT, 1)]), ReservationOutcome::Rejected(_)));
    assert_eq!(repo.available(PRODUCT), Some(4));
}

#[test]
fn repeated_lines_that_fit_together_are_all_taken() {
    let mut svc = service();
    svc.seed_product(PRODUCT, 6);
    let ev = reserve(&mut svc, ORDER, vec![(PRODUCT, 3), (PRODUCT, 3)]).unwrap();
    assert_eq!(ev.subject(), StockReserved::SUBJECT);
    assert_eq!(svc.available(PRODUCT), Some(0));
    release(&mut svc, ORDER);
    assert_eq!(svc.available(PRODUCT), Some(6));
}

#[test]
fn an_over_asking_order_is_announced_as_rejected() {
    let mut svc = service();
    svc.seed_product(PRODUCT, 5);
    let ev = reserve(&mut svc, ORDER, vec![(PRODUCT, 3), (PRODUCT, 3)]).unwrap();
    assert_eq!(ev.subject(), StockRejected::SUBJECT);
    assert_eq!(svc.available(PRODUCT), Some(5));
}

#[test]
fn placed_lines_keep_their_order() {
    let evt = OrderPlaced {
        id: ORDER,
        lines: vec![
            OrderPlacedLine { product_id: 10, quantity: 2 },
            OrderPlacedLine { product_id: 11, quantity: 1 },
        ],
    };
    assert_eq!(placed_lines(&evt), vec![(ProductId(10), 2), (ProductId(11), 1)]);
}
