use archlab::bff::replies::{order_rejection, read_lookup_reply, read_place_reply, service_failure, LookupReply};
use archlab::bff::mobile;
use archlab::bff::orders::{InMemoryOrderRepository, Order, OrderId, OrderLine, ProductId, UserId};
use archlab::bff::web;

const ORDER: u128 = 0x0d1b_2a7c_44e0_4f3a_9c11_5e6f_7a8b_9c0d;
const USER: u128 = 0x1234_5678_9abc_4def_8123_456789abcdef;
const PRODUCT: u128 = 0x5a5a_0000_1111_4222_8333_444455556666;

fn web_order() -> web::OrderView {
    web::OrderView {
        id: ORDER,
        user_id: USER,
        lines: vec![web::OrderLineView { product_id: PRODUCT, quantity: 2, unit_price_cents: 500 }],
        total_cents: 1000,
    }
}

fn ada() -> web::UserView {
    web::UserView { id: USER, email: "ada@example.com".to_string(), name: "Ada".to_string() }
}

fn mug() -> web::ProductView {
    web::ProductView { id: PRODUCT, name: "Coffee Mug".to_string(), price_cents: 500 }
}

#[test]
fn aggregates_customer_and_named_lines() {
    let order = web::require_order(ORDER, Some(web_order())).unwrap();
    let view = web::assemble_order_detail(ORDER, order, Some(ada()), vec![Some(mug())]).unwrap();

    assert_eq!(view.customer.name, "Ada");
    assert_eq!(view.customer.email, "ada@example.com");
    assert_eq!(view.customer.id, USER);
    assert_eq!(view.order_id, ORDER);
    assert_eq!(view.lines.len(), 1);
    assert_eq!(view.lines[0].product_name, "Coffee Mug");
    assert_eq!(view.lines[0].quantity, 2);
    assert_eq!(view.lines[0].unit_price_cents, 500);
    assert_eq!(view.lines[0].line_total_cents, 1000);
    assert_eq!(view.total_cents, 1000);
}

#[test]
fn views_missing_order_is_not_found() {
    let err = web::require_order(ORDER, None).unwrap_err();
    assert!(matches!(err, web::AppError::NotFound(_)));
    match err {
        web::AppError::NotFound(m) => assert_eq!(m, "order 0d1b2a7c-44e0-4f3a-9c11-5e6f7a8b9c0d"),
        other => panic!("unexpected {other:?}"),
    }
}

#[test]
fn an_unknown_customer_is_an_internal_error() {
    let err = web::assemble_order_detail(ORDER, web_order(), None, vec![None]).unwrap_err();
    match err {
        web::AppError::Internal(m) => assert_eq!(
            m,
            "order 0d1b2a7c-44e0-4f3a-9c11-5e6f7a8b9c0d references unknown user 12345678-9abc-4def-8123-456789abcdef"
        ),
        other => panic!("unexpected {other:?}"),
    }
}

#[test]
fn the_first_unknown_product_is_named() {
    let mut order = web_order();
    order.lines.push(web::OrderLineView { product_id: 7, quantity: 1, unit_price_cents: 3 });
    order.lines.push(web::OrderLineView { product_id: 8, quantity: 1, unit_price_cents: 3 });
    let err = web::assemble_order_detail(ORDER, order, Some(ada()), vec![Some(mug()), None, None]).unwrap_err();
    match err {
        web::AppError::Internal(m) => assert_eq!(
            m,
            "order 0d1b2a7c-44e0-4f3a-9c11-5e6f7a8b9c0d references unknown product 00000000-0000-0000-0000-000000000007"
        ),
        other => panic!("unexpected {other:?}"),
    }
}

#[test]
fn every_line_is_priced_on_its_own() {
    let mut order = web_order();
    order.lines.push(web::OrderLineView { product_id: 7, quantity: 3, unit_price_cents: 250 });
    order.total_cents = 1750;
    let plate = web::ProductView { id: 7, name: "Plate".to_string(), price_cents: 999 };
    let view = web::assemble_order_detail(ORDER, order, Some(ada()), vec![Some(mug()), Some(plate)]).unwrap();
    assert_eq!(view.lines[1].product_name, "Plate");
    assert_eq!(view.lines[1].line_total_cents, 750);
    assert_eq!(view.lines[1].unit_price_cents, 250);
    assert_eq!(view.total_cents, 1750);
}

fn mobile_order(quantities: &[u32]) -> mobile::OrderView {
    mobile::OrderView {
        id: ORDER,
        user_id: USER,
        lines: quantities.iter().map(|&q| mobile::OrderLineView { quantity: q }).collect(),
        total_cents: 1799,
    }
}

#[test]
fn sums_item_count_across_lines() {
    let order = mobile::require_order(ORDER, Some(mobile_order(&[2, 1]))).unwrap();
    let user = mobile::UserView { id: USER, name: "Ada".to_string() };
    let view = mobile::summarize_order(ORDER, order, Some(user)).unwrap();

    assert_eq!(view.customer_name, "Ada");
    assert_eq!(view.item_count, 3);
    assert_eq!(view.total_cents, 1799);
    assert_eq!(view.order_id, ORDER);
}

#[test]
fn mobile_views_missing_order_is_not_found() {
    let err = mobile::require_order(ORDER, None).unwrap_err();
    assert!(matches!(err, mobile::AppError::NotFound(_)));
}

#[test]
fn the_mobile_screen_needs_the_customer() {
    match mobile::summarize_order(ORDER, mobile_order(&[]), None) {
        Err(mobile::AppError::Internal(m)) => assert_eq!(
            m,
            "order 0d1b2a7c-44e0-4f3a-9c11-5e6f7a8b9c0d references unknown user 12345678-9abc-4def-8123-456789abcdef"
        ),
        other => panic!("unexpected {other:?}"),
    }
    let user = mobile::UserView { id: USER, name: "Bo".to_string() };
    assert_eq!(mobile::summarize_order(ORDER, mobile_order(&[]), Some(user)).unwrap().item_count, 0);
}

#[test]
fn the_orders_backend_keeps_orders_by_id() {
    let mut repo = InMemoryOrderRepository::new();
    let id = OrderId::new();
    let order = Order {
        id,
        user_id: UserId(USER),
        lines: vec![OrderLine { product_id: ProductId(PRODUCT), quantity: 2, unit_price_cents: 500 }],
        total_cents: 1000,
    };
    let back = repo.insert(order);
    assert_eq!(back.id, id);
    let got = repo.get(id).unwrap();
    assert_eq!(got.lines.len(), 1);
    assert_eq!(got.lines[0].quantity, 2);
    assert_eq!(got.total_cents, 1000);
    assert!(repo.get(OrderId(1)).is_none());
    assert_eq!(repo.all().len(), 1);
    assert_eq!((id.0 >> 76) & 0xf, 4);
    assert_eq!((id.0 >> 62) & 0x3, 2);
}

#[test]
fn backend_answers_are_read_by_status() {
    assert!(matches!(read_lookup_reply("users", 200), LookupReply::Found));
    assert!(matches!(read_lookup_reply("users", 204), LookupReply::Found));
    assert!(matches!(read_lookup_reply("users", 404), LookupReply::Missing));
    match read_lookup_reply("catalog", 500) {
        LookupReply::Failed(m) => assert_eq!(m, "catalog service returned 500 Internal Server Error"),
        other => panic!("unexpected {other:?}"),
    }
    match read_lookup_reply("orders", 799) {
        LookupReply::Failed(m) => assert_eq!(m, "orders service returned 799 <unknown status code>"),
        other => panic!("unexpected {other:?}"),
    }
    assert_eq!(read_place_reply(202, "{}"), None);
    assert_eq!(
        read_place_reply(422, "no such user").unwrap(),
        "orders service rejected the order (422 Unprocessable Entity): no such user"
    );
    assert_eq!(service_failure("users", "503 x"), "users service returned 503 x");
    assert_eq!(order_rejection("400 y", "z"), "orders service rejected the order (400 y): z");
}
