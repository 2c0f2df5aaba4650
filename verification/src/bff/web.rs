//! The web gateway's order-detail screen: the order, its customer, and a
//! named line for every product, assembled from three backends' answers.
//!
//! The fetching is the caller's; this module decides what the screen shows
//! for every combination of answers.

use vstd::prelude::*;
use crate::text::{uuid_hyphenated, uuid_text};

verus! {

/// An order line as the orders backend reports it.
#[derive(Debug, Clone, Copy)]
pub struct OrderLineView {
    pub product_id: u128,
    pub quantity: u32,
    pub unit_price_cents: u64,
}

/// An order as the orders backend reports it.
#[derive(Debug, Clone)]
pub struct OrderView {
    pub id: u128,
    pub user_id: u128,
    pub lines: Vec<OrderLineView>,
    pub total_cents: u64,
}

/// A user as the users backend reports it.
#[derive(Debug, Clone)]
pub struct UserView {
    pub id: u128,
    pub email: String,
    pub name: String,
}

/// A product as the catalog backend reports it.
#[derive(Debug, Clone)]
pub struct ProductView {
    pub id: u128,
    pub name: String,
    pub price_cents: u64,
}

#[derive(Debug)]
pub struct CustomerView {
    pub id: u128,
    pub name: String,
    pub email: String,
}

#[derive(Debug)]
pub struct OrderLineDetail {
    pub product_id: u128,
    pub product_name: String,
    pub quantity: u32,
    pub unit_price_cents: u64,
    pub line_total_cents: u64,
}

#[derive(Debug)]
pub struct OrderDetailView {
    pub order_id: u128,
    pub customer: CustomerView,
    pub lines: Vec<OrderLineDetail>,
    pub total_cents: u64,
}

#[derive(Debug)]
pub enum AppError {
    NotFound(String),
    Internal(String),
    Validation(String),
}

/// The message for an order that does not exist.
pub open spec fn order_missing_message(order_id: u128) -> Seq<char> {
    "order "@ + uuid_hyphenated(order_id)
}

/// The message for an order whose customer the users backend does not know.
pub open spec fn unknown_user_message(order_id: u128, user_id: u128) -> Seq<char> {
    "order "@ + uuid_hyphenated(order_id) + " references unknown user "@ + uuid_hyphenated(user_id)
}

/// The message for an order line whose product the catalog does not know.
pub open spec fn unknown_product_message(order_id: u128, product_id: u128) -> Seq<char> {
    "order "@ + uuid_hyphenated(order_id) + " references unknown product "@ + uuid_hyphenated(product_id)
}

/// Whether the catalog answered for every line before `i`.
pub open spec fn found_before(products: Seq<Option<ProductView>>, i: int) -> bool {
    forall|j: int| 0 <= j < i ==> (#[trigger] products[j]) is Some
}

/// Whether `d` is the screen line for `line`, named after `product`.
pub open spec fn line_detail(d: OrderLineDetail, line: OrderLineView, product: ProductView) -> bool {
    &&& d.product_id == line.product_id
    &&& d.product_name@ == product.name@
    &&& d.quantity == line.quantity
    &&& d.unit_price_cents == line.unit_price_cents
    &&& d.line_total_cents == line.unit_price_cents * line.quantity
}

/// The orders backend's answer, or not found when it had none.
pub fn require_order(order_id: u128, order: Option<OrderView>) -> (r: Result<OrderView, AppError>)
    ensures
        match order {
            Some(o) => r matches Ok(v) && v == o,
            None => r matches Err(AppError::NotFound(m)) && m@ == order_missing_message(order_id),
        },
{
    match order {
        Some(o) => Ok(o),
        None => {
            let mut m = String::from_str("order ");
            m.append(uuid_text(order_id).as_str());
            Err(AppError::NotFound(m))
        },
    }
}

/// Assembles the order-detail screen from the order, the users backend's
/// answer for its customer, and the catalog's answer for each line's
/// product (`products[i]` for line `i`). A customer the users backend does
/// not know is reported first; otherwise the first line whose product the
/// catalog does not know. Each line's total is its unit price times its
/// quantity; the order's total is the one the orders backend recorded.
pub fn assemble_order_detail(
    order_id: u128,
    order: OrderView,
    user: Option<UserView>,
    products: Vec<Option<ProductView>>,
) -> (r: Result<OrderDetailView, AppError>)
    requires
        products@.len() == order.lines@.len(),
        forall|i: int| 0 <= i < order.lines@.len()
            ==> (#[trigger] order.lines@[i]).unit_price_cents * order.lines@[i].quantity <= u64::MAX,
    ensures
        user is None ==> (r matches Err(AppError::Internal(m))
            && m@ == unknown_user_message(order_id, order.user_id)),
        forall|i: int| 0 <= i < products@.len() && user is Some && found_before(products@, i)
            && (#[trigger] products@[i]) is None
            ==> (r matches Err(AppError::Internal(m))
                && m@ == unknown_product_message(order_id, order.lines@[i].product_id)),
        user is Some && found_before(products@, products@.len() as int) ==> (r matches Ok(v)
            && v.order_id == order.id
            && v.customer.id == user->Some_0.id
            && v.customer.name@ == user->Some_0.name@
            && v.customer.email@ == user->Some_0.email@
            && v.lines@.len() == order.lines@.len()
            && (forall|i: int| 0 <= i < v.lines@.len()
                ==> line_detail(#[trigger] v.lines@[i], order.lines@[i], products@[i]->Some_0))
            && v.total_cents == order.total_cents),
{
    let u = match user {
        Some(u) => u,
        None => {
            let mut m = String::from_str("order ");
            m.append(uuid_text(order_id).as_str());
            m.append(" references unknown user ");
            m.append(uuid_text(order.user_id).as_str());
            return Err(AppError::Internal(m));
        },
    };
    let n = order.lines.len();
    let mut lines: Vec<OrderLineDetail> = Vec::new();
    let mut i: usize = 0;
    while i < n
        invariant
            n == order.lines@.len(),
            products@.len() == n,
            user is Some,
            i <= n,
            lines@.len() == i,
            found_before(products@, i as int),
            forall|j: int| 0 <= j < n
                ==> (#[trigger] order.lines@[j]).unit_price_cents * order.lines@[j].quantity <= u64::MAX,
            forall|j: int| 0 <= j < i ==> line_detail(#[trigger] lines@[j], order.lines@[j], products@[j]->Some_0),
        decreases n - i,
    {
        let line = order.lines[i];
        match &products[i] {
            Some(p) => {
                let total = line.unit_price_cents * (line.quantity as u64);
                lines.push(OrderLineDetail {
                    product_id: line.product_id,
                    product_name: p.name.clone(),
                    quantity: line.quantity,
                    unit_price_cents: line.unit_price_cents,
                    line_total_cents: total,
                });
            },
            None => {
                let mut m = String::from_str("order ");
                m.append(uuid_text(order_id).as_str());
                m.append(" references unknown product ");
                m.append(uuid_text(line.product_id).as_str());
                let r = Err(AppError::Internal(m));
                proof {
                    assert forall|k: int| 0 <= k < n && found_before(products@, k)
                        && (#[trigger] products@[k]) is None implies k == i by {
                        if k < i {
                        } else if k > i {
                            assert(products@[i as int] is Some);
                        }
                    }
                }
                return r;
            },
        }
        i = i + 1;
    }
    proof {
        assert forall|k: int| 0 <= k < n && found_before(products@, k)
            && (#[trigger] products@[k]) is None implies false by {
            assert(products@[k] is Some);
        }
    }
    Ok(OrderDetailView {
        order_id: order.id,
        customer: CustomerView { id: u.id, name: u.name, email: u.email },
        lines,
        total_cents: order.total_cents,
    })
}


/// Law: a screen line's total is its unit price times its quantity, and it
/// carries the product's name and the line's own price and quantity.
pub proof fn law_line_total_is_price_times_quantity(d: OrderLineDetail, line: OrderLineView, product: ProductView)
    requires
        line_detail(d, line, product),
    ensures
        d.line_total_cents == line.unit_price_cents * line.quantity,
        d.quantity == line.quantity,
        d.unit_price_cents == line.unit_price_cents,
        d.product_id == line.product_id,
        d.product_name@ == product.name@,
{
}

} // verus!
