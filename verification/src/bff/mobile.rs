//! The mobile gateway's order-status screen: who the order is for, how
//! many items it holds, and its total. It needs two backends, not three:
//! no product is ever named on this screen.

use vstd::prelude::*;
use crate::text::{uuid_hyphenated, uuid_text};

verus! {

/// An order line as the orders backend reports it; this screen reads only
/// the quantity.
#[derive(Debug, Clone, Copy)]
pub struct OrderLineView {
    pub quantity: u32,
}

/// An order as the orders backend reports it.
#[derive(Debug, Clone)]
pub struct OrderView {
    pub id: u128,
    pub user_id: u128,
    pub lines: Vec<OrderLineView>,
    pub total_cents: u64,
}

/// A user as the users backend reports it; this screen reads only the name.
#[derive(Debug, Clone)]
pub struct UserView {
    pub id: u128,
    pub name: String,
}

#[derive(Debug)]
pub struct OrderSummaryView {
    pub order_id: u128,
    pub customer_name: String,
    pub item_count: u32,
    pub total_cents: u64,
}

#[derive(Debug)]
pub enum AppError {
    NotFound(String),
    Internal(String),
    Validation(String),
}

/// The number of items over all lines: the sum of their quantities.
pub open spec fn item_count(lines: Seq<OrderLineView>) -> nat
    decreases lines.len(),
{
    if lines.len() == 0 {
        0
    } else {
        item_count(lines.drop_last()) + lines.last().quantity as nat
    }
}

proof fn lemma_item_count_prefix(lines: Seq<OrderLineView>, i: int)
    requires
        0 <= i <= lines.len(),
    ensures
        item_count(lines.take(i)) <= item_count(lines),
    decreases lines.len(),
{
    if i < lines.len() {
        assert(lines.drop_last().take(i) =~= lines.take(i));
        lemma_item_count_prefix(lines.drop_last(), i);
    } else {
        assert(lines.take(i) =~= lines);
    }
}

/// The orders backend's answer, or not found when it had none.
pub fn require_order(order_id: u128, order: Option<OrderView>) -> (r: Result<OrderView, AppError>)
    ensures
        match order {
            Some(o) => r matches Ok(v) && v == o,
            None => r matches Err(AppError::NotFound(m)) && m@ == "order "@ + uuid_hyphenated(order_id),
        },
{
    match order {
        Some(o) => Ok(o),
        None => {
            let mut m = String::from_str("order ");
            m.append(uuid_text(order_id).as_str());
            Err(AppError::NotFound(m))
        },
    }
}

/// Assembles the order-status screen from the order and the users
/// backend's answer for its customer.
pub fn summarize_order(order_id: u128, order: OrderView, user: Option<UserView>) -> (r: Result<OrderSummaryView, AppError>)
    requires
        item_count(order.lines@) <= u32::MAX,
    ensures
        match user {
            Some(u) => r matches Ok(v)
                && v.order_id == order.id
                && v.customer_name@ == u.name@
                && v.item_count == item_count(order.lines@)
                && v.total_cents == order.total_cents,
            None => r matches Err(AppError::Internal(m))
                && m@ == "order "@ + uuid_hyphenated(order_id) + " references unknown user "@
                    + uuid_hyphenated(order.user_id),
        },
{
    let u = match user {
        Some(u) => u,
        None => {
            let mut m = String::from_str("order ");
            m.append(uuid_text(order_id).as_str());
            m.append(" references unknown user ");
            m.append(uuid_text(order.user_id).as_str());
            return Err(AppError::Internal(m));
        },
    };
    let n = order.lines.len();
    let mut count: u32 = 0;
    let mut i: usize = 0;
    while i < n
        invariant
            n == order.lines@.len(),
            i <= n,
            item_count(order.lines@) <= u32::MAX,
            count == item_count(order.lines@.take(i as int)),
        decreases n - i,
    {
        proof {
            assert(order.lines@.take(i + 1).drop_last() =~= order.lines@.take(i as int));
            lemma_item_count_prefix(order.lines@, i + 1);
        }
        count = count + order.lines[i].quantity;
        i = i + 1;
    }
    proof {
        assert(order.lines@.take(n as int) =~= order.lines@);
    }
    Ok(OrderSummaryView {
        order_id: order.id,
        customer_name: u.name,
        item_count: count,
        total_cents: order.total_cents,
    })
}


/// Law: the item count adds each line's full quantity. Appending a line of
/// quantity `q` adds exactly `q` items, so an order's count is the sum of
/// its lines' quantities, with none capped or skipped.
pub proof fn law_item_count_adds_each_quantity(lines: Seq<OrderLineView>, line: OrderLineView)
    ensures
        item_count(lines.push(line)) == item_count(lines) + line.quantity,
        item_count(Seq::<OrderLineView>::empty()) == 0,
        item_count(seq![line]) == line.quantity,
{
    assert(lines.push(line).drop_last() =~= lines);
    assert(seq![line].drop_last() =~= Seq::<OrderLineView>::empty());
}

} // verus!
