//! Orders: records placed orders, and narrates their progress from the
//! facts other services publish. The status it keeps is a report of a
//! workflow it does not drive, so the tracker only ever moves an order
//! forward, and ignores a fact that does not fit the order's current state.

use vstd::prelude::*;
use std::collections::{HashMap, HashSet};
use crate::text::new_v4_id;

verus! {

broadcast use vstd::std_specs::hash::group_hash_axioms;

#[derive(Debug, Clone, Copy, PartialEq, Eq, Hash)]
pub struct UserId(pub u128);

#[derive(Debug, Clone, Copy, PartialEq, Eq, Hash)]
pub struct ProductId(pub u128);

#[derive(Debug, Clone, Copy, PartialEq, Eq, Hash)]
pub struct OrderId(pub u128);

impl OrderId {
    /// A fresh random order id.
    pub fn new() -> (id: Self)
        ensures
            (id.0 >> 76u128) & 0xfu128 == 4u128,
            (id.0 >> 62u128) & 0x3u128 == 2u128,
    {
        OrderId(new_v4_id())
    }
}

#[derive(Debug, Clone, Copy)]
pub struct OrderLine {
    pub product_id: ProductId,
    pub quantity: u32,
    /// Price captured at the time the order was placed.
    pub unit_price_cents: u64,
}

/// How far along an order appears to be, as far as this service can tell.
#[derive(Debug, Clone, Copy, PartialEq, Eq, Structural)]
pub enum OrderStatus {
    /// Placed and announced; nothing heard since.
    Pending,
    /// Stock is reserved; payment is somebody else's move.
    AwaitingPayment,
    /// The wallet was charged. Terminal.
    Confirmed,
    /// Payment was declined; the stock's release has not been heard yet.
    Compensating,
    /// Terminal: stock unavailable, or payment declined and stock released.
    Failed,
}

#[derive(Debug)]
pub struct Order {
    pub id: OrderId,
    pub user_id: UserId,
    pub lines: Vec<OrderLine>,
    pub total_cents: u64,
    pub status: OrderStatus,
    pub failure_reason: Option<String>,
}

/// An order, read as values.
pub struct OrderModel {
    pub id: u128,
    pub user_id: u128,
    pub lines: Seq<OrderLine>,
    pub total_cents: u64,
    pub status: OrderStatus,
    pub failure_reason: Option<Seq<char>>,
}

impl View for Order {
    type V = OrderModel;

    open spec fn view(&self) -> OrderModel {
        OrderModel {
            id: self.id.0,
            user_id: self.user_id.0,
            lines: self.lines@,
            total_cents: self.total_cents,
            status: self.status,
            failure_reason: opt_text(self.failure_reason),
        }
    }
}

fn copy_order(o: &Order) -> (r: Order)
    ensures
        r@ == o@,
{
    let mut lines: Vec<OrderLine> = Vec::new();
    let mut i: usize = 0;
    while i < o.lines.len()
        invariant
            i <= o.lines@.len(),
            lines@ == o.lines@.take(i as int),
        decreases o.lines@.len() - i,
    {
        lines.push(o.lines[i]);
        assert(lines@ =~= o.lines@.take(i + 1));
        i = i + 1;
    }
    assert(o.lines@.take(o.lines@.len() as int) =~= o.lines@);
    let failure_reason = match &o.failure_reason {
        Some(r) => Some(r.clone()),
        None => None,
    };
    Order {
        id: o.id,
        user_id: o.user_id,
        lines,
        total_cents: o.total_cents,
        status: o.status,
        failure_reason,
    }
}

/// An optional text, read as characters.
pub open spec fn opt_text(o: Option<String>) -> Option<Seq<char>> {
    match o {
        Some(s) => Some(s@),
        None => None,
    }
}

/// Moving `order` from `from` to `to`: only an order currently in `from`
/// moves; a given reason replaces the recorded one, and no reason keeps it.
pub open spec fn transition_spec(
    orders: Map<u128, OrderModel>,
    id: u128,
    from: OrderStatus,
    to: OrderStatus,
    reason: Option<Seq<char>>,
) -> (Map<u128, OrderModel>, Option<OrderModel>) {
    if orders.contains_key(id) && orders[id].status == from {
        let o = orders[id];
        let moved = OrderModel {
            status: to,
            failure_reason: if reason is Some { reason } else { o.failure_reason },
            ..o
        };
        (orders.insert(id, moved), Some(moved))
    } else {
        (orders, None)
    }
}

/// The orders this service has placed, by id.
pub struct InMemoryOrderRepository {
    inner: HashMap<u128, Order>,
}

impl View for InMemoryOrderRepository {
    type V = Map<u128, OrderModel>;

    closed spec fn view(&self) -> Map<u128, OrderModel> {
        self.inner@.map_values(|o: Order| o@)
    }
}

impl InMemoryOrderRepository {
    pub fn new() -> (r: Self)
        ensures
            r@ == Map::<u128, OrderModel>::empty(),
    {
        let r = InMemoryOrderRepository { inner: HashMap::new() };
        assert(r@ =~= Map::<u128, OrderModel>::empty());
        r
    }

    /// Stores `order` under its id, replacing any order with that id.
    pub fn insert(&mut self, order: Order) -> (r: Order)
        ensures
            final(self)@ == old(self)@.insert(order.id.0, order@),
            r@ == order@,
    {
        let copy = copy_order(&order);
        self.inner.insert(order.id.0, copy);
        assert(self@ =~= old(self)@.insert(order.id.0, order@));
        order
    }

    pub fn get(&self, id: OrderId) -> (r: Option<Order>)
        ensures
            match r {
                Some(o) => self@.contains_key(id.0) && o@ == self@[id.0],
                None => !self@.contains_key(id.0),
            },
    {
        match self.inner.get(&id.0) {
            Some(o) => Some(copy_order(o)),
            None => None,
        }
    }

    /// Moves the order from `from` to `to` if it is in `from`, and returns
    /// the moved order; otherwise changes nothing and returns `None`.
    pub fn transition(&mut self, id: OrderId, from: OrderStatus, to: OrderStatus, reason: Option<String>) -> (r: Option<Order>)
        ensures
            ({
                let reason_model = opt_text(reason);
                let (after, moved) = transition_spec(old(self)@, id.0, from, to, reason_model);
                &&& final(self)@ == after
                &&& match moved {
                    Some(m) => r matches Some(o) && o@ == m,
                    None => r is None,
                }
            }),
    {
        let ghost reason_model = opt_text(reason);
        let current = match self.inner.get(&id.0) {
            Some(o) => copy_order(o),
            None => {
                return None;
            },
        };
        if current.status != from {
            return None;
        }
        let failure_reason = match reason {
            Some(r) => Some(r),
            None => current.failure_reason,
        };
        let moved = Order {
            id: current.id,
            user_id: current.user_id,
            lines: current.lines,
            total_cents: current.total_cents,
            status: to,
            failure_reason,
        };
        let stored = copy_order(&moved);
        self.inner.insert(id.0, stored);
        proof {
            assert(self@ =~= transition_spec(old(self)@, id.0, from, to, reason_model).0);
        }
        Some(moved)
    }
}

// --- The tracker ----------------------------------------------------------------

/// A fact the tracker hears about an order.
pub enum Fact {
    StockReserved,
    StockRejected(Seq<char>),
    PaymentCharged,
    PaymentDeclined(Seq<char>),
    StockReleased,
}

/// The one move a fact may cause: from which status, to which, with what
/// reason.
pub open spec fn fact_move(f: Fact) -> (OrderStatus, OrderStatus, Option<Seq<char>>) {
    match f {
        Fact::StockReserved => (OrderStatus::Pending, OrderStatus::AwaitingPayment, None),
        Fact::StockRejected(r) => (OrderStatus::Pending, OrderStatus::Failed, Some(r)),
        Fact::PaymentCharged => (OrderStatus::AwaitingPayment, OrderStatus::Confirmed, None),
        Fact::PaymentDeclined(r) => (OrderStatus::AwaitingPayment, OrderStatus::Compensating, Some(r)),
        Fact::StockReleased => (OrderStatus::Compensating, OrderStatus::Failed, None),
    }
}

/// What hearing `f` about order `id` does.
pub open spec fn hear_spec(orders: Map<u128, OrderModel>, id: u128, f: Fact) -> (Map<u128, OrderModel>, Option<OrderModel>) {
    let (from, to, reason) = fact_move(f);
    transition_spec(orders, id, from, to, reason)
}

/// Heard: inventory reserved stock. Pending becomes awaiting payment.
pub fn on_stock_reserved(repo: &mut InMemoryOrderRepository, order_id: u128) -> (r: Option<Order>)
    ensures
        final(repo)@ == hear_spec(old(repo)@, order_id, Fact::StockReserved).0,
        match hear_spec(old(repo)@, order_id, Fact::StockReserved).1 {
            Some(m) => r matches Some(o) && o@ == m,
            None => r is None,
        },
{
    repo.transition(OrderId(order_id), OrderStatus::Pending, OrderStatus::AwaitingPayment, None)
}

/// Heard: inventory could not reserve stock. Pending fails, with the reason.
pub fn on_stock_rejected(repo: &mut InMemoryOrderRepository, order_id: u128, reason: String) -> (r: Option<Order>)
    ensures
        final(repo)@ == hear_spec(old(repo)@, order_id, Fact::StockRejected(reason@)).0,
        match hear_spec(old(repo)@, order_id, Fact::StockRejected(reason@)).1 {
            Some(m) => r matches Some(o) && o@ == m,
            None => r is None,
        },
{
    repo.transition(OrderId(order_id), OrderStatus::Pending, OrderStatus::Failed, Some(reason))
}

/// Heard: the wallet was charged. Awaiting payment is confirmed.
pub fn on_payment_charged(repo: &mut InMemoryOrderRepository, order_id: u128) -> (r: Option<Order>)
    ensures
        final(repo)@ == hear_spec(old(repo)@, order_id, Fact::PaymentCharged).0,
        match hear_spec(old(repo)@, order_id, Fact::PaymentCharged).1 {
            Some(m) => r matches Some(o) && o@ == m,
            None => r is None,
        },
{
    repo.transition(OrderId(order_id), OrderStatus::AwaitingPayment, OrderStatus::Confirmed, None)
}

/// Heard: payment was declined. Awaiting payment starts compensating.
pub fn on_payment_declined(repo: &mut InMemoryOrderRepository, order_id: u128, reason: String) -> (r: Option<Order>)
    ensures
        final(repo)@ == hear_spec(old(repo)@, order_id, Fact::PaymentDeclined(reason@)).0,
        match hear_spec(old(repo)@, order_id, Fact::PaymentDeclined(reason@)).1 {
            Some(m) => r matches Some(o) && o@ == m,
            None => r is None,
        },
{
    repo.transition(OrderId(order_id), OrderStatus::AwaitingPayment, OrderStatus::Compensating, Some(reason))
}

/// Heard: the reserved stock went back. Compensating becomes failed; the
/// returned order carries the reason recorded when payment was declined.
pub fn on_stock_released(repo: &mut InMemoryOrderRepository, order_id: u128) -> (r: Option<Order>)
    ensures
        final(repo)@ == hear_spec(old(repo)@, order_id, Fact::StockReleased).0,
        match hear_spec(old(repo)@, order_id, Fact::StockReleased).1 {
            Some(m) => r matches Some(o) && o@ == m,
            None => r is None,
        },
{
    repo.transition(OrderId(order_id), OrderStatus::Compensating, OrderStatus::Failed, None)
}

/// How far along a status is: every move the tracker makes goes up.
pub open spec fn progress(s: OrderStatus) -> int {
    match s {
        OrderStatus::Pending => 0,
        OrderStatus::AwaitingPayment => 1,
        OrderStatus::Compensating => 2,
        OrderStatus::Confirmed => 3,
        OrderStatus::Failed => 3,
    }
}

pub open spec fn is_terminal(s: OrderStatus) -> bool {
    s == OrderStatus::Confirmed || s == OrderStatus::Failed
}

/// Law: the tracker only moves orders forward. Whatever fact arrives, an
/// order either stays as it was or moves to a status further along, and
/// nothing else in the repository changes.
pub proof fn law_tracker_only_moves_forward(orders: Map<u128, OrderModel>, id: u128, f: Fact)
    ensures
        ({
            let (after, moved) = hear_spec(orders, id, f);
            &&& forall|k: u128| k != id ==> (#[trigger] after.contains_key(k) <==> orders.contains_key(k))
                && (orders.contains_key(k) ==> after[k] == orders[k])
            &&& moved is None ==> after == orders
            &&& moved is Some ==> orders.contains_key(id) && after.contains_key(id)
                && progress(after[id].status) > progress(orders[id].status)
        }),
{
}

/// Law: a terminal order stays terminal. No fact, redelivered or late,
/// walks a confirmed or failed order back.
pub proof fn law_terminal_orders_stay_put(orders: Map<u128, OrderModel>, id: u128, f: Fact)
    requires
        orders.contains_key(id),
        is_terminal(orders[id].status),
    ensures
        hear_spec(orders, id, f).0 == orders,
        hear_spec(orders, id, f).1 is None,
{
}

/// Law: hearing the same fact twice is the same as hearing it once.
pub proof fn law_facts_are_idempotent(orders: Map<u128, OrderModel>, id: u128, f: Fact)
    ensures
        hear_spec(hear_spec(orders, id, f).0, id, f).0 == hear_spec(orders, id, f).0,
{
}

// --- The read model -----------------------------------------------------------

/// Orders' private copy of its neighbours' facts: which users exist, and
/// what each product costs now.
pub struct ReadModel {
    known_users: HashSet<u128>,
    product_prices: HashMap<u128, u64>,
}

impl ReadModel {
    pub closed spec fn users(&self) -> Set<u128> {
        self.known_users@
    }

    pub closed spec fn prices(&self) -> Map<u128, u64> {
        self.product_prices@
    }

    pub fn new() -> (r: Self)
        ensures
            r.users() == Set::<u128>::empty(),
            r.prices() == Map::<u128, u64>::empty(),
    {
        ReadModel { known_users: HashSet::new(), product_prices: HashMap::new() }
    }

    pub fn user_exists(&self, id: u128) -> (r: bool)
        ensures
            r == self.users().contains(id),
    {
        self.known_users.contains(&id)
    }

    pub fn price_of(&self, id: u128) -> (r: Option<u64>)
        ensures
            r == (if self.prices().contains_key(id) { Some(self.prices()[id]) } else { None::<u64> }),
    {
        match self.product_prices.get(&id) {
            Some(p) => Some(*p),
            None => None,
        }
    }

    pub fn record_user(&mut self, id: u128)
        ensures
            final(self).users() == old(self).users().insert(id),
            final(self).prices() == old(self).prices(),
    {
        self.known_users.insert(id);
    }

    pub fn record_price(&mut self, id: u128, price_cents: u64)
        ensures
            final(self).prices() == old(self).prices().insert(id, price_cents),
            final(self).users() == old(self).users(),
    {
        self.product_prices.insert(id, price_cents);
    }
}

// --- Wire shapes ------------------------------------------------------------

pub struct UserRegistered {
    pub id: u128,
}

impl UserRegistered {
    pub const SUBJECT: &'static str = "users.registered";
}

pub struct ProductCreated {
    pub id: u128,
    pub price_cents: u64,
}

impl ProductCreated {
    pub const SUBJECT: &'static str = "catalog.product_created";
}

pub struct ProductPriceChanged {
    pub id: u128,
    pub price_cents: u64,
}

impl ProductPriceChanged {
    pub const SUBJECT: &'static str = "catalog.product_price_changed";
}

#[derive(Debug, Clone, Copy)]
pub struct OrderPlacedLine {
    pub product_id: u128,
    pub quantity: u32,
}

/// "A customer placed this order", addressed to nobody in particular.
#[derive(Debug)]
pub struct OrderPlaced {
    pub id: u128,
    pub user_id: u128,
    pub total_cents: u64,
    pub lines: Vec<OrderPlacedLine>,
}

impl OrderPlaced {
    pub const SUBJECT: &'static str = "orders.placed";
}

pub struct StockReserved {
    pub order_id: u128,
}

impl StockReserved {
    pub const SUBJECT: &'static str = "inventory.stock_reserved";
}

pub struct StockRejected {
    pub order_id: u128,
    pub reason: String,
}

impl StockRejected {
    pub const SUBJECT: &'static str = "inventory.stock_rejected";
}

pub struct StockReleased {
    pub order_id: u128,
}

impl StockReleased {
    pub const SUBJECT: &'static str = "inventory.stock_released";
}

pub struct PaymentCharged {
    pub order_id: u128,
}

impl PaymentCharged {
    pub const SUBJECT: &'static str = "payments.charged";
}

pub struct PaymentDeclined {
    pub order_id: u128,
    pub reason: String,
}

impl PaymentDeclined {
    pub const SUBJECT: &'static str = "payments.declined";
}


/// Law: the order lifecycle. A pending order becomes awaiting payment when
/// its stock is reserved and fails, with inventory's reason, when it is
/// not; an order awaiting payment is confirmed when charged and starts
/// compensating, with the decline's reason, when declined; a compensating
/// order fails once its stock is back, keeping the decline's reason. The
/// rest of the order is left as it was.
pub proof fn law_order_lifecycle(orders: Map<u128, OrderModel>, id: u128, f: Fact)
    requires
        orders.contains_key(id),
    ensures
        ({
            let o = orders[id];
            let (after, moved) = hear_spec(orders, id, f);
            let n = after[id];
            &&& after.contains_key(id)
            &&& n.id == o.id && n.user_id == o.user_id && n.lines == o.lines && n.total_cents == o.total_cents
            &&& (o.status == OrderStatus::Pending && f is StockReserved) ==> n.status == OrderStatus::AwaitingPayment
                && n.failure_reason == o.failure_reason
            &&& f matches Fact::StockRejected(r) ==> (o.status == OrderStatus::Pending ==> n.status == OrderStatus::Failed
                && n.failure_reason == Some(r))
            &&& (o.status == OrderStatus::AwaitingPayment && f is PaymentCharged) ==> n.status == OrderStatus::Confirmed
            &&& f matches Fact::PaymentDeclined(r) ==> (o.status == OrderStatus::AwaitingPayment
                ==> n.status == OrderStatus::Compensating && n.failure_reason == Some(r))
            &&& (o.status == OrderStatus::Compensating && f is StockReleased) ==> n.status == OrderStatus::Failed
                && n.failure_reason == o.failure_reason
            &&& moved is Some <==> n.status != o.status
        }),
{
}

} // verus!
