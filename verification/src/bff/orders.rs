//! The orders backend behind the gateways: its domain and its private store.
//!
//! Orders keeps only the ids of the user and products an order refers to;
//! those entities belong to other services.

use vstd::prelude::*;
use crate::table::IdTable;
use crate::text::new_v4_id;

verus! {

#[derive(Debug, Clone, Copy, PartialEq, Eq, Hash)]
pub struct UserId(pub u128);

#[derive(Debug, Clone, Copy, PartialEq, Eq, Hash)]
pub struct ProductId(pub u128);

#[derive(Debug, Clone, Copy, PartialEq, Eq, Hash)]
pub struct OrderId(pub u128);

impl OrderId {
    /// A fresh random order id.
    pub fn new() -> (id: Self)
        ensures
            (id.0 >> 76u128) & 0xfu128 == 4u128,
            (id.0 >> 62u128) & 0x3u128 == 2u128,
    {
        OrderId(new_v4_id())
    }
}

#[derive(Debug, Clone, Copy)]
pub struct OrderLine {
    pub product_id: ProductId,
    pub quantity: u32,
    /// Price captured at the time the order was placed.
    pub unit_price_cents: u64,
}

#[derive(Debug)]
pub struct Order {
    pub id: OrderId,
    pub user_id: UserId,
    pub lines: Vec<OrderLine>,
    pub total_cents: u64,
}

/// An order, read as values.
pub struct OrderModel {
    pub id: u128,
    pub user_id: u128,
    pub lines: Seq<OrderLine>,
    pub total_cents: u64,
}

impl View for Order {
    type V = OrderModel;

    open spec fn view(&self) -> OrderModel {
        OrderModel { id: self.id.0, user_id: self.user_id.0, lines: self.lines@, total_cents: self.total_cents }
    }
}

fn copy_order(o: &Order) -> (r: Order)
    ensures
        r@ == o@,
{
    let mut lines: Vec<OrderLine> = Vec::new();
    let mut i: usize = 0;
    while i < o.lines.len()
        invariant
            i <= o.lines@.len(),
            lines@ == o.lines@.take(i as int),
        decreases o.lines@.len() - i,
    {
        lines.push(o.lines[i]);
        assert(lines@ =~= o.lines@.take(i + 1));
        i = i + 1;
    }
    assert(o.lines@.take(o.lines@.len() as int) =~= o.lines@);
    Order { id: o.id, user_id: o.user_id, lines, total_cents: o.total_cents }
}

/// Whether `list` is exactly the orders in `orders`: each stored, each id
/// once, none missing.
pub open spec fn lists_all(orders: Map<u128, OrderModel>, list: Seq<Order>) -> bool {
    &&& forall|i: int| 0 <= i < list.len() ==> orders.contains_key(#[trigger] list[i].id.0) && orders[list[i].id.0] == list[i]@
    &&& forall|i: int, j: int| 0 <= i < list.len() && 0 <= j < list.len() && i != j ==> list[i].id.0 != list[j].id.0
    &&& forall|k: u128| #[trigger] orders.contains_key(k) ==> exists|i: int| 0 <= i < list.len() && list[i].id.0 == k
}

/// The orders this service owns, by id.
pub struct InMemoryOrderRepository {
    inner: IdTable<Order>,
}

impl View for InMemoryOrderRepository {
    type V = Map<u128, OrderModel>;

    closed spec fn view(&self) -> Map<u128, OrderModel> {
        self.inner@.map_values(|o: Order| o@)
    }
}

impl InMemoryOrderRepository {
    /// Each order is stored under its own id.
    #[verifier::type_invariant]
    spec fn keyed_by_id(self) -> bool {
        forall|k: u128| #[trigger] self.inner@.contains_key(k) ==> self.inner@[k].id.0 == k
    }

    pub fn new() -> (r: Self)
        ensures
            r@ == Map::<u128, OrderModel>::empty(),
    {
        let r = InMemoryOrderRepository { inner: IdTable::new() };
        assert(r@ =~= Map::<u128, OrderModel>::empty());
        r
    }

    /// Stores `order` under its id, replacing any order with that id, and
    /// hands it back.
    pub fn insert(&mut self, order: Order) -> (r: Order)
        ensures
            final(self)@ == old(self)@.insert(order.id.0, order@),
            r@ == order@,
    {
        proof { use_type_invariant(&*self); }
        let stored = copy_order(&order);
        let mut table: IdTable<Order> = IdTable::new();
        std::mem::swap(&mut table, &mut self.inner);
        table.put(order.id.0, stored);
        self.inner = table;
        assert(self@ =~= old(self)@.insert(order.id.0, order@));
        order
    }

    pub fn get(&self, id: OrderId) -> (r: Option<Order>)
        ensures
            match r {
                Some(o) => self@.contains_key(id.0) && o@ == self@[id.0],
                None => !self@.contains_key(id.0),
            },
    {
        match self.inner.get(id.0) {
            Some(o) => Some(copy_order(o)),
            None => None,
        }
    }

    /// Every stored order, each once.
    pub fn all(&self) -> (r: Vec<Order>)
        ensures
            lists_all(self@, r@),
    {
        proof { use_type_invariant(self); }
        let n = self.inner.len();
        let mut out: Vec<Order> = Vec::new();
        let mut i: usize = 0;
        while i < n
            invariant
                n == self.inner.records().len(),
                i <= n,
                out@.len() == i,
                self.inner.ids().len() == n,
                self.inner.ids().no_duplicates(),
                forall|j: int| 0 <= j < n ==> self.inner@.contains_key(#[trigger] self.inner.ids()[j])
                    && self.inner@[self.inner.ids()[j]] == self.inner.records()[j],
                forall|k: u128| #[trigger] self.inner@.contains_key(k) ==> self.inner.ids().contains(k),
                forall|k: u128| #[trigger] self.inner@.contains_key(k) ==> self.inner@[k].id.0 == k,
                forall|j: int| 0 <= j < i ==> (#[trigger] out@[j])@ == self.inner.records()[j]@
                    && out@[j].id.0 == self.inner.ids()[j],
            decreases n - i,
        {
            let o = self.inner.at(i);
            proof {
                let k = self.inner.ids()[i as int];
                assert(self.inner@[k] == *o);
            }
            out.push(copy_order(o));
            i = i + 1;
        }
        proof {
            assert forall|k: u128| #[trigger] self@.contains_key(k) implies exists|j: int| 0 <= j < out@.len() && out@[j].id.0 == k by {
                let j = choose|j: int| 0 <= j < self.inner.ids().len() && self.inner.ids()[j] == k;
                assert(out@[j].id.0 == k);
            }
            assert forall|j: int| 0 <= j < out@.len() implies self@.contains_key(#[trigger] out@[j].id.0) && self@[out@[j].id.0] == out@[j]@ by {
                let k = self.inner.ids()[j];
                assert(self.inner@[k] == self.inner.records()[j]);
            }
        }
        out
    }
}

} // verus!
