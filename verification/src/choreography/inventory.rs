//! Inventory: reserves an order's stock when the order is placed, and puts
//! it back when the order's payment is declined. An idempotency ledger
//! keyed by order remembers every outcome, release included, so a fact
//! delivered twice, or late, never moves stock twice.

use vstd::prelude::*;
use std::collections::HashMap;
use crate::text::{decimal, decimal_text, uuid_hyphenated, uuid_text};

verus! {

broadcast use vstd::std_specs::hash::group_hash_axioms;

/// A product, known to this service only by its id.
#[derive(Debug, Clone, Copy, PartialEq, Eq, Hash)]
pub struct ProductId(pub u128);

/// What happened to an order's reservation.
#[derive(Debug)]
pub enum ReservationOutcome {
    Reserved(Vec<(ProductId, u32)>),
    Rejected(String),
    /// Reserved once, then released as compensation. Terminal.
    AlreadyReleased,
}

/// A reservation outcome, read as values.
pub enum OutcomeModel {
    Reserved(Seq<(u128, u32)>),
    Rejected(Seq<char>),
    AlreadyReleased,
}

/// Order lines as (product, quantity) values.
pub open spec fn lines_model(lines: Seq<(ProductId, u32)>) -> Seq<(u128, u32)> {
    lines.map_values(|l: (ProductId, u32)| (l.0.0, l.1))
}

impl View for ReservationOutcome {
    type V = OutcomeModel;

    open spec fn view(&self) -> OutcomeModel {
        match self {
            ReservationOutcome::Reserved(lines) => OutcomeModel::Reserved(lines_model(lines@)),
            ReservationOutcome::Rejected(reason) => OutcomeModel::Rejected(reason@),
            ReservationOutcome::AlreadyReleased => OutcomeModel::AlreadyReleased,
        }
    }
}

/// The stock of `p`, counting an unknown product as none.
pub open spec fn stock_of(stock: Map<u128, u32>, p: u128) -> int {
    if stock.contains_key(p) { stock[p] as int } else { 0 }
}

/// The total quantity `lines` ask of product `p`.
pub open spec fn total_of(lines: Seq<(u128, u32)>, p: u128) -> int
    decreases lines.len(),
{
    if lines.len() == 0 {
        0
    } else {
        total_of(lines.drop_last(), p) + if lines.last().0 == p { lines.last().1 as int } else { 0 }
    }
}

/// Whether product `p` appears in `lines`.
pub open spec fn mentions(lines: Seq<(u128, u32)>, p: u128) -> bool {
    exists|i: int| 0 <= i < lines.len() && #[trigger] lines[i].0 == p
}

/// The first line whose product has less stock than the line asks for.
pub open spec fn first_short(stock: Map<u128, u32>, lines: Seq<(u128, u32)>) -> Option<int> {
    if exists|i: int| 0 <= i < lines.len() && stock_of(stock, #[trigger] lines[i].0) < lines[i].1 {
        Some(choose|i: int| 0 <= i < lines.len() && stock_of(stock, #[trigger] lines[i].0) < lines[i].1
            && forall|j: int| 0 <= j < i ==> stock_of(stock, #[trigger] lines[j].0) >= lines[j].1)
    } else {
        None
    }
}

/// The first line whose product the lines, taken together, ask more of
/// than it has.
pub open spec fn first_over(stock: Map<u128, u32>, lines: Seq<(u128, u32)>) -> Option<int> {
    if exists|i: int| 0 <= i < lines.len() && total_of(lines, #[trigger] lines[i].0) > stock_of(stock, lines[i].0) {
        Some(choose|i: int| 0 <= i < lines.len() && total_of(lines, #[trigger] lines[i].0) > stock_of(stock, lines[i].0)
            && forall|j: int| 0 <= j < i ==> total_of(lines, #[trigger] lines[j].0) <= stock_of(stock, lines[j].0))
    } else {
        None
    }
}

/// Whether the stock covers what `lines`, summed per product, ask of it.
pub open spec fn covers(stock: Map<u128, u32>, lines: Seq<(u128, u32)>) -> bool {
    forall|p: u128| #[trigger] total_of(lines, p) <= stock_of(stock, p)
}

/// `stock` with every product of `lines` reduced by what the lines ask of it.
pub open spec fn taken(stock: Map<u128, u32>, lines: Seq<(u128, u32)>) -> Map<u128, u32> {
    Map::new(
        |p: u128| stock.contains_key(p) || mentions(lines, p),
        |p: u128| (stock_of(stock, p) - total_of(lines, p)) as u32,
    )
}

/// `stock` with every product of `lines` increased by what the lines ask of it.
pub open spec fn given_back(stock: Map<u128, u32>, lines: Seq<(u128, u32)>) -> Map<u128, u32> {
    Map::new(
        |p: u128| stock.contains_key(p) || mentions(lines, p),
        |p: u128| (stock_of(stock, p) + total_of(lines, p)) as u32,
    )
}

/// The reason a reservation is rejected at a short line.
pub open spec fn rejection_reason(available: u32, product: u128, requested: nat) -> Seq<char> {
    "only "@ + decimal(available as nat) + " unit(s) of "@ + uuid_hyphenated(product) + " available, "@
        + decimal(requested as nat) + " requested"@
}

#[verifier::ext_equal]
/// The inventory's state: stock per product, and the ledger of outcomes
/// per order.
pub struct InventoryState {
    pub stock: Map<u128, u32>,
    pub ledger: Map<u128, OutcomeModel>,
}

/// What reserving `lines` for `order` does to `s`, and what it answers.
pub open spec fn reserve_spec(s: InventoryState, order: u128, lines: Seq<(u128, u32)>) -> (InventoryState, OutcomeModel) {
    if s.ledger.contains_key(order) {
        (s, s.ledger[order])
    } else {
        match first_short(s.stock, lines) {
            Some(i) => {
                let out = OutcomeModel::Rejected(
                    rejection_reason(stock_of(s.stock, lines[i].0) as u32, lines[i].0, lines[i].1 as nat),
                );
                (InventoryState { stock: s.stock, ledger: s.ledger.insert(order, out) }, out)
            },
            None => match first_over(s.stock, lines) {
                Some(i) => {
                    let out = OutcomeModel::Rejected(
                        rejection_reason(stock_of(s.stock, lines[i].0) as u32, lines[i].0,
                            total_of(lines, lines[i].0) as nat),
                    );
                    (InventoryState { stock: s.stock, ledger: s.ledger.insert(order, out) }, out)
                },
                None => {
                    let out = OutcomeModel::Reserved(lines);
                    (InventoryState { stock: taken(s.stock, lines), ledger: s.ledger.insert(order, out) }, out)
                },
            },
        }
    }
}

/// What releasing `order` does to `s`: stock reserved for it goes back, and
/// the ledger remembers the release. Otherwise nothing changes.
pub open spec fn release_spec(s: InventoryState, order: u128) -> InventoryState {
    if s.ledger.contains_key(order) && s.ledger[order] is Reserved {
        InventoryState {
            stock: given_back(s.stock, s.ledger[order]->Reserved_0),
            ledger: s.ledger.insert(order, OutcomeModel::AlreadyReleased),
        }
    } else {
        s
    }
}

/// Whether releasing `order` on `s` stays within what a `u32` stock count
/// can hold.
pub open spec fn release_within_bounds(s: InventoryState, order: u128) -> bool {
    s.ledger.contains_key(order) && s.ledger[order] is Reserved ==> forall|p: u128|
        stock_of(s.stock, p) + #[trigger] total_of(s.ledger[order]->Reserved_0, p) <= u32::MAX
}

/// The inventory's storage: stock counts and the reservation ledger.
pub struct InMemoryInventoryRepository {
    stock: HashMap<u128, u32>,
    reservations: HashMap<u128, ReservationOutcome>,
}

impl View for InMemoryInventoryRepository {
    type V = InventoryState;

    closed spec fn view(&self) -> InventoryState {
        InventoryState {
            stock: self.stock@,
            ledger: self.reservations@.map_values(|o: ReservationOutcome| o@),
        }
    }
}

proof fn lemma_total_of_push(lines: Seq<(u128, u32)>, i: int, p: u128)
    requires
        0 <= i < lines.len(),
    ensures
        total_of(lines.take(i + 1), p) == total_of(lines.take(i), p) + if lines[i].0 == p { lines[i].1 as int } else { 0 },
{
    assert(lines.take(i + 1).drop_last() =~= lines.take(i));
}

proof fn lemma_total_of_nonneg_prefix(lines: Seq<(u128, u32)>, i: int, p: u128)
    requires
        0 <= i <= lines.len(),
    ensures
        0 <= total_of(lines.take(i), p) <= total_of(lines, p),
    decreases lines.len() - i,
{
    if i == lines.len() {
        assert(lines.take(i) =~= lines);
        lemma_total_of_nonneg(lines, p);
    } else {
        lemma_total_of_nonneg_prefix(lines, i + 1, p);
        lemma_total_of_push(lines, i, p);
        lemma_total_of_nonneg(lines.take(i), p);
    }
}

proof fn lemma_total_of_nonneg(lines: Seq<(u128, u32)>, p: u128)
    ensures
        0 <= total_of(lines, p),
    decreases lines.len(),
{
    if lines.len() > 0 {
        lemma_total_of_nonneg(lines.drop_last(), p);
    }
}

proof fn lemma_total_of_unmentioned(lines: Seq<(u128, u32)>, p: u128)
    requires
        !mentions(lines, p),
    ensures
        total_of(lines, p) == 0,
    decreases lines.len(),
{
    if lines.len() > 0 {
        assert(!mentions(lines.drop_last(), p)) by {
            if mentions(lines.drop_last(), p) {
                let i = choose|i: int| 0 <= i < lines.drop_last().len() && #[trigger] lines.drop_last()[i].0 == p;
                assert(lines[i].0 == p);
            }
        }
        lemma_total_of_unmentioned(lines.drop_last(), p);
        assert(lines[lines.len() - 1].0 != p);
    }
}

fn copy_lines(lines: &Vec<(ProductId, u32)>) -> (r: Vec<(ProductId, u32)>)
    ensures
        r@ == lines@,
{
    let mut r: Vec<(ProductId, u32)> = Vec::new();
    let mut i: usize = 0;
    while i < lines.len()
        invariant
            i <= lines@.len(),
            r@ == lines@.take(i as int),
        decreases lines@.len() - i,
    {
        let (p, q) = lines[i];
        r.push((ProductId(p.0), q));
        assert(r@ =~= lines@.take(i + 1));
        i = i + 1;
    }
    assert(lines@.take(lines@.len() as int) =~= lines@);
    r
}

fn copy_outcome(o: &ReservationOutcome) -> (r: ReservationOutcome)
    ensures
        r@ == o@,
{
    match o {
        ReservationOutcome::Reserved(lines) => ReservationOutcome::Reserved(copy_lines(lines)),
        ReservationOutcome::Rejected(reason) => ReservationOutcome::Rejected(reason.clone()),
        ReservationOutcome::AlreadyReleased => ReservationOutcome::AlreadyReleased,
    }
}

fn stock_get(stock: &HashMap<u128, u32>, p: u128) -> (n: u32)
    ensures
        n == stock_of(stock@, p),
{
    match stock.get(&p) {
        Some(n) => *n,
        None => 0,
    }
}

fn reason_text(available: u32, product: u128, requested: u128) -> (r: String)
    ensures
        r@ == rejection_reason(available, product, requested as nat),
{
    let mut r = String::from_str("only ");
    r.append(decimal_text(available as u128).as_str());
    r.append(" unit(s) of ");
    r.append(uuid_text(product).as_str());
    r.append(" available, ");
    r.append(decimal_text(requested).as_str());
    r.append(" requested");
    r
}

impl InMemoryInventoryRepository {
    /// No stock, no reservations.
    pub fn new() -> (r: Self)
        ensures
            r@.stock == Map::<u128, u32>::empty(),
            r@.ledger == Map::<u128, OutcomeModel>::empty(),
    {
        let r = InMemoryInventoryRepository { stock: HashMap::new(), reservations: HashMap::new() };
        assert(r@.ledger =~= Map::<u128, OutcomeModel>::empty());
        r
    }

    /// Sets `product`'s stock to `initial_units`.
    pub fn seed(&mut self, product_id: ProductId, initial_units: u32)
        ensures
            final(self)@.stock == old(self)@.stock.insert(product_id.0, initial_units),
            final(self)@.ledger == old(self)@.ledger,
    {
        self.stock.insert(product_id.0, initial_units);
    }

    /// The stock of `product`, if it was ever seeded.
    pub fn available(&self, product_id: ProductId) -> (r: Option<u32>)
        ensures
            r == (if self@.stock.contains_key(product_id.0) { Some(self@.stock[product_id.0]) } else { None::<u32> }),
    {
        match self.stock.get(&product_id.0) {
            Some(n) => Some(*n),
            None => None,
        }
    }

    /// Reserves `lines` for `order_id`, all of them or none: the order is
    /// rejected when one of its lines, or the lines for one product taken
    /// together, ask for more than the product has. An order seen before
    /// gets its recorded outcome back and moves no stock.
    pub fn reserve(&mut self, order_id: u128, lines: Vec<(ProductId, u32)>) -> (r: ReservationOutcome)
        ensures
            (final(self)@, r@) == reserve_spec(old(self)@, order_id, lines_model(lines@)),
    {
        let ghost s0 = self@;
        let ghost lm = lines_model(lines@);
        match self.reservations.get(&order_id) {
            Some(existing) => {
                return copy_outcome(existing);
            },
            None => {},
        }
        let n = lines.len();
        let mut i: usize = 0;
        while i < n
            invariant
                n == lines@.len(),
                lm == lines_model(lines@),
                i <= n,
                self@ == s0,
                s0 == old(self)@,
                !s0.ledger.contains_key(order_id),
                forall|j: int| 0 <= j < i ==> stock_of(s0.stock, #[trigger] lm[j].0) >= lm[j].1,
            decreases n - i,
        {
            let (p, q) = lines[i];
            let available = stock_get(&self.stock, p.0);
            if available < q {
                proof {
                    lemma_first_short_is(s0.stock, lm, i as int);
                }
                let reason = reason_text(available, p.0, q as u128);
                let outcome = ReservationOutcome::Rejected(reason);
                let recorded = copy_outcome(&outcome);
                self.reservations.insert(order_id, recorded);
                proof {
                    assert(lm[i as int] == (p.0, q));
                    assert(self@ =~= reserve_spec(s0, order_id, lm).0);
                    assert(available == stock_of(s0.stock, lm[i as int].0) as u32);
                    assert(outcome@ == reserve_spec(s0, order_id, lm).1);
                }
                return outcome;
            }
            i = i + 1;
        }
        proof {
            assert(first_short(s0.stock, lm) is None) by {
                if exists|k: int| 0 <= k < lm.len() && stock_of(s0.stock, #[trigger] lm[k].0) < lm[k].1 {
                    let k = choose|k: int| 0 <= k < lm.len() && stock_of(s0.stock, #[trigger] lm[k].0) < lm[k].1;
                    assert(stock_of(s0.stock, lm[k].0) >= lm[k].1);
                }
            }
        }
        let mut i: usize = 0;
        while i < n
            invariant
                n == lines@.len(),
                lm == lines_model(lines@),
                i <= n,
                self@ == s0,
                s0 == old(self)@,
                !s0.ledger.contains_key(order_id),
                first_short(s0.stock, lm) is None,
                forall|j: int| 0 <= j < i ==> total_of(lm, #[trigger] lm[j].0) <= stock_of(s0.stock, lm[j].0),
            decreases n - i,
        {
            let (p, _q) = lines[i];
            let available = stock_get(&self.stock, p.0);
            let need = total_need(&lines, p.0);
            if need > available as u128 {
                proof {
                    lemma_first_over_is(s0.stock, lm, i as int);
                }
                let reason = reason_text(available, p.0, need);
                let outcome = ReservationOutcome::Rejected(reason);
                let recorded = copy_outcome(&outcome);
                self.reservations.insert(order_id, recorded);
                proof {
                    assert(lm[i as int].0 == p.0);
                    assert(self@ =~= reserve_spec(s0, order_id, lm).0);
                    assert(outcome@ == reserve_spec(s0, order_id, lm).1);
                }
                return outcome;
            }
            i = i + 1;
        }
        proof {
            lemma_fits_everywhere(s0.stock, lm);
            assert(taken(s0.stock, lm.take(0)) =~= s0.stock) by {
                assert forall|p: u128| !mentions(lm.take(0), p) by {}
            }
        }
        let mut i: usize = 0;
        while i < n
            invariant
                n == lines@.len(),
                lm == lines_model(lines@),
                i <= n,
                self.stock@ == taken(s0.stock, lm.take(i as int)),
                self@.ledger == s0.ledger,
                s0 == old(self)@,
                !s0.ledger.contains_key(order_id),
                forall|p: u128| #[trigger] total_of(lm, p) <= stock_of(s0.stock, p),
            decreases n - i,
        {
            let (p, q) = lines[i];
            let cur = stock_get(&self.stock, p.0);
            proof {
                lemma_total_of_nonneg_prefix(lm, i as int + 1, p.0);
                lemma_total_of_push(lm, i as int, p.0);
                assert forall|p2: u128| 0 <= #[trigger] total_of(lm.take(i as int), p2) <= stock_of(s0.stock, p2) by {
                    lemma_total_of_nonneg_prefix(lm, i as int, p2);
                }
                lemma_taken_step(s0.stock, lm, i as int);
            }
            self.stock.insert(p.0, cur - q);
            i = i + 1;
        }
        proof {
            assert(lm.take(n as int) =~= lm);
        }
        let recorded = ReservationOutcome::Reserved(copy_lines(&lines));
        self.reservations.insert(order_id, recorded);
        let outcome = ReservationOutcome::Reserved(lines);
        proof {
            assert(self@ =~= reserve_spec(s0, order_id, lm).0);
        }
        outcome
    }

    /// Puts back whatever was reserved for `order_id`, and records the
    /// release. A no-op for an order never reserved, rejected, or already
    /// released.
    pub fn release(&mut self, order_id: u128)
        requires
            release_within_bounds(old(self)@, order_id),
        ensures
            final(self)@ == release_spec(old(self)@, order_id),
    {
        let ghost s0 = self@;
        let lines = match self.reservations.get(&order_id) {
            Some(ReservationOutcome::Reserved(lines)) => copy_lines(lines),
            _ => {
                return;
            },
        };
        let ghost lm = lines_model(lines@);
        assert(s0.ledger[order_id] == OutcomeModel::Reserved(lm));
        assert(s0.ledger[order_id]->Reserved_0 == lm);
        assert forall|p: u128| stock_of(s0.stock, p) + #[trigger] total_of(lm, p) <= u32::MAX by {
            assert(stock_of(s0.stock, p) + total_of(s0.ledger[order_id]->Reserved_0, p) <= u32::MAX);
        }
        proof {
            assert(given_back(s0.stock, lm.take(0)) =~= s0.stock) by {
                assert forall|p: u128| !mentions(lm.take(0), p) by {}
            }
        }
        let n = lines.len();
        let mut i: usize = 0;
        while i < n
            invariant
                n == lines@.len(),
                lm == lines_model(lines@),
                i <= n,
                self.stock@ == given_back(s0.stock, lm.take(i as int)),
                self@.ledger == s0.ledger,
                s0 == old(self)@,
                s0.ledger[order_id] == OutcomeModel::Reserved(lm),
                s0.ledger.contains_key(order_id),
                forall|p: u128| stock_of(s0.stock, p) + #[trigger] total_of(lm, p) <= u32::MAX,
            decreases n - i,
        {
            let (p, q) = lines[i];
            let cur = stock_get(&self.stock, p.0);
            proof {
                lemma_total_of_nonneg_prefix(lm, i as int + 1, p.0);
                lemma_total_of_push(lm, i as int, p.0);
                assert forall|p2: u128| 0 <= #[trigger] total_of(lm.take(i as int), p2) && stock_of(s0.stock, p2) + total_of(lm.take(i as int), p2) <= u32::MAX by {
                    lemma_total_of_nonneg_prefix(lm, i as int, p2);
                }
                lemma_given_back_step(s0.stock, lm, i as int);
            }
            self.stock.insert(p.0, cur + q);
            i = i + 1;
        }
        proof {
            assert(lm.take(n as int) =~= lm);
        }
        self.reservations.insert(order_id, ReservationOutcome::AlreadyReleased);
        proof {
            assert(self@ =~= release_spec(s0, order_id));
        }
    }

    /// Whether `release(order_id)` stays within what a stock count can hold:
    /// false exactly when it would take some product past `u32::MAX`.
    pub fn release_fits(&self, order_id: u128) -> (r: bool)
        ensures
            r == release_within_bounds(self@, order_id),
    {
        let lines = match self.reservations.get(&order_id) {
            Some(ReservationOutcome::Reserved(lines)) => lines,
            _ => {
                return true;
            },
        };
        let ghost lm = lines_model(lines@);
        assert(self@.ledger[order_id] == OutcomeModel::Reserved(lm));
        let n = lines.len();
        let mut i: usize = 0;
        while i < n
            invariant
                n == lines@.len(),
                lm == lines_model(lines@),
                i <= n,
                forall|j: int| 0 <= j < i ==> stock_of(self@.stock, #[trigger] lm[j].0) + total_of(lm, lm[j].0) <= u32::MAX,
                self@.ledger.contains_key(order_id),
                self@.ledger[order_id] == OutcomeModel::Reserved(lm),
            decreases n - i,
        {
            let (p, _q) = lines[i];
            let cap = (u32::MAX - stock_get(&self.stock, p.0)) as u64;
            match total_within(lines, p.0, cap) {
                None => {
                    assert(!(stock_of(self@.stock, p.0) + total_of(self@.ledger[order_id]->Reserved_0, p.0) <= u32::MAX));
                    return false;
                },
                Some(_) => {},
            }
            i = i + 1;
        }
        proof {
            assert forall|p: u128| stock_of(self@.stock, p) + #[trigger] total_of(lm, p) <= u32::MAX by {
                if mentions(lm, p) {
                    let j = choose|j: int| 0 <= j < lm.len() && #[trigger] lm[j].0 == p;
                    assert(stock_of(self@.stock, lm[j].0) + total_of(lm, lm[j].0) <= u32::MAX);
                } else {
                    lemma_total_of_unmentioned(lm, p);
                }
            }
        }
        true
    }
}

proof fn lemma_first_over_is(stock: Map<u128, u32>, lm: Seq<(u128, u32)>, i: int)
    requires
        0 <= i < lm.len(),
        total_of(lm, lm[i].0) > stock_of(stock, lm[i].0),
        forall|j: int| 0 <= j < i ==> total_of(lm, #[trigger] lm[j].0) <= stock_of(stock, lm[j].0),
    ensures
        first_over(stock, lm) == Some(i),
{
    let k = choose|k: int| 0 <= k < lm.len() && total_of(lm, #[trigger] lm[k].0) > stock_of(stock, lm[k].0)
        && forall|j: int| 0 <= j < k ==> total_of(lm, #[trigger] lm[j].0) <= stock_of(stock, lm[j].0);
    assert(0 <= k < lm.len() && total_of(lm, lm[k].0) > stock_of(stock, lm[k].0)
        && forall|j: int| 0 <= j < k ==> total_of(lm, #[trigger] lm[j].0) <= stock_of(stock, lm[j].0));
    if k < i {
        assert(total_of(lm, lm[k].0) <= stock_of(stock, lm[k].0));
    }
    if k > i {
        assert(total_of(lm, lm[i].0) <= stock_of(stock, lm[i].0));
    }
}

/// Every line's product fitting in total means every product fits.
proof fn lemma_fits_everywhere(stock: Map<u128, u32>, lm: Seq<(u128, u32)>)
    requires
        forall|j: int| 0 <= j < lm.len() ==> total_of(lm, #[trigger] lm[j].0) <= stock_of(stock, lm[j].0),
    ensures
        covers(stock, lm),
        first_over(stock, lm) is None,
{
    assert forall|p: u128| #[trigger] total_of(lm, p) <= stock_of(stock, p) by {
        if mentions(lm, p) {
            let j = choose|j: int| 0 <= j < lm.len() && #[trigger] lm[j].0 == p;
            assert(total_of(lm, lm[j].0) <= stock_of(stock, lm[j].0));
        } else {
            lemma_total_of_unmentioned(lm, p);
        }
    }
}

/// A line asks for no more than all the lines for its product together.
proof fn lemma_line_within_total(lm: Seq<(u128, u32)>, i: int)
    requires
        0 <= i < lm.len(),
    ensures
        lm[i].1 <= total_of(lm, lm[i].0),
    decreases lm.len(),
{
    if i == lm.len() - 1 {
        lemma_total_of_nonneg(lm.drop_last(), lm[i].0);
    } else {
        lemma_line_within_total(lm.drop_last(), i);
        assert(lm.drop_last()[i] == lm[i]);
        lemma_total_of_nonneg(lm.drop_last(), lm[i].0);
    }
}

/// The total quantity `lines` ask of `p`.
fn total_need(lines: &Vec<(ProductId, u32)>, p: u128) -> (t: u128)
    ensures
        t == total_of(lines_model(lines@), p),
{
    let ghost lm = lines_model(lines@);
    let n = lines.len();
    let mut acc: u128 = 0;
    let mut j: usize = 0;
    while j < n
        invariant
            n == lines@.len(),
            lm == lines_model(lines@),
            j <= n,
            acc == total_of(lm.take(j as int), p),
            acc <= j * 0xffff_ffffu128,
        decreases n - j,
    {
        let (q_p, q) = lines[j];
        proof { lemma_total_of_push(lm, j as int, p); }
        assert(j * 0xffff_ffffu128 + 0xffff_ffffu128 <= 0xffff_ffff_ffff_ffffu128 * 0xffff_ffffu128 + 0xffff_ffffu128);
        if q_p.0 == p {
            acc = acc + q as u128;
        }
        j = j + 1;
    }
    proof { assert(lm.take(n as int) =~= lm); }
    acc
}

proof fn lemma_first_short_is(stock: Map<u128, u32>, lm: Seq<(u128, u32)>, i: int)
    requires
        0 <= i < lm.len(),
        stock_of(stock, lm[i].0) < lm[i].1,
        forall|j: int| 0 <= j < i ==> stock_of(stock, #[trigger] lm[j].0) >= lm[j].1,
    ensures
        first_short(stock, lm) == Some(i),
{
    let k = choose|k: int| 0 <= k < lm.len() && stock_of(stock, #[trigger] lm[k].0) < lm[k].1
        && forall|j: int| 0 <= j < k ==> stock_of(stock, #[trigger] lm[j].0) >= lm[j].1;
    assert(0 <= k < lm.len() && stock_of(stock, lm[k].0) < lm[k].1
        && forall|j: int| 0 <= j < k ==> stock_of(stock, #[trigger] lm[j].0) >= lm[j].1);
    if k < i {
        assert(stock_of(stock, lm[k].0) >= lm[k].1);
    }
    if k > i {
        assert(stock_of(stock, lm[i].0) >= lm[i].1);
    }
}

proof fn lemma_mentions_push(lm: Seq<(u128, u32)>, i: int, p: u128)
    requires
        0 <= i < lm.len(),
    ensures
        mentions(lm.take(i + 1), p) <==> (mentions(lm.take(i), p) || lm[i].0 == p),
{
    if mentions(lm.take(i + 1), p) {
        let j = choose|j: int| 0 <= j < lm.take(i + 1).len() && #[trigger] lm.take(i + 1)[j].0 == p;
        if j < i {
            assert(lm.take(i)[j].0 == p);
        }
    }
    if mentions(lm.take(i), p) {
        let j = choose|j: int| 0 <= j < lm.take(i).len() && #[trigger] lm.take(i)[j].0 == p;
        assert(lm.take(i + 1)[j].0 == p);
    }
    if lm[i].0 == p {
        assert(lm.take(i + 1)[i].0 == p);
    }
}

proof fn lemma_taken_step(stock: Map<u128, u32>, lm: Seq<(u128, u32)>, i: int)
    requires
        0 <= i < lm.len(),
        stock_of(stock, lm[i].0) - total_of(lm.take(i), lm[i].0) >= lm[i].1,
        forall|p: u128| 0 <= #[trigger] total_of(lm.take(i), p) <= stock_of(stock, p),
    ensures
        taken(stock, lm.take(i + 1)) == taken(stock, lm.take(i)).insert(
            lm[i].0,
            (stock_of(taken(stock, lm.take(i)), lm[i].0) - lm[i].1) as u32,
        ),
{
    let a = taken(stock, lm.take(i + 1));
    let b = taken(stock, lm.take(i)).insert(lm[i].0, (stock_of(taken(stock, lm.take(i)), lm[i].0) - lm[i].1) as u32);
    assert forall|p: u128| #[trigger] a.contains_key(p) <==> b.contains_key(p) by {
        lemma_mentions_push(lm, i, p);
    }
    assert forall|p: u128| a.contains_key(p) implies #[trigger] a[p] == b[p] by {
        lemma_mentions_push(lm, i, p);
        lemma_total_of_push(lm, i, p);
        if !stock.contains_key(p) && !mentions(lm.take(i), p) {
            lemma_total_of_unmentioned(lm.take(i), p);
        }
    }
    assert(a =~= b);
}

/// The total quantity `lines` ask of `p`, if it is at most `cap`.
fn total_within(lines: &Vec<(ProductId, u32)>, p: u128, cap: u64) -> (r: Option<u64>)
    requires
        cap <= u32::MAX,
    ensures
        r matches Some(t) ==> t == total_of(lines_model(lines@), p) && t <= cap,
        r is None ==> total_of(lines_model(lines@), p) > cap,
{
    let ghost lm = lines_model(lines@);
    let n = lines.len();
    let mut acc: u64 = 0;
    let mut j: usize = 0;
    while j < n
        invariant
            n == lines@.len(),
            lm == lines_model(lines@),
            j <= n,
            acc == total_of(lm.take(j as int), p),
            acc <= cap,
            cap <= u32::MAX,
        decreases n - j,
    {
        let (q_p, q) = lines[j];
        proof { lemma_total_of_push(lm, j as int, p); }
        if q_p.0 == p {
            acc = acc + q as u64;
            if acc > cap {
                proof { lemma_total_of_nonneg_prefix(lm, j as int + 1, p); }
                return None;
            }
        }
        j = j + 1;
    }
    proof { assert(lm.take(n as int) =~= lm); }
    Some(acc)
}

proof fn lemma_given_back_step(stock: Map<u128, u32>, lm: Seq<(u128, u32)>, i: int)
    requires
        0 <= i < lm.len(),
        forall|p: u128| 0 <= #[trigger] total_of(lm.take(i), p) && stock_of(stock, p) + total_of(lm.take(i), p) <= u32::MAX,
        stock_of(stock, lm[i].0) + total_of(lm.take(i), lm[i].0) + lm[i].1 <= u32::MAX,
    ensures
        given_back(stock, lm.take(i + 1)) == given_back(stock, lm.take(i)).insert(
            lm[i].0,
            (stock_of(given_back(stock, lm.take(i)), lm[i].0) + lm[i].1) as u32,
        ),
{
    let a = given_back(stock, lm.take(i + 1));
    let b = given_back(stock, lm.take(i)).insert(lm[i].0, (stock_of(given_back(stock, lm.take(i)), lm[i].0) + lm[i].1) as u32);
    assert forall|p: u128| #[trigger] a.contains_key(p) <==> b.contains_key(p) by {
        lemma_mentions_push(lm, i, p);
    }
    assert forall|p: u128| a.contains_key(p) implies #[trigger] a[p] == b[p] by {
        lemma_mentions_push(lm, i, p);
        lemma_total_of_push(lm, i, p);
        if !stock.contains_key(p) && !mentions(lm.take(i), p) {
            lemma_total_of_unmentioned(lm.take(i), p);
        }
    }
    assert(a =~= b);
}

/// Law: reserving is idempotent by order. Whatever a second delivery of
/// the same order asks for, it gets the first outcome back and moves
/// nothing.
pub proof fn law_reserve_is_idempotent(s: InventoryState, order: u128, lines: Seq<(u128, u32)>, again: Seq<(u128, u32)>)
    ensures
        reserve_spec(reserve_spec(s, order, lines).0, order, again) == reserve_spec(s, order, lines),
{
}

/// Law: a reservation is all or nothing. A new order is reserved exactly
/// when the stock covers what its lines ask, summed per product; then every
/// product drops by exactly that sum. Otherwise it is rejected and no stock
/// moves, so a partial reservation is never observable.
pub proof fn law_reserve_is_all_or_nothing(s: InventoryState, order: u128, lines: Seq<(u128, u32)>)
    requires
        !s.ledger.contains_key(order),
    ensures
        reserve_spec(s, order, lines).1 is Reserved <==> covers(s.stock, lines),
        reserve_spec(s, order, lines).1 is Rejected <==> !covers(s.stock, lines),
        reserve_spec(s, order, lines).1 is Rejected ==> reserve_spec(s, order, lines).0.stock == s.stock,
        reserve_spec(s, order, lines).1 is Reserved ==> forall|p: u128| #[trigger] stock_of(reserve_spec(s, order, lines).0.stock, p)
            == stock_of(s.stock, p) - total_of(lines, p),
{
    lemma_reserved_iff_covers(s.stock, lines);
    assert forall|p: u128| covers(s.stock, lines) implies #[trigger] stock_of(taken(s.stock, lines), p)
        == stock_of(s.stock, p) - total_of(lines, p) by {
        lemma_total_of_nonneg(lines, p);
        if !s.stock.contains_key(p) && !mentions(lines, p) {
            lemma_total_of_unmentioned(lines, p);
        }
    }
}

/// The stock covers the lines exactly when no line is short and no product
/// is over-asked in total.
proof fn lemma_reserved_iff_covers(stock: Map<u128, u32>, lines: Seq<(u128, u32)>)
    ensures
        (first_short(stock, lines) is None && first_over(stock, lines) is None) <==> covers(stock, lines),
{
    if first_short(stock, lines) is None && first_over(stock, lines) is None {
        assert forall|j: int| 0 <= j < lines.len() implies total_of(lines, #[trigger] lines[j].0) <= stock_of(stock, lines[j].0) by {
            if total_of(lines, lines[j].0) > stock_of(stock, lines[j].0) {
                assert(exists|i: int| 0 <= i < lines.len() && total_of(lines, #[trigger] lines[i].0) > stock_of(stock, lines[i].0));
            }
        }
        lemma_fits_everywhere(stock, lines);
    } else if first_short(stock, lines) is Some {
        let k = choose|k: int| 0 <= k < lines.len() && stock_of(stock, #[trigger] lines[k].0) < lines[k].1;
        lemma_line_within_total(lines, k);
        assert(!(total_of(lines, lines[k].0) <= stock_of(stock, lines[k].0)));
    } else {
        let k = choose|k: int| 0 <= k < lines.len() && total_of(lines, #[trigger] lines[k].0) > stock_of(stock, lines[k].0);
        assert(!(total_of(lines, lines[k].0) <= stock_of(stock, lines[k].0)));
    }
}

/// Law: releasing an order right after reserving it puts every unit back.
/// Each product's stock returns to what it was; a product the order named
/// that was never seeded is left known, with none.
pub proof fn law_release_restores_reserved_stock(s: InventoryState, order: u128, lines: Seq<(u128, u32)>)
    requires
        !s.ledger.contains_key(order),
        reserve_spec(s, order, lines).1 is Reserved,
    ensures
        ({
            let after = release_spec(reserve_spec(s, order, lines).0, order);
            &&& forall|p: u128| #[trigger] s.stock.contains_key(p) ==> after.stock.contains_key(p) && after.stock[p] == s.stock[p]
            &&& forall|p: u128| #[trigger] after.stock.contains_key(p) && !s.stock.contains_key(p) ==> after.stock[p] == 0
            &&& after.ledger[order] is AlreadyReleased
        }),
{
    lemma_reserved_iff_covers(s.stock, lines);
    let s1 = reserve_spec(s, order, lines).0;
    let after = release_spec(s1, order);
    assert(s1.ledger[order] == OutcomeModel::Reserved(lines));
    assert forall|p: u128| #[trigger] after.stock.contains_key(p) implies after.stock[p] == stock_of(s.stock, p) by {
        lemma_total_of_nonneg(lines, p);
    }
}

/// Law: releasing is idempotent; a second delivery of the same decline
/// changes nothing.
pub proof fn law_release_is_idempotent(s: InventoryState, order: u128)
    ensures
        release_spec(release_spec(s, order), order) == release_spec(s, order),
{
}

/// Law: once an order has been reserved and released, a late redelivery of
/// its placement is answered "already released" and moves no stock, so
/// compensated stock is never re-reserved.
pub proof fn law_no_reservation_after_compensation(s: InventoryState, order: u128, lines: Seq<(u128, u32)>, again: Seq<(u128, u32)>)
    requires
        !s.ledger.contains_key(order),
        reserve_spec(s, order, lines).1 is Reserved,
    ensures
        ({
            let released = release_spec(reserve_spec(s, order, lines).0, order);
            &&& reserve_spec(released, order, again).1 is AlreadyReleased
            &&& reserve_spec(released, order, again).0 == released
        }),
{
}

// --- Wire shapes ------------------------------------------------------------

/// Catalog announced a product. Inventory reads only its id.
pub struct ProductCreated {
    pub id: u128,
}

impl ProductCreated {
    pub const SUBJECT: &'static str = "catalog.product_created";
}

pub struct OrderPlacedLine {
    pub product_id: u128,
    pub quantity: u32,
}

/// Orders announced a placed order. Inventory reads its id and lines.
pub struct OrderPlaced {
    pub id: u128,
    pub lines: Vec<OrderPlacedLine>,
}

impl OrderPlaced {
    pub const SUBJECT: &'static str = "orders.placed";
}

/// Payments declined an order: the trigger for compensating.
pub struct PaymentDeclined {
    pub order_id: u128,
}

impl PaymentDeclined {
    pub const SUBJECT: &'static str = "payments.declined";
}

#[derive(Debug, Clone, Copy)]
pub struct StockReserved {
    pub order_id: u128,
}

impl StockReserved {
    pub const SUBJECT: &'static str = "inventory.stock_reserved";
}

#[derive(Debug)]
pub struct StockRejected {
    pub order_id: u128,
    pub reason: String,
}

impl StockRejected {
    pub const SUBJECT: &'static str = "inventory.stock_rejected";
}

#[derive(Debug, Clone, Copy)]
pub struct StockReleased {
    pub order_id: u128,
}

impl StockReleased {
    pub const SUBJECT: &'static str = "inventory.stock_released";
}

/// A fact inventory announces about its own stock.
#[derive(Debug)]
pub enum InventoryEvent {
    Reserved(StockReserved),
    Rejected(StockRejected),
    Released(StockReleased),
}

impl InventoryEvent {
    /// The subject the fact is published on.
    pub fn subject(&self) -> (s: &'static str)
        ensures
            s@ == match self {
                InventoryEvent::Reserved(_) => "inventory.stock_reserved"@,
                InventoryEvent::Rejected(_) => "inventory.stock_rejected"@,
                InventoryEvent::Released(_) => "inventory.stock_released"@,
            },
    {
        match self {
            InventoryEvent::Reserved(_) => StockReserved::SUBJECT,
            InventoryEvent::Rejected(_) => StockRejected::SUBJECT,
            InventoryEvent::Released(_) => StockReleased::SUBJECT,
        }
    }
}

/// Placed-order lines as the reservation takes them.
pub fn placed_lines(evt: &OrderPlaced) -> (lines: Vec<(ProductId, u32)>)
    ensures
        lines@.len() == evt.lines@.len(),
        forall|i: int| 0 <= i < lines@.len() ==> #[trigger] lines@[i] == (ProductId(evt.lines@[i].product_id), evt.lines@[i].quantity),
{
    let mut lines: Vec<(ProductId, u32)> = Vec::new();
    let mut i: usize = 0;
    while i < evt.lines.len()
        invariant
            i <= evt.lines@.len(),
            lines@.len() == i,
            forall|j: int| 0 <= j < i ==> #[trigger] lines@[j] == (ProductId(evt.lines@[j].product_id), evt.lines@[j].quantity),
        decreases evt.lines@.len() - i,
    {
        let l = &evt.lines[i];
        lines.push((ProductId(l.product_id), l.quantity));
        i = i + 1;
    }
    lines
}

// --- Use cases ----------------------------------------------------------------

/// Inventory's use cases. Each answers with the fact it wants published;
/// publishing it is the caller's job.
pub struct InventoryService {
    repo: InMemoryInventoryRepository,
}

impl View for InventoryService {
    type V = InventoryState;

    closed spec fn view(&self) -> InventoryState {
        self.repo@
    }
}

impl InventoryService {
    pub fn new(repo: InMemoryInventoryRepository) -> (s: Self)
        ensures
            s@ == repo@,
    {
        InventoryService { repo }
    }

    pub fn seed_product(&mut self, product_id: ProductId, initial_units: u32)
        ensures
            final(self)@.stock == old(self)@.stock.insert(product_id.0, initial_units),
            final(self)@.ledger == old(self)@.ledger,
    {
        self.repo.seed(product_id, initial_units);
    }

    pub fn available(&self, product_id: ProductId) -> (r: Option<u32>)
        ensures
            r == (if self@.stock.contains_key(product_id.0) { Some(self@.stock[product_id.0]) } else { None::<u32> }),
    {
        self.repo.available(product_id)
    }

    /// Whether `release` may be called with this order.
    pub fn release_fits(&self, order_id: u128) -> (r: bool)
        ensures
            r == release_within_bounds(self@, order_id),
    {
        self.repo.release_fits(order_id)
    }

    /// Reacts to a placed order: reserve its lines, then say what happened.
    /// A repeat re-announces the recorded outcome, except after a release,
    /// when it stays silent rather than walk anybody back out of a
    /// terminal state.
    pub fn reserve(&mut self, order_id: u128, lines: Vec<(ProductId, u32)>) -> (ev: Option<InventoryEvent>)
        ensures
            final(self)@ == reserve_spec(old(self)@, order_id, lines_model(lines@)).0,
            match reserve_spec(old(self)@, order_id, lines_model(lines@)).1 {
                OutcomeModel::Reserved(_) => ev matches Some(InventoryEvent::Reserved(e)) && e.order_id == order_id,
                OutcomeModel::Rejected(reason) => ev matches Some(InventoryEvent::Rejected(e))
                    && e.order_id == order_id && e.reason@ == reason,
                OutcomeModel::AlreadyReleased => ev is None,
            },
    {
        match self.repo.reserve(order_id, lines) {
            ReservationOutcome::Reserved(_) => Some(InventoryEvent::Reserved(StockReserved { order_id })),
            ReservationOutcome::Rejected(reason) => Some(
                InventoryEvent::Rejected(StockRejected { order_id, reason }),
            ),
            ReservationOutcome::AlreadyReleased => None,
        }
    }

    /// Compensates: puts back whatever this order had reserved, and
    /// announces the release (every time, repeats included).
    pub fn release(&mut self, order_id: u128) -> (ev: InventoryEvent)
        requires
            release_within_bounds(old(self)@, order_id),
        ensures
            final(self)@ == release_spec(old(self)@, order_id),
            ev matches InventoryEvent::Released(e) && e.order_id == order_id,
    {
        self.repo.release(order_id);
        InventoryEvent::Released(StockReleased { order_id })
    }
}

} // verus!
