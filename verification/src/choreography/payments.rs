//! Payments: charges a wallet once an order's stock is reserved. The
//! trigger (`inventory.stock_reserved`) and the amount (`orders.placed`)
//! come from two publishers in no particular order, so this service joins
//! them itself: whichever half arrives second completes the pair. An
//! idempotency ledger keyed by order makes every charge happen at most once.

use vstd::prelude::*;
use std::collections::{HashMap, HashSet};
use crate::text::{decimal, decimal_text, uuid_hyphenated, uuid_text};

verus! {

broadcast use vstd::std_specs::hash::group_hash_axioms;

/// A customer, known to this service only by id.
#[derive(Debug, Clone, Copy, PartialEq, Eq, Hash)]
pub struct UserId(pub u128);

/// What charging an order came to.
#[derive(Debug)]
pub enum ChargeOutcome {
    Charged(u64),
    Declined(String),
}

/// A charge outcome, read as values.
pub enum ChargeModel {
    Charged(u64),
    Declined(Seq<char>),
}

impl View for ChargeOutcome {
    type V = ChargeModel;

    open spec fn view(&self) -> ChargeModel {
        match self {
            ChargeOutcome::Charged(n) => ChargeModel::Charged(*n),
            ChargeOutcome::Declined(reason) => ChargeModel::Declined(reason@),
        }
    }
}

/// The half of an order this service needs, learned from `orders.placed`.
#[derive(Debug, Clone, Copy)]
pub struct PlacedOrder {
    pub user_id: UserId,
    pub amount_cents: u64,
}

/// The reason a wallet that cannot cover an order is declined.
pub open spec fn decline_reason(user: u128, balance: u64, amount: u64) -> Seq<char> {
    "wallet "@ + uuid_hyphenated(user) + " has "@ + decimal(balance as nat) + "c, "@ + decimal(amount as nat)
        + "c requested"@
}

#[verifier::ext_equal]
/// Wallets, the charge ledger, and both halves of the join.
pub struct PaymentsState {
    pub wallets: Map<u128, u64>,
    pub charges: Map<u128, ChargeModel>,
    /// Every order whose details have arrived.
    pub placed: Map<u128, PlacedOrder>,
    /// Reservations that arrived before their order's details.
    pub awaiting: Set<u128>,
}

/// The balance of `user`, counting a missing wallet as empty.
pub open spec fn balance_of(wallets: Map<u128, u64>, user: u128) -> u64 {
    if wallets.contains_key(user) { wallets[user] } else { 0 }
}

/// Charging `amount` to `user` for `order`: a repeat gets the recorded
/// outcome back; otherwise the wallet pays if it can cover the amount.
pub open spec fn charge_spec(s: PaymentsState, order: u128, user: u128, amount: u64) -> (PaymentsState, ChargeModel) {
    if s.charges.contains_key(order) {
        (s, s.charges[order])
    } else {
        let balance = balance_of(s.wallets, user);
        if balance >= amount {
            let out = ChargeModel::Charged(amount);
            (PaymentsState {
                wallets: s.wallets.insert(user, (balance - amount) as u64),
                charges: s.charges.insert(order, out),
                ..s
            }, out)
        } else {
            let out = ChargeModel::Declined(decline_reason(user, balance, amount));
            (PaymentsState { charges: s.charges.insert(order, out), ..s }, out)
        }
    }
}

/// Recording an order's details: returns them back when a reservation was
/// already parked waiting for them, consuming the parked reservation.
pub open spec fn join_placed_spec(s: PaymentsState, order: u128, details: PlacedOrder) -> (PaymentsState, Option<PlacedOrder>) {
    let placed = s.placed.insert(order, details);
    if s.awaiting.contains(order) {
        (PaymentsState { placed, awaiting: s.awaiting.remove(order), ..s }, Some(details))
    } else {
        (PaymentsState { placed, ..s }, None)
    }
}

/// Recording a reservation: returns the order's details when they are
/// known; otherwise parks the reservation.
pub open spec fn join_reserved_spec(s: PaymentsState, order: u128) -> (PaymentsState, Option<PlacedOrder>) {
    if s.placed.contains_key(order) {
        (s, Some(s.placed[order]))
    } else {
        (PaymentsState { awaiting: s.awaiting.insert(order), ..s }, None)
    }
}

/// The payments storage.
pub struct InMemoryPaymentsRepository {
    wallets: HashMap<u128, u64>,
    charges: HashMap<u128, ChargeOutcome>,
    placed: HashMap<u128, PlacedOrder>,
    reserved_awaiting_details: HashSet<u128>,
}

impl View for InMemoryPaymentsRepository {
    type V = PaymentsState;

    closed spec fn view(&self) -> PaymentsState {
        PaymentsState {
            wallets: self.wallets@,
            charges: self.charges@.map_values(|o: ChargeOutcome| o@),
            placed: self.placed@,
            awaiting: self.reserved_awaiting_details@,
        }
    }
}

fn copy_charge(o: &ChargeOutcome) -> (r: ChargeOutcome)
    ensures
        r@ == o@,
{
    match o {
        ChargeOutcome::Charged(n) => ChargeOutcome::Charged(*n),
        ChargeOutcome::Declined(reason) => ChargeOutcome::Declined(reason.clone()),
    }
}

fn decline_text(user: u128, balance: u64, amount: u64) -> (r: String)
    ensures
        r@ == decline_reason(user, balance, amount),
{
    let mut r = String::from_str("wallet ");
    r.append(uuid_text(user).as_str());
    r.append(" has ");
    r.append(decimal_text(balance as u128).as_str());
    r.append("c, ");
    r.append(decimal_text(amount as u128).as_str());
    r.append("c requested");
    r
}

impl InMemoryPaymentsRepository {
    /// No wallets, no charges, nothing joined.
    pub fn new() -> (r: Self)
        ensures
            r@.wallets == Map::<u128, u64>::empty(),
            r@.charges == Map::<u128, ChargeModel>::empty(),
            r@.placed == Map::<u128, PlacedOrder>::empty(),
            r@.awaiting == Set::<u128>::empty(),
    {
        let r = InMemoryPaymentsRepository {
            wallets: HashMap::new(),
            charges: HashMap::new(),
            placed: HashMap::new(),
            reserved_awaiting_details: HashSet::new(),
        };
        assert(r@.charges =~= Map::<u128, ChargeModel>::empty());
        r
    }

    /// Opens (or resets) `user`'s wallet at `starting_balance_cents`.
    pub fn open_wallet(&mut self, user_id: UserId, starting_balance_cents: u64)
        ensures
            final(self)@ == (PaymentsState { wallets: old(self)@.wallets.insert(user_id.0, starting_balance_cents), ..old(self)@ }),
    {
        self.wallets.insert(user_id.0, starting_balance_cents);
        assert(self@ =~= (PaymentsState { wallets: old(self)@.wallets.insert(user_id.0, starting_balance_cents), ..old(self)@ }));
    }

    pub fn balance(&self, user_id: UserId) -> (r: Option<u64>)
        ensures
            r == (if self@.wallets.contains_key(user_id.0) { Some(self@.wallets[user_id.0]) } else { None::<u64> }),
    {
        match self.wallets.get(&user_id.0) {
            Some(b) => Some(*b),
            None => None,
        }
    }

    /// Records the data half of the join.
    pub fn join_placed(&mut self, order_id: u128, order: PlacedOrder) -> (r: Option<PlacedOrder>)
        ensures
            (final(self)@, r) == join_placed_spec(old(self)@, order_id, order),
    {
        self.placed.insert(order_id, order);
        let was_parked = self.reserved_awaiting_details.remove(&order_id);
        proof {
            assert(self@ =~= join_placed_spec(old(self)@, order_id, order).0);
        }
        if was_parked {
            Some(order)
        } else {
            None
        }
    }

    /// Records the trigger half of the join.
    pub fn join_reserved(&mut self, order_id: u128) -> (r: Option<PlacedOrder>)
        ensures
            (final(self)@, r) == join_reserved_spec(old(self)@, order_id),
    {
        match self.placed.get(&order_id) {
            Some(order) => Some(*order),
            None => {
                self.reserved_awaiting_details.insert(order_id);
                proof {
                    assert(self@ =~= join_reserved_spec(old(self)@, order_id).0);
                }
                None
            },
        }
    }

    /// Charges `amount_cents` to `user_id` for `order_id`, at most once.
    pub fn charge(&mut self, order_id: u128, user_id: UserId, amount_cents: u64) -> (r: ChargeOutcome)
        ensures
            (final(self)@, r@) == charge_spec(old(self)@, order_id, user_id.0, amount_cents),
    {
        match self.charges.get(&order_id) {
            Some(existing) => {
                return copy_charge(existing);
            },
            None => {},
        }
        let balance = match self.wallets.get(&user_id.0) {
            Some(b) => *b,
            None => 0,
        };
        let outcome = if balance >= amount_cents {
            self.wallets.insert(user_id.0, balance - amount_cents);
            ChargeOutcome::Charged(amount_cents)
        } else {
            ChargeOutcome::Declined(decline_text(user_id.0, balance, amount_cents))
        };
        self.charges.insert(order_id, copy_charge(&outcome));
        proof {
            assert(self@ =~= charge_spec(old(self)@, order_id, user_id.0, amount_cents).0);
        }
        outcome
    }
}

// --- Wire shapes ------------------------------------------------------------

/// Users announced a registration; a wallet is opened for it.
pub struct UserRegistered {
    pub id: u128,
}

impl UserRegistered {
    pub const SUBJECT: &'static str = "users.registered";
}

/// Orders announced a placed order; payments reads who and how much.
pub struct OrderPlaced {
    pub id: u128,
    pub user_id: u128,
    pub total_cents: u64,
}

impl OrderPlaced {
    pub const SUBJECT: &'static str = "orders.placed";
}

/// Inventory announced a reservation: the trigger to charge.
pub struct StockReserved {
    pub order_id: u128,
}

impl StockReserved {
    pub const SUBJECT: &'static str = "inventory.stock_reserved";
}

#[derive(Debug, Clone, Copy)]
pub struct PaymentCharged {
    pub order_id: u128,
}

impl PaymentCharged {
    pub const SUBJECT: &'static str = "payments.charged";
}

#[derive(Debug)]
pub struct PaymentDeclined {
    pub order_id: u128,
    pub reason: String,
}

impl PaymentDeclined {
    pub const SUBJECT: &'static str = "payments.declined";
}

/// A fact payments announces about a wallet.
#[derive(Debug)]
pub enum PaymentEvent {
    Charged(PaymentCharged),
    Declined(PaymentDeclined),
}

impl PaymentEvent {
    /// The subject the fact is published on.
    pub fn subject(&self) -> (s: &'static str)
        ensures
            s@ == match self {
                PaymentEvent::Charged(_) => "payments.charged"@,
                PaymentEvent::Declined(_) => "payments.declined"@,
            },
    {
        match self {
            PaymentEvent::Charged(_) => PaymentCharged::SUBJECT,
            PaymentEvent::Declined(_) => PaymentDeclined::SUBJECT,
        }
    }
}

/// Every new wallet opens with this balance.
pub const STARTING_BALANCE_CENTS: u64 = 2000;

/// Whether `ev` announces `outcome` for `order`.
pub open spec fn announces(ev: PaymentEvent, order: u128, outcome: ChargeModel) -> bool {
    match outcome {
        ChargeModel::Charged(_) => ev matches PaymentEvent::Charged(e) && e.order_id == order,
        ChargeModel::Declined(reason) => ev matches PaymentEvent::Declined(e) && e.order_id == order
            && e.reason@ == reason,
    }
}

/// Hearing `orders.placed`: record the details, and charge only if a
/// reservation was already waiting on them.
pub open spec fn on_order_placed_spec(s: PaymentsState, order: u128, user: u128, amount: u64) -> (PaymentsState, Option<ChargeModel>) {
    let (s1, joined) = join_placed_spec(s, order, PlacedOrder { user_id: UserId(user), amount_cents: amount });
    match joined {
        Some(d) => {
            let (s2, out) = charge_spec(s1, order, d.user_id.0, d.amount_cents);
            (s2, Some(out))
        },
        None => (s1, None),
    }
}

/// Hearing `inventory.stock_reserved`: charge if the details are known,
/// otherwise park the reservation.
pub open spec fn on_stock_reserved_spec(s: PaymentsState, order: u128) -> (PaymentsState, Option<ChargeModel>) {
    let (s1, joined) = join_reserved_spec(s, order);
    match joined {
        Some(d) => {
            let (s2, out) = charge_spec(s1, order, d.user_id.0, d.amount_cents);
            (s2, Some(out))
        },
        None => (s1, None),
    }
}

/// Whether `ev` is what a handler that came to `out` for `order` publishes.
pub open spec fn publishes(ev: Option<PaymentEvent>, order: u128, out: Option<ChargeModel>) -> bool {
    match out {
        Some(o) => ev is Some && announces(ev->Some_0, order, o),
        None => ev is None,
    }
}

/// Payments' use cases. Each answers with the fact it wants published.
pub struct PaymentsService {
    repo: InMemoryPaymentsRepository,
}

impl View for PaymentsService {
    type V = PaymentsState;

    closed spec fn view(&self) -> PaymentsState {
        self.repo@
    }
}

impl PaymentsService {
    pub fn new(repo: InMemoryPaymentsRepository) -> (s: Self)
        ensures
            s@ == repo@,
    {
        PaymentsService { repo }
    }

    pub fn open_wallet(&mut self, user_id: UserId, starting_balance_cents: u64)
        ensures
            final(self)@ == (PaymentsState { wallets: old(self)@.wallets.insert(user_id.0, starting_balance_cents), ..old(self)@ }),
    {
        self.repo.open_wallet(user_id, starting_balance_cents);
    }

    pub fn balance(&self, user_id: UserId) -> (r: Option<u64>)
        ensures
            r == (if self@.wallets.contains_key(user_id.0) { Some(self@.wallets[user_id.0]) } else { None::<u64> }),
    {
        self.repo.balance(user_id)
    }

    /// Heard `orders.placed`. On its own this charges nothing.
    pub fn on_order_placed(&mut self, order_id: u128, user_id: UserId, amount_cents: u64) -> (ev: Option<PaymentEvent>)
        ensures
            final(self)@ == on_order_placed_spec(old(self)@, order_id, user_id.0, amount_cents).0,
            publishes(ev, order_id, on_order_placed_spec(old(self)@, order_id, user_id.0, amount_cents).1),
    {
        let order = PlacedOrder { user_id, amount_cents };
        match self.repo.join_placed(order_id, order) {
            Some(order) => Some(self.charge(order_id, order)),
            None => None,
        }
    }

    /// Heard `inventory.stock_reserved`: the trigger, acted on once the
    /// order's details are known.
    pub fn on_stock_reserved(&mut self, order_id: u128) -> (ev: Option<PaymentEvent>)
        ensures
            final(self)@ == on_stock_reserved_spec(old(self)@, order_id).0,
            publishes(ev, order_id, on_stock_reserved_spec(old(self)@, order_id).1),
    {
        match self.repo.join_reserved(order_id) {
            Some(order) => Some(self.charge(order_id, order)),
            None => None,
        }
    }

    fn charge(&mut self, order_id: u128, order: PlacedOrder) -> (ev: PaymentEvent)
        ensures
            final(self)@ == charge_spec(old(self)@, order_id, order.user_id.0, order.amount_cents).0,
            announces(ev, order_id, charge_spec(old(self)@, order_id, order.user_id.0, order.amount_cents).1),
    {
        match self.repo.charge(order_id, order.user_id, order.amount_cents) {
            ChargeOutcome::Charged(_) => PaymentEvent::Charged(PaymentCharged { order_id }),
            ChargeOutcome::Declined(reason) => PaymentEvent::Declined(PaymentDeclined { order_id, reason }),
        }
    }
}

/// Law: a placed order alone is never charged. Unless its reservation is
/// already parked, hearing `orders.placed` moves no money and announces
/// nothing.
pub proof fn law_placement_alone_never_charges(s: PaymentsState, order: u128, user: u128, amount: u64)
    requires
        !s.awaiting.contains(order),
    ensures
        on_order_placed_spec(s, order, user, amount).1 is None,
        on_order_placed_spec(s, order, user, amount).0.wallets == s.wallets,
        on_order_placed_spec(s, order, user, amount).0.charges == s.charges,
{
}

/// Law: the join does not care which half arrives first. For an order
/// neither half of which has been seen, placement-then-reservation and
/// reservation-then-placement end in the same state and announce the same
/// outcome.
pub proof fn law_join_is_order_independent(s: PaymentsState, order: u128, user: u128, amount: u64)
    requires
        !s.placed.contains_key(order),
        !s.awaiting.contains(order),
    ensures
        ({
            let (a1, x1) = on_order_placed_spec(s, order, user, amount);
            let (a2, x2) = on_stock_reserved_spec(a1, order);
            let (b1, y1) = on_stock_reserved_spec(s, order);
            let (b2, y2) = on_order_placed_spec(b1, order, user, amount);
            &&& x1 is None && y1 is None
            &&& a2 == b2
            &&& x2 == y2
            &&& x2 is Some
        }),
{
    let (a1, x1) = on_order_placed_spec(s, order, user, amount);
    let (a2, x2) = on_stock_reserved_spec(a1, order);
    let (b1, y1) = on_stock_reserved_spec(s, order);
    let (b2, y2) = on_order_placed_spec(b1, order, user, amount);
    assert(b1.awaiting.remove(order) =~= s.awaiting);
    assert(a2 =~= b2);
}

/// Law: every order is charged at most once. Once an outcome is recorded,
/// any later delivery of either half moves no money and re-announces the
/// recorded outcome.
pub proof fn law_charge_happens_at_most_once(s: PaymentsState, order: u128, user: u128, amount: u64)
    requires
        s.charges.contains_key(order),
    ensures
        on_stock_reserved_spec(s, order).0.wallets == s.wallets,
        on_stock_reserved_spec(s, order).1 matches Some(o) ==> o == s.charges[order],
        on_order_placed_spec(s, order, user, amount).0.wallets == s.wallets,
        on_order_placed_spec(s, order, user, amount).1 matches Some(o) ==> o == s.charges[order],
{
}

/// Law: a wallet is never overdrawn. A charge debits exactly the amount
/// when the balance covers it, and otherwise leaves every wallet alone.
pub proof fn law_wallets_never_overdrawn(s: PaymentsState, order: u128, user: u128, amount: u64)
    requires
        !s.charges.contains_key(order),
    ensures
        ({
            let (t, out) = charge_spec(s, order, user, amount);
            &&& out is Charged <==> balance_of(s.wallets, user) >= amount
            &&& out is Charged ==> t.wallets[user] + amount == balance_of(s.wallets, user)
            &&& out is Declined ==> t.wallets == s.wallets
        }),
{
}

/// Law: a redelivered placement, after the join completed, does not re-arm
/// it: the parked reservation was consumed, so no second charge is tried.
pub proof fn law_redelivered_placement_does_not_rearm(s: PaymentsState, order: u128, user: u128, amount: u64)
    requires
        !s.placed.contains_key(order),
        !s.awaiting.contains(order),
        !s.charges.contains_key(order),
    ensures
        ({
            let (b1, _) = on_stock_reserved_spec(s, order);
            let (b2, _) = on_order_placed_spec(b1, order, user, amount);
            let (b3, z) = on_order_placed_spec(b2, order, user, amount);
            &&& z is None
            &&& b3.wallets == b2.wallets
        }),
{
}


/// Law: the ledger records the outcome a charge returned. Charging an order
/// a second time, whoever asks and for whatever amount, returns the first
/// outcome again and changes nothing. The first charge pays exactly the
/// amount when the wallet covers it; otherwise it is declined, no wallet is
/// debited, and the order stays declined for good.
pub proof fn law_repeat_charge_repeats_the_outcome(
    s: PaymentsState,
    order: u128,
    user: u128,
    amount: u64,
    user2: u128,
    amount2: u64,
)
    requires
        !s.charges.contains_key(order),
    ensures
        ({
            let (s1, first) = charge_spec(s, order, user, amount);
            let (s2, second) = charge_spec(s1, order, user2, amount2);
            &&& second == first
            &&& s2 == s1
            &&& s1.charges.contains_key(order) && s1.charges[order] == first
            &&& (first is Charged <==> amount <= balance_of(s.wallets, user))
            &&& (first matches ChargeModel::Charged(n) ==> n == amount
                && s1.wallets[user] + amount == balance_of(s.wallets, user))
            &&& (first is Declined ==> s1.wallets == s.wallets)
        }),
{
}

/// Law: a redelivered `inventory.stock_reserved` re-announces what the first
/// one decided. Once an order's details are known, hearing its reservation
/// twice charges at most once and announces the same outcome both times,
/// declined included.
pub proof fn law_redelivered_reservation_reannounces(s: PaymentsState, order: u128)
    requires
        s.placed.contains_key(order),
        !s.charges.contains_key(order),
    ensures
        ({
            let (s1, first) = on_stock_reserved_spec(s, order);
            let (s2, second) = on_stock_reserved_spec(s1, order);
            &&& first is Some
            &&& second == first
            &&& s2.wallets == s1.wallets
            &&& (first matches Some(ChargeModel::Declined(_)) ==> s1.wallets == s.wallets)
        }),
{
}

} // verus!
