//! Notifications: one email per order, decided from other services'
//! facts. Terminal facts carry only an order id, so this service keeps the
//! order's details from `orders.placed` and joins them, in whichever order
//! the two arrive. A set of notified orders makes the decision happen once.

use vstd::prelude::*;
use std::collections::{HashMap, HashSet};
use crate::text::{decimal, decimal_text, uuid_hyphenated, uuid_text};

verus! {

broadcast use vstd::std_specs::hash::group_hash_axioms;

/// What this service has decided happened to an order.
#[derive(Debug, Clone)]
pub enum Outcome {
    Confirmed,
    Failed(String),
}

/// An outcome, read as values.
pub enum OutcomeModel {
    Confirmed,
    Failed(Seq<char>),
}

impl View for Outcome {
    type V = OutcomeModel;

    open spec fn view(&self) -> OutcomeModel {
        match self {
            Outcome::Confirmed => OutcomeModel::Confirmed,
            Outcome::Failed(reason) => OutcomeModel::Failed(reason@),
        }
    }
}

/// The bits of an order needed to write the customer.
#[derive(Debug, Clone, Copy)]
pub struct PlacedOrder {
    pub user_id: u128,
    pub total_cents: u64,
}

#[verifier::ext_equal]
/// The registry's state.
pub struct RegistryState {
    pub placed: Map<u128, PlacedOrder>,
    /// Outcomes that arrived before the order's details.
    pub awaiting_details: Map<u128, OutcomeModel>,
    /// Orders already emailed about.
    pub notified: Set<u128>,
}

/// Hearing `orders.placed`: record the details; notify if an outcome was
/// parked waiting for them and nobody has been notified yet.
pub open spec fn record_placed_spec(s: RegistryState, order: u128, details: PlacedOrder) -> (RegistryState, Option<(PlacedOrder, OutcomeModel)>) {
    let placed = s.placed.insert(order, details);
    if !s.awaiting_details.contains_key(order) {
        (RegistryState { placed, ..s }, None)
    } else {
        let outcome = s.awaiting_details[order];
        let awaiting_details = s.awaiting_details.remove(order);
        if s.notified.contains(order) {
            (RegistryState { placed, awaiting_details, ..s }, None)
        } else {
            (RegistryState { placed, awaiting_details, notified: s.notified.insert(order) }, Some((details, outcome)))
        }
    }
}

/// Hearing a terminal fact: notify if the details are known, else park the
/// outcome (the first parked outcome wins). Nothing once notified.
pub open spec fn record_outcome_spec(s: RegistryState, order: u128, outcome: OutcomeModel) -> (RegistryState, Option<(PlacedOrder, OutcomeModel)>) {
    if s.notified.contains(order) {
        (s, None)
    } else if s.placed.contains_key(order) {
        (RegistryState { notified: s.notified.insert(order), ..s }, Some((s.placed[order], outcome)))
    } else if s.awaiting_details.contains_key(order) {
        (s, None)
    } else {
        (RegistryState { awaiting_details: s.awaiting_details.insert(order, outcome), ..s }, None)
    }
}

/// The registry of orders, outcomes and notifications.
pub struct Registry {
    placed: HashMap<u128, PlacedOrder>,
    awaiting_details: HashMap<u128, Outcome>,
    notified: HashSet<u128>,
}

impl View for Registry {
    type V = RegistryState;

    closed spec fn view(&self) -> RegistryState {
        RegistryState {
            placed: self.placed@,
            awaiting_details: self.awaiting_details@.map_values(|o: Outcome| o@),
            notified: self.notified@,
        }
    }
}

fn copy_outcome(o: &Outcome) -> (r: Outcome)
    ensures
        r@ == o@,
{
    match o {
        Outcome::Confirmed => Outcome::Confirmed,
        Outcome::Failed(reason) => Outcome::Failed(reason.clone()),
    }
}

impl Registry {
    /// Nothing known, nobody notified.
    pub fn new() -> (r: Self)
        ensures
            r@.placed == Map::<u128, PlacedOrder>::empty(),
            r@.awaiting_details == Map::<u128, OutcomeModel>::empty(),
            r@.notified == Set::<u128>::empty(),
    {
        let r = Registry { placed: HashMap::new(), awaiting_details: HashMap::new(), notified: HashSet::new() };
        assert(r@.awaiting_details =~= Map::<u128, OutcomeModel>::empty());
        r
    }

    /// Records `orders.placed`. Returns something to send only if a terminal
    /// fact for this order was already parked waiting on these details.
    pub fn record_placed(&mut self, order_id: u128, order: PlacedOrder) -> (r: Option<(PlacedOrder, Outcome)>)
        ensures
            final(self)@ == record_placed_spec(old(self)@, order_id, order).0,
            match record_placed_spec(old(self)@, order_id, order).1 {
                Some((d, o)) => r matches Some(x) && x.0 == d && x.1@ == o,
                None => r is None,
            },
    {
        self.placed.insert(order_id, order);
        let parked = self.awaiting_details.remove(&order_id);
        let outcome = match parked {
            Some(o) => o,
            None => {
                proof {
                    assert(self@ =~= record_placed_spec(old(self)@, order_id, order).0);
                }
                return None;
            },
        };
        if !self.notified.insert(order_id) {
            proof {
                assert(self@ =~= record_placed_spec(old(self)@, order_id, order).0);
            }
            return None;
        }
        proof {
            assert(self@ =~= record_placed_spec(old(self)@, order_id, order).0);
        }
        Some((order, outcome))
    }

    /// Records a terminal fact. Returns something to send if the order's
    /// details are already known; otherwise parks the outcome until
    /// `orders.placed` shows up.
    pub fn record_outcome(&mut self, order_id: u128, outcome: Outcome) -> (r: Option<(PlacedOrder, Outcome)>)
        ensures
            final(self)@ == record_outcome_spec(old(self)@, order_id, outcome@).0,
            match record_outcome_spec(old(self)@, order_id, outcome@).1 {
                Some((d, o)) => r matches Some(x) && x.0 == d && x.1@ == o,
                None => r is None,
            },
    {
        if self.notified.contains(&order_id) {
            return None;
        }
        let known = match self.placed.get(&order_id) {
            Some(o) => *o,
            None => {
                if !self.awaiting_details.contains_key(&order_id) {
                    self.awaiting_details.insert(order_id, outcome);
                    proof {
                        assert(self@ =~= record_outcome_spec(old(self)@, order_id, outcome@).0);
                    }
                }
                return None;
            },
        };
        self.notified.insert(order_id);
        proof {
            assert(self@ =~= record_outcome_spec(old(self)@, order_id, outcome@).0);
        }
        Some((known, outcome))
    }
}

/// The email this service sends about `order`: a confirmation with the
/// total, or an apology with the reason.
pub open spec fn email_text(order: u128, details: PlacedOrder, outcome: OutcomeModel) -> Seq<char> {
    match outcome {
        OutcomeModel::Confirmed => "sending confirmation email for order "@ + uuid_hyphenated(order) + " (user "@
            + uuid_hyphenated(details.user_id) + ", total "@ + decimal(details.total_cents as nat) + "c)"@,
        OutcomeModel::Failed(reason) => "sending sorry-your-order-failed email for order "@ + uuid_hyphenated(order)
            + " (user "@ + uuid_hyphenated(details.user_id) + "): "@ + reason,
    }
}

/// Writes the email a decided notification sends.
pub fn email(order_id: u128, order: PlacedOrder, outcome: &Outcome) -> (m: String)
    ensures
        m@ == email_text(order_id, order, outcome@),
{
    match outcome {
        Outcome::Confirmed => {
            let mut m = String::from_str("sending confirmation email for order ");
            m.append(uuid_text(order_id).as_str());
            m.append(" (user ");
            m.append(uuid_text(order.user_id).as_str());
            m.append(", total ");
            m.append(decimal_text(order.total_cents as u128).as_str());
            m.append("c)");
            m
        },
        Outcome::Failed(reason) => {
            let mut m = String::from_str("sending sorry-your-order-failed email for order ");
            m.append(uuid_text(order_id).as_str());
            m.append(" (user ");
            m.append(uuid_text(order.user_id).as_str());
            m.append("): ");
            m.append(reason.as_str());
            m
        },
    }
}

/// Law: no customer is emailed twice about one order. Once an order is
/// notified it stays notified, and every later fact about it, whatever it
/// says, sends nothing.
pub proof fn law_never_notifies_twice(s: RegistryState, order: u128, details: PlacedOrder, outcome: OutcomeModel)
    requires
        s.notified.contains(order),
    ensures
        record_placed_spec(s, order, details).1 is None,
        record_outcome_spec(s, order, outcome).1 is None,
        record_placed_spec(s, order, details).0.notified.contains(order),
        record_outcome_spec(s, order, outcome).0.notified.contains(order),
{
}

/// Law: every notification marks its order notified.
pub proof fn law_sending_marks_notified(s: RegistryState, order: u128, details: PlacedOrder, outcome: OutcomeModel)
    ensures
        record_placed_spec(s, order, details).1 is Some ==> record_placed_spec(s, order, details).0.notified.contains(order),
        record_outcome_spec(s, order, outcome).1 is Some ==> record_outcome_spec(s, order, outcome).0.notified.contains(order),
{
}

/// Law: the details and the outcome may arrive in either order; for an
/// order nothing is known about, both orders send the same one email.
pub proof fn law_either_arrival_order_sends_once(s: RegistryState, order: u128, details: PlacedOrder, outcome: OutcomeModel)
    requires
        !s.placed.contains_key(order),
        !s.awaiting_details.contains_key(order),
        !s.notified.contains(order),
    ensures
        ({
            let (a1, x1) = record_placed_spec(s, order, details);
            let (a2, x2) = record_outcome_spec(a1, order, outcome);
            let (b1, y1) = record_outcome_spec(s, order, outcome);
            let (b2, y2) = record_placed_spec(b1, order, details);
            &&& x1 is None && y1 is None
            &&& x2 == Some((details, outcome)) && y2 == Some((details, outcome))
            &&& a2 == b2
        }),
{
    let (a1, x1) = record_placed_spec(s, order, details);
    let (a2, x2) = record_outcome_spec(a1, order, outcome);
    let (b1, y1) = record_outcome_spec(s, order, outcome);
    let (b2, y2) = record_placed_spec(b1, order, details);
    assert(b1.awaiting_details.remove(order) =~= s.awaiting_details);
    assert(a2 =~= b2);
}

/// Law: when several terminal facts race ahead of the details, the first
/// one is the one the customer hears about.
pub proof fn law_first_parked_outcome_wins(s: RegistryState, order: u128, details: PlacedOrder, first: OutcomeModel, second: OutcomeModel)
    requires
        !s.placed.contains_key(order),
        !s.awaiting_details.contains_key(order),
        !s.notified.contains(order),
    ensures
        ({
            let (s1, _) = record_outcome_spec(s, order, first);
            let (s2, _) = record_outcome_spec(s1, order, second);
            record_placed_spec(s2, order, details).1 == Some((details, first))
        }),
{
}

/// A fact about one order, as the registry hears it.
pub enum Heard {
    Placed(PlacedOrder),
    Decided(OutcomeModel),
}

/// Hearing one fact about `order`.
pub open spec fn hear(s: RegistryState, order: u128, h: Heard) -> (RegistryState, Option<(PlacedOrder, OutcomeModel)>) {
    match h {
        Heard::Placed(d) => record_placed_spec(s, order, d),
        Heard::Decided(o) => record_outcome_spec(s, order, o),
    }
}

/// The registry after hearing `hs` about `order`, in that order.
pub open spec fn replay(s: RegistryState, order: u128, hs: Seq<Heard>) -> RegistryState
    decreases hs.len(),
{
    if hs.len() == 0 {
        s
    } else {
        hear(replay(s, order, hs.drop_last()), order, hs.last()).0
    }
}

/// How many of the facts `hs` about `order` sent an email.
pub open spec fn emails_sent(s: RegistryState, order: u128, hs: Seq<Heard>) -> nat
    decreases hs.len(),
{
    if hs.len() == 0 {
        0
    } else {
        emails_sent(s, order, hs.drop_last()) + if hear(replay(s, order, hs.drop_last()), order, hs.last()).1 is Some {
            1nat
        } else {
            0nat
        }
    }
}

pub open spec fn heard_placed(hs: Seq<Heard>) -> bool {
    exists|i: int| 0 <= i < hs.len() && #[trigger] hs[i] is Placed
}

pub open spec fn heard_decided(hs: Seq<Heard>) -> bool {
    exists|i: int| 0 <= i < hs.len() && #[trigger] hs[i] is Decided
}

proof fn lemma_replay_invariant(s: RegistryState, order: u128, hs: Seq<Heard>)
    requires
        !s.placed.contains_key(order),
        !s.awaiting_details.contains_key(order),
        !s.notified.contains(order),
    ensures
        ({
            let r = replay(s, order, hs);
            let n = emails_sent(s, order, hs);
            &&& n <= 1
            &&& r.notified.contains(order) <==> n == 1
            &&& r.placed.contains_key(order) <==> heard_placed(hs)
            &&& heard_decided(hs) ==> (r.awaiting_details.contains_key(order) || r.notified.contains(order))
            &&& r.awaiting_details.contains_key(order) ==> heard_decided(hs)
            &&& (heard_placed(hs) && heard_decided(hs)) ==> r.notified.contains(order)
        }),
    decreases hs.len(),
{
    if hs.len() > 0 {
        let prev = hs.drop_last();
        lemma_replay_invariant(s, order, prev);
        assert(heard_placed(hs) <==> (heard_placed(prev) || hs.last() is Placed)) by {
            if heard_placed(hs) {
                let i = choose|i: int| 0 <= i < hs.len() && #[trigger] hs[i] is Placed;
                if i < hs.len() - 1 {
                    assert(prev[i] is Placed);
                }
            }
            if heard_placed(prev) {
                let i = choose|i: int| 0 <= i < prev.len() && #[trigger] prev[i] is Placed;
                assert(hs[i] is Placed);
            }
            if hs.last() is Placed {
                assert(hs[hs.len() - 1] is Placed);
            }
        }
        assert(heard_decided(hs) <==> (heard_decided(prev) || hs.last() is Decided)) by {
            if heard_decided(hs) {
                let i = choose|i: int| 0 <= i < hs.len() && #[trigger] hs[i] is Decided;
                if i < hs.len() - 1 {
                    assert(prev[i] is Decided);
                }
            }
            if heard_decided(prev) {
                let i = choose|i: int| 0 <= i < prev.len() && #[trigger] prev[i] is Decided;
                assert(hs[i] is Decided);
            }
            if hs.last() is Decided {
                assert(hs[hs.len() - 1] is Decided);
            }
        }
    }
}

/// Law: one email per order. However the facts about an order arrive, in
/// any order and with any repeats, at most one of them sends an email; and
/// once its details and an outcome have both been heard, exactly one has.
pub proof fn law_one_email_per_order(s: RegistryState, order: u128, hs: Seq<Heard>)
    requires
        !s.placed.contains_key(order),
        !s.awaiting_details.contains_key(order),
        !s.notified.contains(order),
    ensures
        emails_sent(s, order, hs) <= 1,
        heard_placed(hs) && heard_decided(hs) ==> emails_sent(s, order, hs) == 1,
{
    lemma_replay_invariant(s, order, hs);
}

// --- Wire shapes ------------------------------------------------------------

/// Orders announced a placed order: the only source of who to write to.
pub struct OrderPlaced {
    pub id: u128,
    pub user_id: u128,
    pub total_cents: u64,
}

impl OrderPlaced {
    pub const SUBJECT: &'static str = "orders.placed";
}

/// Payments charged a wallet: read as "the order went through".
pub struct PaymentCharged {
    pub order_id: u128,
}

impl PaymentCharged {
    pub const SUBJECT: &'static str = "payments.charged";
}

/// Inventory could not cover the order.
pub struct StockRejected {
    pub order_id: u128,
    pub reason: String,
}

impl StockRejected {
    pub const SUBJECT: &'static str = "inventory.stock_rejected";
}

/// Payments could not cover the order: read as terminal here.
pub struct PaymentDeclined {
    pub order_id: u128,
    pub reason: String,
}

impl PaymentDeclined {
    pub const SUBJECT: &'static str = "payments.declined";
}

} // verus!
