//! Pessimistic concurrency: take the product's lock before reading, hold it
//! through the think and the write. Which lock guards which product is the
//! design decision: one per product, or one for everything.
//!
//! The locks themselves, and the waiting on them, live outside the library;
//! the library decides which lock a product needs and does the reading and
//! writing that happen while it is held.

use vstd::prelude::*;
use crate::concurrency::stock::{lookup, StockTable};
use crate::concurrency::naive::{insufficient_message, insufficient_text, unknown_product_message, unknown_product_text,
    validation_message, validation_text};
use crate::text::{ascii_lower, is_white_space, to_ascii_lowercase, trim, trim_end_by, trim_spec, trim_start_spec};
pub use crate::concurrency::stock::Entry;

verus! {

#[derive(Debug)]
pub enum ReserveError {
    UnknownProduct(String),
    Insufficient { available: u64, requested: u64 },
}

#[derive(Debug)]
pub enum AppError {
    Validation(String),
    Reserve(ReserveError),
}

impl ReserveError {
    /// What the error says.
    pub open spec fn description(&self) -> Seq<char> {
        match self {
            ReserveError::UnknownProduct(p) => unknown_product_message(p@),
            ReserveError::Insufficient { available, requested } => insufficient_message(*available, *requested),
        }
    }

    /// The text the error is reported with.
    pub fn message(&self) -> (m: String)
        ensures
            m@ == self.description(),
    {
        match self {
            ReserveError::UnknownProduct(p) => unknown_product_text(p.as_str()),
            ReserveError::Insufficient { available, requested } => insufficient_text(*available, *requested),
        }
    }
}

impl AppError {
    /// The text the error is reported with, in the body of the answer.
    pub fn message(&self) -> (m: String)
        ensures
            m@ == match self {
                AppError::Validation(detail) => validation_message(detail@),
                AppError::Reserve(e) => e.description(),
            },
    {
        match self {
            AppError::Validation(detail) => validation_text(detail.as_str()),
            AppError::Reserve(e) => e.message(),
        }
    }

    /// The HTTP status this error is answered with.
    pub fn status(&self) -> (code: u16)
        ensures
            code == match self {
                AppError::Validation(_) => 400u16,
                AppError::Reserve(ReserveError::UnknownProduct(_)) => 404u16,
                AppError::Reserve(ReserveError::Insufficient { .. }) => 422u16,
            },
    {
        match self {
            AppError::Validation(_) => 400,
            AppError::Reserve(ReserveError::UnknownProduct(_)) => 404,
            AppError::Reserve(ReserveError::Insufficient { .. }) => 422,
        }
    }
}

/// The request check of the reserve endpoint: a reservation of no units is
/// refused before the store is touched.
pub fn validate_units(units: u64) -> (r: Result<(), AppError>)
    ensures
        units > 0 <==> r is Ok,
        r matches Err(AppError::Validation(m)) ==> m@ == crate::concurrency::naive::zero_units_message(),
        r is Err ==> r matches Err(AppError::Validation(_)),
{
    if units == 0 {
        let m = String::from_str("`units` must be greater than zero");
        proof { reveal_strlit("`units` must be greater than zero"); }
        Err(AppError::Validation(m))
    } else {
        Ok(())
    }
}

#[derive(Debug)]
pub struct Reservation {
    pub reserved: u64,
    pub available: u64,
    pub version: u64,
    /// How long this request queued behind other writers for its lock.
    pub waited_ms: u64,
}

/// How much of the store one lock covers.
#[derive(Debug, Clone, Copy, PartialEq, Eq)]
pub enum LockScope {
    /// One lock per product; two products never wait for each other.
    Key,
    /// One lock for everything.
    Global,
}

/// The scope a configuration value names, once trimmed and lowercased.
pub open spec fn scope_named(s: Seq<char>) -> Option<LockScope> {
    if s == "key"@ || s == "row"@ || s == "product"@ {
        Some(LockScope::Key)
    } else if s == "global"@ || s == "table"@ || s == "all"@ {
        Some(LockScope::Global)
    } else {
        None
    }
}

impl LockScope {
    /// Reads `LOCK_SCOPE`: surrounding white space and ASCII case are
    /// ignored; `key`, `row`, `product` mean per-product locks, and
    /// `global`, `table`, `all` mean one lock.
    pub fn from_env_value(raw: &str) -> (r: Option<Self>)
        ensures
            r == scope_named(trim_spec(raw@).map_values(|c: char| ascii_lower(c))),
    {
        let lowered = to_ascii_lowercase(trim(raw));
        proof {
            reveal_strlit("key");
            reveal_strlit("row");
            reveal_strlit("product");
            reveal_strlit("global");
            reveal_strlit("table");
            reveal_strlit("all");
        }
        if lowered == String::from_str("key") || lowered == String::from_str("row")
            || lowered == String::from_str("product") {
            Some(LockScope::Key)
        } else if lowered == String::from_str("global") || lowered == String::from_str("table")
            || lowered == String::from_str("all") {
            Some(LockScope::Global)
        } else {
            None
        }
    }
}

/// Which lock a reservation must hold.
#[derive(Debug)]
pub enum LockKey {
    /// The one lock of the whole store.
    Global,
    /// The lock of the named product.
    Product(String),
}

pub struct Store {
    entries: StockTable,
    scope: LockScope,
    think_ms: u64,
}

/// What `read` answers for `product` in `table`.
pub open spec fn read_post(
    table: Map<Seq<char>, Entry>,
    product: Seq<char>,
    r: Result<Entry, ReserveError>,
) -> bool {
    match lookup(table, product) {
        Some(e) => r == Ok::<Entry, ReserveError>(e),
        None => r matches Err(ReserveError::UnknownProduct(name)) && name@ == product,
    }
}

/// What `write_back` does: decide on `snapshot` and write the total it implies.
pub open spec fn write_back_post(
    before: Map<Seq<char>, Entry>,
    product: Seq<char>,
    units: u64,
    snapshot: Entry,
    waited_ms: u64,
    after: Map<Seq<char>, Entry>,
    r: Result<Reservation, ReserveError>,
) -> bool {
    if snapshot.units < units {
        &&& r matches Err(ReserveError::Insufficient { available, requested })
        &&& available == snapshot.units && requested == units
        &&& after == before
    } else if !before.contains_key(product) {
        &&& r matches Err(ReserveError::UnknownProduct(name)) && name@ == product
        &&& after == before
    } else {
        let row = Entry { units: (snapshot.units - units) as u64, version: (before[product].version + 1) as u64 };
        &&& r matches Ok(res) && res.reserved == units && res.available == row.units
            && res.version == row.version && res.waited_ms == waited_ms
        &&& after == before.insert(product, row)
    }
}

/// The lock that guards `product` under `scope`.
pub open spec fn lock_post(scope: LockScope, product: Seq<char>, k: LockKey) -> bool {
    match scope {
        LockScope::Global => k is Global,
        LockScope::Key => k matches LockKey::Product(name) && name@ == product,
    }
}

impl View for Store {
    type V = Map<Seq<char>, Entry>;

    closed spec fn view(&self) -> Map<Seq<char>, Entry> {
        self.entries@
    }
}

impl Store {
    pub closed spec fn think(&self) -> u64 {
        self.think_ms
    }

    pub closed spec fn lock_scope(&self) -> LockScope {
        self.scope
    }

    pub fn new(think_ms: u64, scope: LockScope) -> (s: Self)
        ensures
            s@ == Map::<Seq<char>, Entry>::empty(),
            s.think() == think_ms,
            s.lock_scope() == scope,
    {
        Store { entries: StockTable::new(), scope, think_ms }
    }

    pub fn think_ms(&self) -> (ms: u64)
        ensures
            ms == self.think(),
    {
        self.think_ms
    }

    /// Resets `product` to `units` units at version 0.
    pub fn seed(&mut self, product: &str, units: u64) -> (e: Entry)
        ensures
            e == (Entry { units, version: 0 }),
            final(self)@ == old(self)@.insert(product@, e),
            final(self).think() == old(self).think(),
            final(self).lock_scope() == old(self).lock_scope(),
    {
        let e = Entry { units, version: 0 };
        self.entries.put(product, e);
        e
    }

    pub fn get(&self, product: &str) -> (r: Option<Entry>)
        ensures
            r == lookup(self@, product@),
    {
        self.entries.get(product)
    }

    /// Which lock guards `product`.
    pub fn lock_for(&self, product: &str) -> (k: LockKey)
        ensures
            lock_post(self.lock_scope(), product@, k),
    {
        match self.scope {
            LockScope::Global => LockKey::Global,
            LockScope::Key => LockKey::Product(String::from_str(product)),
        }
    }

    /// The read, once the lock is held.
    pub fn read(&self, product: &str) -> (r: Result<Entry, ReserveError>)
        ensures
            read_post(self@, product@, r),
    {
        match self.entries.get(product) {
            Some(e) => Ok(e),
            None => Err(ReserveError::UnknownProduct(String::from_str(product))),
        }
    }

    /// The decision and the write, after the think and still under the lock.
    pub fn write_back(&mut self, product: &str, units: u64, snapshot: Entry, waited_ms: u64) -> (r:
        Result<Reservation, ReserveError>)
        requires
            units <= snapshot.units ==> (lookup(old(self)@, product@) matches Some(e) ==> e.version < u64::MAX),
        ensures
            write_back_post(old(self)@, product@, units, snapshot, waited_ms, final(self)@, r),
            final(self).think() == old(self).think(),
            final(self).lock_scope() == old(self).lock_scope(),
    {
        if snapshot.units < units {
            return Err(ReserveError::Insufficient { available: snapshot.units, requested: units });
        }
        match self.entries.get(product) {
            None => Err(ReserveError::UnknownProduct(String::from_str(product))),
            Some(slot) => {
                let row = Entry { units: snapshot.units - units, version: slot.version + 1 };
                self.entries.put(product, row);
                Ok(
                    Reservation {
                        reserved: units,
                        available: row.units,
                        version: row.version,
                        waited_ms,
                    },
                )
            },
        }
    }
}

/// Law: per-product locks never make two different products wait for each
/// other, and a global lock makes every pair of products share one lock.
pub proof fn law_lock_granularity(p: Seq<char>, q: Seq<char>, kp_key: LockKey, kq_key: LockKey, kp_global: LockKey, kq_global: LockKey)
    requires
        lock_post(LockScope::Key, p, kp_key),
        lock_post(LockScope::Key, q, kq_key),
        lock_post(LockScope::Global, p, kp_global),
        lock_post(LockScope::Global, q, kq_global),
    ensures
        (kp_key matches LockKey::Product(a) && kq_key matches LockKey::Product(b)) && (p != q ==> kp_key->Product_0@ != kq_key->Product_0@),
        kp_global is Global && kq_global is Global,
{
}

/// Law: with the lock held from the read to the write, nothing else writes
/// the row in between, and two reservations of the same product run one
/// after the other. Each then takes exactly the units it hands out: the
/// units handed out by both equal the units that left the shelf.
pub proof fn law_serialised_reservations_never_oversell(
    s0: Map<Seq<char>, Entry>,
    product: Seq<char>,
    u1: u64,
    snap1: Entry,
    s1: Map<Seq<char>, Entry>,
    r1: Result<Reservation, ReserveError>,
    u2: u64,
    snap2: Entry,
    s2: Map<Seq<char>, Entry>,
    r2: Result<Reservation, ReserveError>,
    w1: u64,
    w2: u64,
)
    requires
        read_post(s0, product, Ok(snap1)),
        write_back_post(s0, product, u1, snap1, w1, s1, r1),
        read_post(s1, product, Ok(snap2)),
        write_back_post(s1, product, u2, snap2, w2, s2, r2),
    ensures
        (if r1 is Ok { u1 as int } else { 0 }) + (if r2 is Ok { u2 as int } else { 0 })
            == s0[product].units - s2[product].units,
        r1 is Ok <==> u1 <= s0[product].units,
        r2 is Ok <==> u2 <= s1[product].units,
{
}

/// The form of a configuration value that `from_env_value` reads: trimmed,
/// then ASCII-lowercased.
pub open spec fn scope_form(raw: Seq<char>) -> Seq<char> {
    trim_spec(raw).map_values(|c: char| ascii_lower(c))
}

proof fn lemma_ascii_lower_char(c: char)
    ensures
        is_white_space(ascii_lower(c)) == is_white_space(c),
        ascii_lower(ascii_lower(c)) == ascii_lower(c),
{
    if 'A' <= c <= 'Z' {
        assert(((c as u32) + 32) as char == ascii_lower(c));
        assert('a' <= ascii_lower(c) <= 'z');
    }
}

proof fn lemma_trim_start_leads_with_text(s: Seq<char>)
    ensures
        trim_start_spec(s).len() == 0 || !is_white_space(trim_start_spec(s)[0]),
    decreases s.len(),
{
    if s.len() > 0 && is_white_space(s[0]) {
        lemma_trim_start_leads_with_text(s.drop_first());
    }
}

proof fn lemma_trim_end_is_prefix(s: Seq<char>)
    ensures
        ({
            let t = trim_end_by(s, |c: char| is_white_space(c));
            &&& t.len() <= s.len()
            &&& t == s.take(t.len() as int)
            &&& t.len() == 0 || !is_white_space(t.last())
        }),
    decreases s.len(),
{
    if s.len() > 0 && is_white_space(s.last()) {
        lemma_trim_end_is_prefix(s.drop_last());
        let t = trim_end_by(s.drop_last(), |c: char| is_white_space(c));
        assert(s.drop_last().take(t.len() as int) =~= s.take(t.len() as int));
    } else {
        assert(s.take(s.len() as int) =~= s);
    }
}

proof fn lemma_trimmed_is_fixed(t: Seq<char>)
    requires
        t.len() == 0 || (!is_white_space(t[0]) && !is_white_space(t.last())),
    ensures
        trim_spec(t) == t,
{
    assert(trim_start_spec(t) == t);
    assert(trim_end_by(t, |c: char| is_white_space(c)) == t);
}

/// Law: surrounding white space and ASCII case never matter to the lock
/// scope. Reading the trimmed, lowercased form of a value again gives that
/// same form, so `from_env_value(raw)` and `from_env_value` of that form
/// always agree.
pub proof fn law_scope_form_is_settled(raw: Seq<char>)
    ensures
        scope_form(scope_form(raw)) == scope_form(raw),
        scope_named(scope_form(scope_form(raw))) == scope_named(scope_form(raw)),
{
    let t = trim_spec(raw);
    lemma_trim_start_leads_with_text(raw);
    lemma_trim_end_is_prefix(trim_start_spec(raw));
    let u = trim_start_spec(raw);
    if t.len() > 0 {
        assert(t[0] == u[0]);
    }
    let m = t.map_values(|c: char| ascii_lower(c));
    if m.len() > 0 {
        lemma_ascii_lower_char(t[0]);
        lemma_ascii_lower_char(t.last());
        assert(m[0] == ascii_lower(t[0]));
        assert(m.last() == ascii_lower(t.last()));
    }
    lemma_trimmed_is_fixed(m);
    assert forall|i: int| 0 <= i < m.len() implies #[trigger] ascii_lower(m[i]) == m[i] by {
        lemma_ascii_lower_char(t[i]);
    }
    assert(m.map_values(|c: char| ascii_lower(c)) =~= m);
}


/// Law: the names of the two lock scopes. Once trimmed and lowercased, a
/// value names per-product locks exactly when it is `key`, `row` or
/// `product`, one lock exactly when it is `global`, `table` or `all`, and
/// nothing otherwise.
pub proof fn law_scope_names(s: Seq<char>)
    ensures
        scope_named(s) == Some(LockScope::Key) <==> (s == "key"@ || s == "row"@ || s == "product"@),
        scope_named(s) == Some(LockScope::Global) <==> (s == "global"@ || s == "table"@ || s == "all"@),
        scope_named(s) is None <==> !(s == "key"@ || s == "row"@ || s == "product"@ || s == "global"@
            || s == "table"@ || s == "all"@),
{
    reveal_strlit("key");
    reveal_strlit("row");
    reveal_strlit("product");
    reveal_strlit("global");
    reveal_strlit("table");
    reveal_strlit("all");
    assert("key"@[0] == 'k' && "row"@[0] == 'r' && "all"@[0] == 'a');
    assert("product"@.len() == 7 && "global"@.len() == 6 && "table"@.len() == 5 && "key"@.len() == 3);
}

} // verus!
