//! The control group: read, think, write, with nothing holding the three
//! together. Each step is exact on its own; a reservation whose read went
//! stale while it was thinking still writes a total computed from that read.
//!
//! The thinking happens between `read` and `write_back`, outside the
//! library, so any number of other reservations may run in between.

use vstd::prelude::*;
use crate::concurrency::stock::{lookup, StockTable};
use crate::text::{decimal, decimal_text};
pub use crate::concurrency::stock::Entry;

verus! {

/// What a reservation attempt can refuse to do. There is no way to say
/// "someone else got there first": this strategy cannot tell.
#[derive(Debug)]
pub enum ReserveError {
    UnknownProduct(String),
    Insufficient { available: u64, requested: u64 },
}

/// Errors of the HTTP surface.
#[derive(Debug)]
pub enum AppError {
    Validation(String),
    Reserve(ReserveError),
}

impl AppError {
    /// The HTTP status this error is answered with.
    pub fn status(&self) -> (code: u16)
        ensures
            code == match self {
                AppError::Validation(_) => 400u16,
                AppError::Reserve(ReserveError::UnknownProduct(_)) => 404u16,
                AppError::Reserve(ReserveError::Insufficient { .. }) => 422u16,
            },
    {
        match self {
            AppError::Validation(_) => 400,
            AppError::Reserve(ReserveError::UnknownProduct(_)) => 404,
            AppError::Reserve(ReserveError::Insufficient { .. }) => 422,
        }
    }
}

/// "unknown product `product`"
pub open spec fn unknown_product_message(product: Seq<char>) -> Seq<char> {
    "unknown product `"@ + product + "`"@
}

/// "only `available` unit(s) available, `requested` requested"
pub open spec fn insufficient_message(available: u64, requested: u64) -> Seq<char> {
    "only "@ + decimal(available as nat) + " unit(s) available, "@ + decimal(requested as nat) + " requested"@
}

/// "validation error: `detail`"
pub open spec fn validation_message(detail: Seq<char>) -> Seq<char> {
    "validation error: "@ + detail
}

pub(crate) fn unknown_product_text(product: &str) -> (m: String)
    ensures
        m@ == unknown_product_message(product@),
{
    let mut m = String::from_str("unknown product `");
    m.append(product);
    m.append("`");
    m
}

pub(crate) fn insufficient_text(available: u64, requested: u64) -> (m: String)
    ensures
        m@ == insufficient_message(available, requested),
{
    let mut m = String::from_str("only ");
    m.append(decimal_text(available as u128).as_str());
    m.append(" unit(s) available, ");
    m.append(decimal_text(requested as u128).as_str());
    m.append(" requested");
    m
}

pub(crate) fn validation_text(detail: &str) -> (m: String)
    ensures
        m@ == validation_message(detail@),
{
    let mut m = String::from_str("validation error: ");
    m.append(detail);
    m
}

impl ReserveError {
    /// What the error says.
    pub open spec fn description(&self) -> Seq<char> {
        match self {
            ReserveError::UnknownProduct(p) => unknown_product_message(p@),
            ReserveError::Insufficient { available, requested } => insufficient_message(*available, *requested),
        }
    }

    /// The text the error is reported with.
    pub fn message(&self) -> (m: String)
        ensures
            m@ == self.description(),
    {
        match self {
            ReserveError::UnknownProduct(p) => unknown_product_text(p.as_str()),
            ReserveError::Insufficient { available, requested } => insufficient_text(*available, *requested),
        }
    }
}

impl AppError {
    /// The text the error is reported with, in the body of the answer.
    pub fn message(&self) -> (m: String)
        ensures
            m@ == match self {
                AppError::Validation(detail) => validation_message(detail@),
                AppError::Reserve(e) => e.description(),
            },
    {
        match self {
            AppError::Validation(detail) => validation_text(detail.as_str()),
            AppError::Reserve(e) => e.message(),
        }
    }
}

/// The message a zero-unit reservation is refused with.
pub open spec fn zero_units_message() -> Seq<char> {
    "`units` must be greater than zero"@
}

/// The request check of the reserve endpoint: a reservation of no units is
/// refused before the store is touched.
pub fn validate_units(units: u64) -> (r: Result<(), AppError>)
    ensures
        units > 0 <==> r is Ok,
        r matches Err(AppError::Validation(m)) ==> m@ == zero_units_message(),
        r is Err ==> r matches Err(AppError::Validation(_)),
{
    if units == 0 {
        let m = String::from_str("`units` must be greater than zero");
        proof { reveal_strlit("`units` must be greater than zero"); }
        Err(AppError::Validation(m))
    } else {
        Ok(())
    }
}

#[derive(Debug)]
pub struct Reservation {
    pub reserved: u64,
    pub available: u64,
    pub version: u64,
}

/// The service's stock, and the width of its race window.
pub struct Store {
    entries: StockTable,
    think_ms: u64,
}

/// What `read` answers for `product` in `table`.
pub open spec fn read_post(
    table: Map<Seq<char>, Entry>,
    product: Seq<char>,
    r: Result<Entry, ReserveError>,
) -> bool {
    match lookup(table, product) {
        Some(e) => r == Ok::<Entry, ReserveError>(e),
        None => r matches Err(ReserveError::UnknownProduct(name)) && name@ == product,
    }
}

/// What `write_back` does: decide on `snapshot`, then overwrite the row with
/// a total computed from `snapshot` alone, whatever the row holds now.
pub open spec fn write_back_post(
    before: Map<Seq<char>, Entry>,
    product: Seq<char>,
    units: u64,
    snapshot: Entry,
    after: Map<Seq<char>, Entry>,
    r: Result<Reservation, ReserveError>,
) -> bool {
    if snapshot.units < units {
        &&& r matches Err(ReserveError::Insufficient { available, requested })
        &&& available == snapshot.units && requested == units
        &&& after == before
    } else if !before.contains_key(product) {
        &&& r matches Err(ReserveError::UnknownProduct(name)) && name@ == product
        &&& after == before
    } else {
        let row = Entry { units: (snapshot.units - units) as u64, version: (before[product].version + 1) as u64 };
        &&& r matches Ok(res) && res.reserved == units && res.available == row.units
            && res.version == row.version
        &&& after == before.insert(product, row)
    }
}

impl View for Store {
    type V = Map<Seq<char>, Entry>;

    closed spec fn view(&self) -> Map<Seq<char>, Entry> {
        self.entries@
    }
}

impl Store {
    pub closed spec fn think(&self) -> u64 {
        self.think_ms
    }

    /// An empty store whose reservations think for `think_ms` between their
    /// read and their write.
    pub fn new(think_ms: u64) -> (s: Self)
        ensures
            s@ == Map::<Seq<char>, Entry>::empty(),
            s.think() == think_ms,
    {
        Store { entries: StockTable::new(), think_ms }
    }

    /// The race window, in milliseconds.
    pub fn think_ms(&self) -> (ms: u64)
        ensures
            ms == self.think(),
    {
        self.think_ms
    }

    /// Resets `product` to `units` units at version 0.
    pub fn seed(&mut self, product: &str, units: u64) -> (e: Entry)
        ensures
            e == (Entry { units, version: 0 }),
            final(self)@ == old(self)@.insert(product@, e),
            final(self).think() == old(self).think(),
    {
        let e = Entry { units, version: 0 };
        self.entries.put(product, e);
        e
    }

    pub fn get(&self, product: &str) -> (r: Option<Entry>)
        ensures
            r == lookup(self@, product@),
    {
        self.entries.get(product)
    }

    /// Step one of a reservation: read the row.
    pub fn read(&self, product: &str) -> (r: Result<Entry, ReserveError>)
        ensures
            read_post(self@, product@, r),
    {
        match self.entries.get(product) {
            Some(e) => Ok(e),
            None => Err(ReserveError::UnknownProduct(String::from_str(product))),
        }
    }

    /// The last steps of a reservation, after the think: decide on the
    /// snapshot taken by `read`, and write the total it implies.
    pub fn write_back(&mut self, product: &str, units: u64, snapshot: Entry) -> (r: Result<
        Reservation,
        ReserveError,
    >)
        requires
            units <= snapshot.units ==> (lookup(old(self)@, product@) matches Some(e) ==> e.version < u64::MAX),
        ensures
            write_back_post(old(self)@, product@, units, snapshot, final(self)@, r),
            final(self).think() == old(self).think(),
    {
        if snapshot.units < units {
            return Err(ReserveError::Insufficient { available: snapshot.units, requested: units });
        }
        let remaining = snapshot.units - units;
        match self.entries.get(product) {
            None => Err(ReserveError::UnknownProduct(String::from_str(product))),
            Some(slot) => {
                let row = Entry { units: remaining, version: slot.version + 1 };
                self.entries.put(product, row);
                Ok(Reservation { reserved: units, available: row.units, version: row.version })
            },
        }
    }
}

/// Law: a reservation whose write follows its read with nothing in between
/// is exact. It is granted exactly when the stock covers it, a grant takes
/// exactly the units it hands out, and a refusal changes nothing.
pub proof fn law_uninterrupted_reservation_is_exact(
    before: Map<Seq<char>, Entry>,
    product: Seq<char>,
    units: u64,
    snapshot: Entry,
    after: Map<Seq<char>, Entry>,
    r: Result<Reservation, ReserveError>,
)
    requires
        read_post(before, product, Ok(snapshot)),
        write_back_post(before, product, units, snapshot, after, r),
    ensures
        before.contains_key(product),
        r is Ok <==> units <= before[product].units,
        r is Ok ==> after.contains_key(product) && after[product].units + units
            == before[product].units,
        r is Err ==> after == before,
{
}

/// Law: two reservations that read the same row before either writes are
/// both granted when each fits alone, yet the row goes down only once. The
/// second write discards the first: a lost update, and `units` oversold.
pub proof fn law_stale_reads_lose_an_update(
    s0: Map<Seq<char>, Entry>,
    product: Seq<char>,
    units: u64,
    snapshot: Entry,
    s1: Map<Seq<char>, Entry>,
    r1: Result<Reservation, ReserveError>,
    s2: Map<Seq<char>, Entry>,
    r2: Result<Reservation, ReserveError>,
)
    requires
        read_post(s0, product, Ok(snapshot)),
        units <= snapshot.units,
        write_back_post(s0, product, units, snapshot, s1, r1),
        write_back_post(s1, product, units, snapshot, s2, r2),
    ensures
        r1 is Ok && r2 is Ok,
        s2[product].units + units == s0[product].units,
{
}

} // verus!
