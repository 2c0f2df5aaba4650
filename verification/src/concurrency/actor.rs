//! The actor: one task owns the stock, and everybody else sends it
//! commands through a bounded mailbox. The stock below is handled one
//! command at a time, so nothing ever interleaves with a reservation.
//!
//! The mailbox, the task and the replies live outside the library; what
//! the task does with each command lives here.

use vstd::prelude::*;
use crate::concurrency::naive::{insufficient_message, insufficient_text, unknown_product_message, unknown_product_text,
    validation_message, validation_text};
use crate::concurrency::stock::{lookup, StockTable};
pub use crate::concurrency::stock::Entry;

verus! {

#[derive(Debug)]
pub enum ReserveError {
    UnknownProduct(String),
    Insufficient { available: u64, requested: u64 },
    /// The mailbox was full (or the writer gone): the request was shed.
    Busy,
}

#[derive(Debug)]
pub enum AppError {
    Validation(String),
    Reserve(ReserveError),
}

/// What a shed request is told.
pub open spec fn busy_message() -> Seq<char> {
    "the stock writer is saturated; this request was shed rather than queued"@
}

impl ReserveError {
    /// What the error says.
    pub open spec fn description(&self) -> Seq<char> {
        match self {
            ReserveError::UnknownProduct(p) => unknown_product_message(p@),
            ReserveError::Insufficient { available, requested } => insufficient_message(*available, *requested),
            ReserveError::Busy => busy_message(),
        }
    }

    /// The text the error is reported with.
    pub fn message(&self) -> (m: String)
        ensures
            m@ == self.description(),
    {
        match self {
            ReserveError::UnknownProduct(p) => unknown_product_text(p.as_str()),
            ReserveError::Insufficient { available, requested } => insufficient_text(*available, *requested),
            ReserveError::Busy => {
                proof { reveal_strlit("the stock writer is saturated; this request was shed rather than queued"); }
                String::from_str("the stock writer is saturated; this request was shed rather than queued")
            },
        }
    }
}

impl AppError {
    /// The text the error is reported with, in the body of the answer.
    pub fn message(&self) -> (m: String)
        ensures
            m@ == match self {
                AppError::Validation(detail) => validation_message(detail@),
                AppError::Reserve(e) => e.description(),
            },
    {
        match self {
            AppError::Validation(detail) => validation_text(detail.as_str()),
            AppError::Reserve(e) => e.message(),
        }
    }

    /// The HTTP status this error is answered with.
    pub fn status(&self) -> (code: u16)
        ensures
            code == match self {
                AppError::Validation(_) => 400u16,
                AppError::Reserve(ReserveError::UnknownProduct(_)) => 404u16,
                AppError::Reserve(ReserveError::Insufficient { .. }) => 422u16,
                AppError::Reserve(ReserveError::Busy) => 503u16,
            },
    {
        match self {
            AppError::Validation(_) => 400,
            AppError::Reserve(ReserveError::UnknownProduct(_)) => 404,
            AppError::Reserve(ReserveError::Insufficient { .. }) => 422,
            AppError::Reserve(ReserveError::Busy) => 503,
        }
    }
}

/// The request check of the reserve endpoint: a reservation of no units is
/// refused before the store is touched.
pub fn validate_units(units: u64) -> (r: Result<(), AppError>)
    ensures
        units > 0 <==> r is Ok,
        r matches Err(AppError::Validation(m)) ==> m@ == crate::concurrency::naive::zero_units_message(),
        r is Err ==> r matches Err(AppError::Validation(_)),
{
    if units == 0 {
        let m = String::from_str("`units` must be greater than zero");
        proof { reveal_strlit("`units` must be greater than zero"); }
        Err(AppError::Validation(m))
    } else {
        Ok(())
    }
}

#[derive(Debug)]
pub struct Reservation {
    pub reserved: u64,
    pub available: u64,
    pub version: u64,
    /// Time from posting the command to getting the reply; the writer
    /// leaves it at zero and the handle that posted the command fills it in.
    pub queued_ms: u64,
}

/// The state the writer task owns.
pub struct Writer {
    entries: StockTable,
}

/// What `lookup_for_reserve` answers for `product` in `table`.
pub open spec fn lookup_post(
    table: Map<Seq<char>, Entry>,
    product: Seq<char>,
    r: Result<Entry, ReserveError>,
) -> bool {
    match lookup(table, product) {
        Some(e) => r == Ok::<Entry, ReserveError>(e),
        None => r matches Err(ReserveError::UnknownProduct(name)) && name@ == product,
    }
}

/// What `reserve` does: decide on `snapshot` and write the total it implies.
pub open spec fn reserve_post(
    before: Map<Seq<char>, Entry>,
    product: Seq<char>,
    units: u64,
    snapshot: Entry,
    after: Map<Seq<char>, Entry>,
    r: Result<Reservation, ReserveError>,
) -> bool {
    if snapshot.units < units {
        &&& r matches Err(ReserveError::Insufficient { available, requested })
        &&& available == snapshot.units && requested == units
        &&& after == before
    } else if !before.contains_key(product) {
        &&& r matches Err(ReserveError::UnknownProduct(name)) && name@ == product
        &&& after == before
    } else {
        let row = Entry { units: (snapshot.units - units) as u64, version: (before[product].version + 1) as u64 };
        &&& r matches Ok(res) && res.reserved == units && res.available == row.units
            && res.version == row.version && res.queued_ms == 0
        &&& after == before.insert(product, row)
    }
}

impl View for Writer {
    type V = Map<Seq<char>, Entry>;

    closed spec fn view(&self) -> Map<Seq<char>, Entry> {
        self.entries@
    }
}

impl Writer {
    /// The writer's state when the task starts: no products.
    pub fn new() -> (w: Self)
        ensures
            w@ == Map::<Seq<char>, Entry>::empty(),
    {
        Writer { entries: StockTable::new() }
    }

    /// The `Get` command.
    pub fn get(&self, product: &str) -> (r: Option<Entry>)
        ensures
            r == lookup(self@, product@),
    {
        self.entries.get(product)
    }

    /// The `Seed` command: reset `product` to `units` units at version 0.
    pub fn seed(&mut self, product: &str, units: u64) -> (e: Entry)
        ensures
            e == (Entry { units, version: 0 }),
            final(self)@ == old(self)@.insert(product@, e),
    {
        let e = Entry { units, version: 0 };
        self.entries.put(product, e);
        e
    }

    /// The first half of the `Reserve` command: find the row. The writer
    /// then thinks, still handling nothing else.
    pub fn lookup_for_reserve(&self, product: &str) -> (r: Result<Entry, ReserveError>)
        ensures
            lookup_post(self@, product@, r),
    {
        match self.entries.get(product) {
            Some(e) => Ok(e),
            None => Err(ReserveError::UnknownProduct(String::from_str(product))),
        }
    }

    /// The second half of the `Reserve` command, after the think.
    pub fn reserve(&mut self, product: &str, units: u64, snapshot: Entry) -> (r: Result<
        Reservation,
        ReserveError,
    >)
        requires
            units <= snapshot.units ==> (lookup(old(self)@, product@) matches Some(e) ==> e.version < u64::MAX),
        ensures
            reserve_post(old(self)@, product@, units, snapshot, final(self)@, r),
    {
        if snapshot.units < units {
            return Err(ReserveError::Insufficient { available: snapshot.units, requested: units });
        }
        match self.entries.get(product) {
            None => Err(ReserveError::UnknownProduct(String::from_str(product))),
            Some(slot) => {
                let row = Entry { units: snapshot.units - units, version: slot.version + 1 };
                self.entries.put(product, row);
                Ok(
                    Reservation {
                        reserved: units,
                        available: row.units,
                        version: row.version,
                        queued_ms: 0,
                    },
                )
            },
        }
    }
}

/// Law: the writer handles one command at a time, so a reservation's two
/// halves see the same stock. Each reservation is then granted exactly when
/// the stock covers it, takes exactly what it hands out, and a refusal (or
/// a command that was shed before reaching the writer) changes nothing.
pub proof fn law_reservations_are_exact(
    before: Map<Seq<char>, Entry>,
    product: Seq<char>,
    units: u64,
    snapshot: Entry,
    after: Map<Seq<char>, Entry>,
    r: Result<Reservation, ReserveError>,
)
    requires
        lookup_post(before, product, Ok(snapshot)),
        reserve_post(before, product, units, snapshot, after, r),
    ensures
        r is Ok <==> units <= before[product].units,
        r is Ok ==> after[product].units + units == before[product].units,
        r is Err ==> after == before,
{
}

/// A command the writer takes from its mailbox.
pub enum WriterCommand {
    Get(Seq<char>),
    Seed(Seq<char>, u64),
    Reserve(Seq<char>, u64),
}

/// Whether `cmd` is a reservation the stock `state` covers.
pub open spec fn grants(state: Map<Seq<char>, Entry>, cmd: WriterCommand) -> bool {
    match cmd {
        WriterCommand::Reserve(p, u) => state.contains_key(p) && u <= state[p].units,
        _ => false,
    }
}

/// The stock after the writer handles `cmd` from start to end on `state`.
pub open spec fn handle(state: Map<Seq<char>, Entry>, cmd: WriterCommand) -> Map<Seq<char>, Entry> {
    match cmd {
        WriterCommand::Get(_) => state,
        WriterCommand::Seed(p, u) => state.insert(p, Entry { units: u, version: 0 }),
        WriterCommand::Reserve(p, u) => if grants(state, cmd) {
            state.insert(p, Entry { units: (state[p].units - u) as u64, version: (state[p].version + 1) as u64 })
        } else {
            state
        },
    }
}

/// The stock after the writer handles `cmds` in turn, starting from `state`.
pub open spec fn handle_all(state: Map<Seq<char>, Entry>, cmds: Seq<WriterCommand>) -> Map<Seq<char>, Entry>
    decreases cmds.len(),
{
    if cmds.len() == 0 {
        state
    } else {
        handle(handle_all(state, cmds.drop_last()), cmds.last())
    }
}

/// The units of `product` handed out while handling `cmds` in turn.
pub open spec fn units_handed_out(state: Map<Seq<char>, Entry>, cmds: Seq<WriterCommand>, product: Seq<char>) -> int
    decreases cmds.len(),
{
    if cmds.len() == 0 {
        0
    } else {
        let before = handle_all(state, cmds.drop_last());
        units_handed_out(state, cmds.drop_last(), product) + match cmds.last() {
            WriterCommand::Reserve(p, u) => if p == product && grants(before, cmds.last()) { u as int } else { 0 },
            _ => 0,
        }
    }
}

/// How many reservations of `product` were granted while handling `cmds`.
pub open spec fn grants_made(state: Map<Seq<char>, Entry>, cmds: Seq<WriterCommand>, product: Seq<char>) -> int
    decreases cmds.len(),
{
    if cmds.len() == 0 {
        0
    } else {
        let before = handle_all(state, cmds.drop_last());
        grants_made(state, cmds.drop_last(), product) + match cmds.last() {
            WriterCommand::Reserve(p, u) => if p == product && grants(before, cmds.last()) { 1int } else { 0 },
            _ => 0,
        }
    }
}

/// Law: each command is handled to completion before the next, so what
/// the writer's steps do for one command is exactly `handle`: a `Seed`
/// resets the row, a `Get` changes nothing, and a `Reserve` (its lookup and
/// its write on the same stock) is granted exactly when the stock covers it.
pub proof fn law_commands_are_handled_whole(
    before: Map<Seq<char>, Entry>,
    product: Seq<char>,
    units: u64,
    looked_up: Result<Entry, ReserveError>,
    after: Map<Seq<char>, Entry>,
    r: Result<Reservation, ReserveError>,
)
    requires
        lookup_post(before, product, looked_up),
        looked_up matches Ok(snapshot) ==> reserve_post(before, product, units, snapshot, after, r),
        looked_up is Err ==> after == before && r is Err,
    ensures
        after == handle(before, WriterCommand::Reserve(product, units)),
        r is Ok <==> grants(before, WriterCommand::Reserve(product, units)),
        r matches Ok(res) ==> res.reserved == units && res.available == after[product].units,
{
}

/// Law: whatever sequence of commands reaches the writer, as long as none
/// re-seeds the product, the units of it handed out equal the units that
/// left the shelf, and its version counts exactly the reservations granted.
pub proof fn law_writer_never_oversells(state: Map<Seq<char>, Entry>, cmds: Seq<WriterCommand>, product: Seq<char>)
    requires
        state.contains_key(product),
        state[product].version + cmds.len() <= u64::MAX,
        forall|i: int| 0 <= i < cmds.len() ==> !(#[trigger] cmds[i] matches WriterCommand::Seed(p, _) && p == product),
    ensures
        handle_all(state, cmds).contains_key(product),
        units_handed_out(state, cmds, product) == state[product].units - handle_all(state, cmds)[product].units,
        handle_all(state, cmds)[product].version == state[product].version + grants_made(state, cmds, product),
        grants_made(state, cmds, product) <= cmds.len(),
    decreases cmds.len(),
{
    if cmds.len() > 0 {
        let prev = cmds.drop_last();
        assert forall|i: int| 0 <= i < prev.len() implies !(#[trigger] prev[i] matches WriterCommand::Seed(p, _) && p == product) by {
            assert(prev[i] == cmds[i]);
        }
        law_writer_never_oversells(state, prev, product);
        assert(!(cmds[cmds.len() - 1] matches WriterCommand::Seed(p, _) && p == product));
    }
}

} // verus!
