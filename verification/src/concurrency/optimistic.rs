//! Optimistic concurrency: read the row and its version, think without
//! holding anything, then write only if the version is still the one that
//! was read. A row that moved is left alone, and the reservation starts
//! over, up to a retry budget.
//!
//! The library holds the decisions; the loop that sleeps between attempts
//! and around the think runs outside it.

use vstd::prelude::*;
use crate::concurrency::naive::{insufficient_message, insufficient_text, unknown_product_message, unknown_product_text,
    validation_message, validation_text};
use crate::concurrency::stock::{lookup, StockTable};
use crate::text::{decimal, decimal_text};
use rand::Rng;
pub use crate::concurrency::stock::Entry;

verus! {

#[derive(Debug)]
pub enum ReserveError {
    UnknownProduct(String),
    Insufficient { available: u64, requested: u64 },
    /// The compare failed `attempts` times in a row and the swap was abandoned.
    Conflict { product: String, attempts: u32 },
}

#[derive(Debug)]
pub enum AppError {
    Validation(String),
    Reserve(ReserveError),
}

/// "product `product` changed underneath this request; gave up after
/// `attempts` attempt(s)"
pub open spec fn conflict_message(product: Seq<char>, attempts: u32) -> Seq<char> {
    "product `"@ + product + "` changed underneath this request; gave up after "@ + decimal(attempts as nat)
        + " attempt(s)"@
}

impl ReserveError {
    /// What the error says.
    pub open spec fn description(&self) -> Seq<char> {
        match self {
            ReserveError::UnknownProduct(p) => unknown_product_message(p@),
            ReserveError::Insufficient { available, requested } => insufficient_message(*available, *requested),
            ReserveError::Conflict { product, attempts } => conflict_message(product@, *attempts),
        }
    }

    /// The text the error is reported with.
    pub fn message(&self) -> (m: String)
        ensures
            m@ == self.description(),
    {
        match self {
            ReserveError::UnknownProduct(p) => unknown_product_text(p.as_str()),
            ReserveError::Insufficient { available, requested } => insufficient_text(*available, *requested),
            ReserveError::Conflict { product, attempts } => {
                let mut m = String::from_str("product `");
                m.append(product.as_str());
                m.append("` changed underneath this request; gave up after ");
                m.append(decimal_text(*attempts as u128).as_str());
                m.append(" attempt(s)");
                m
            },
        }
    }
}

impl AppError {
    /// The text the error is reported with, in the body of the answer.
    pub fn message(&self) -> (m: String)
        ensures
            m@ == match self {
                AppError::Validation(detail) => validation_message(detail@),
                AppError::Reserve(e) => e.description(),
            },
    {
        match self {
            AppError::Validation(detail) => validation_text(detail.as_str()),
            AppError::Reserve(e) => e.message(),
        }
    }

    /// The HTTP status this error is answered with.
    pub fn status(&self) -> (code: u16)
        ensures
            code == match self {
                AppError::Validation(_) => 400u16,
                AppError::Reserve(ReserveError::UnknownProduct(_)) => 404u16,
                AppError::Reserve(ReserveError::Insufficient { .. }) => 422u16,
                AppError::Reserve(ReserveError::Conflict { .. }) => 409u16,
            },
    {
        match self {
            AppError::Validation(_) => 400,
            AppError::Reserve(ReserveError::UnknownProduct(_)) => 404,
            AppError::Reserve(ReserveError::Insufficient { .. }) => 422,
            AppError::Reserve(ReserveError::Conflict { .. }) => 409,
        }
    }
}

/// The request check of the reserve endpoint: a reservation of no units is
/// refused before the store is touched.
pub fn validate_units(units: u64) -> (r: Result<(), AppError>)
    ensures
        units > 0 <==> r is Ok,
        r matches Err(AppError::Validation(m)) ==> m@ == crate::concurrency::naive::zero_units_message(),
        r is Err ==> r matches Err(AppError::Validation(_)),
{
    if units == 0 {
        let m = String::from_str("`units` must be greater than zero");
        proof { reveal_strlit("`units` must be greater than zero"); }
        Err(AppError::Validation(m))
    } else {
        Ok(())
    }
}

#[derive(Debug)]
pub struct Reservation {
    pub reserved: u64,
    pub available: u64,
    pub version: u64,
    /// Which attempt succeeded; `1` means the request won uncontended.
    pub attempts: u32,
}

/// What the compare-and-swap step came to.
#[derive(Debug)]
pub enum CommitOutcome {
    /// The row had not moved; the write landed.
    Applied(Reservation),
    /// The reservation is refused for good.
    Refused(ReserveError),
    /// Somebody committed since the read; nothing was written.
    Moved,
}

pub struct Store {
    entries: StockTable,
    think_ms: u64,
    retries: u32,
}

/// What `read` answers for `product` in `table`, on attempt `attempt`.
pub open spec fn read_post(
    table: Map<Seq<char>, Entry>,
    product: Seq<char>,
    expected_version: Option<u64>,
    attempt: u32,
    r: Result<Entry, ReserveError>,
) -> bool {
    match lookup(table, product) {
        None => r matches Err(ReserveError::UnknownProduct(name)) && name@ == product,
        Some(e) => match expected_version {
            Some(v) if v != e.version => r matches Err(ReserveError::Conflict { product: name, attempts })
                && name@ == product && attempts == attempt,
            _ => r == Ok::<Entry, ReserveError>(e),
        },
    }
}

/// Whether a commit of `units` on `snapshot` stays within what a version
/// count can hold: only a commit that writes (the stock covers it and the
/// row has not moved) bumps the version.
pub open spec fn commit_in_range(before: Map<Seq<char>, Entry>, product: Seq<char>, units: u64, snapshot: Entry) -> bool {
    (units <= snapshot.units && before.contains_key(product) && before[product].version == snapshot.version)
        ==> snapshot.version < u64::MAX
}

/// What `try_commit` does: decide on the snapshot, then write only over a
/// row whose version is still the snapshot's.
pub open spec fn try_commit_post(
    before: Map<Seq<char>, Entry>,
    product: Seq<char>,
    units: u64,
    snapshot: Entry,
    attempt: u32,
    after: Map<Seq<char>, Entry>,
    r: CommitOutcome,
) -> bool {
    if snapshot.units < units {
        &&& r matches CommitOutcome::Refused(ReserveError::Insufficient { available, requested })
        &&& available == snapshot.units && requested == units
        &&& after == before
    } else if !before.contains_key(product) {
        &&& r matches CommitOutcome::Refused(ReserveError::UnknownProduct(name)) && name@ == product
        &&& after == before
    } else if before[product].version != snapshot.version {
        &&& r is Moved
        &&& after == before
    } else {
        let row = Entry { units: (snapshot.units - units) as u64, version: (snapshot.version + 1) as u64 };
        &&& r matches CommitOutcome::Applied(res) && res.reserved == units && res.available == row.units
            && res.version == row.version && res.attempts == attempt
        &&& after == before.insert(product, row)
    }
}

impl View for Store {
    type V = Map<Seq<char>, Entry>;

    closed spec fn view(&self) -> Map<Seq<char>, Entry> {
        self.entries@
    }
}

impl Store {
    pub closed spec fn think(&self) -> u64 {
        self.think_ms
    }

    pub closed spec fn retry_limit(&self) -> u32 {
        self.retries
    }

    /// An empty store that thinks for `think_ms` per attempt and starts over
    /// at most `retries` times before reporting a conflict.
    pub fn new(think_ms: u64, retries: u32) -> (s: Self)
        ensures
            s@ == Map::<Seq<char>, Entry>::empty(),
            s.think() == think_ms,
            s.retry_limit() == retries,
    {
        Store { entries: StockTable::new(), think_ms, retries }
    }

    pub fn think_ms(&self) -> (ms: u64)
        ensures
            ms == self.think(),
    {
        self.think_ms
    }

    /// Resets `product` to `units` units at version 0.
    pub fn seed(&mut self, product: &str, units: u64) -> (e: Entry)
        ensures
            e == (Entry { units, version: 0 }),
            final(self)@ == old(self)@.insert(product@, e),
            final(self).think() == old(self).think(),
            final(self).retry_limit() == old(self).retry_limit(),
    {
        let e = Entry { units, version: 0 };
        self.entries.put(product, e);
        e
    }

    pub fn get(&self, product: &str) -> (r: Option<Entry>)
        ensures
            r == lookup(self@, product@),
    {
        self.entries.get(product)
    }

    /// How many attempts a reservation gets: one when the client pinned a
    /// version (it asked to be told about conflicts), else one plus the
    /// retry limit.
    pub fn budget(&self, expected_version: Option<u64>) -> (b: u32)
        requires
            expected_version is None ==> self.retry_limit() < u32::MAX,
        ensures
            b == if expected_version is Some { 1 } else { self.retry_limit() + 1 },
            b == budget_for(self.retry_limit(), expected_version),
    {
        if expected_version.is_some() {
            1
        } else {
            self.retries + 1
        }
    }

    /// The read at the start of attempt `attempt`. A pinned version that is
    /// no longer current is a conflict, reported before any thinking.
    pub fn read(&self, product: &str, expected_version: Option<u64>, attempt: u32) -> (r: Result<
        Entry,
        ReserveError,
    >)
        ensures
            read_post(self@, product@, expected_version, attempt, r),
    {
        match self.entries.get(product) {
            None => Err(ReserveError::UnknownProduct(String::from_str(product))),
            Some(snapshot) => {
                if let Some(expected) = expected_version {
                    if expected != snapshot.version {
                        return Err(
                            ReserveError::Conflict {
                                product: String::from_str(product),
                                attempts: attempt,
                            },
                        );
                    }
                }
                Ok(snapshot)
            },
        }
    }

    /// The end of an attempt, after the think: decide on the snapshot, then
    /// compare the row's version with the snapshot's and swap in the new
    /// total only if they match.
    pub fn try_commit(&mut self, product: &str, units: u64, snapshot: Entry, attempt: u32) -> (r:
        CommitOutcome)
        requires
            commit_in_range(old(self)@, product@, units, snapshot),
        ensures
            try_commit_post(old(self)@, product@, units, snapshot, attempt, final(self)@, r),
            final(self).think() == old(self).think(),
            final(self).retry_limit() == old(self).retry_limit(),
    {
        if snapshot.units < units {
            return CommitOutcome::Refused(
                ReserveError::Insufficient { available: snapshot.units, requested: units },
            );
        }
        match self.entries.get(product) {
            None => CommitOutcome::Refused(ReserveError::UnknownProduct(String::from_str(product))),
            Some(slot) => {
                if slot.version != snapshot.version {
                    CommitOutcome::Moved
                } else {
                    let row = Entry { units: snapshot.units - units, version: snapshot.version + 1 };
                    self.entries.put(product, row);
                    CommitOutcome::Applied(
                        Reservation {
                            reserved: units,
                            available: row.units,
                            version: row.version,
                            attempts: attempt,
                        },
                    )
                }
            },
        }
    }
}

/// After attempt `attempt` found the row moved: the next attempt's number,
/// or, with the budget spent, the conflict the caller is told about.
pub fn next_attempt(product: &str, attempt: u32, budget: u32) -> (r: Result<u32, ReserveError>)
    ensures
        attempt < budget ==> r == Ok::<u32, ReserveError>((attempt + 1) as u32),
        attempt >= budget ==> (r matches Err(ReserveError::Conflict { product: name, attempts })
            && name@ == product@ && attempts == budget),
        next_attempt_post(product@, attempt, budget, r),
{
    if attempt < budget {
        Ok(attempt + 1)
    } else {
        Err(ReserveError::Conflict { product: String::from_str(product), attempts: budget })
    }
}

/// A uniformly random number of milliseconds in `0..=base`.
///
/// Calls `rand::thread_rng().gen_range(0..=base)`; the range is never empty,
/// and the contract claims only that the result lies in it.
#[verifier::external_body]
fn jitter_ms(base: u64) -> (r: u64)
    ensures
        r <= base,
{
    rand::thread_rng().gen_range(0..=base)
}

/// The exponential part of the backoff before attempt `attempt`:
/// 1, 2, 4, 8, 16, then 32 from the sixth attempt on.
pub open spec fn backoff_base(attempt: u32) -> u64 {
    if attempt >= 6 { 32 } else if attempt == 5 { 16 } else if attempt == 4 { 8 }
    else if attempt == 3 { 4 } else if attempt == 2 { 2 } else { 1 }
}

/// The exponential part of the backoff before attempt `attempt`: the
/// upper end of the jitter drawn for it.
fn backoff_base_ms(attempt: u32) -> (b: u64)
    requires
        attempt >= 1,
    ensures
        b == backoff_base(attempt),
{
    let capped: u32 = if attempt < 6 { attempt } else { 6 };
    let base: u64 = 1u64 << ((capped - 1) as u64);
    assert(base == backoff_base(attempt)) by (bit_vector)
        requires
            1 <= capped <= 6,
            capped == (if attempt < 6 { attempt } else { 6 }),
            base == 1u64 << ((capped - 1) as u64),
            backoff_base(attempt) == (if attempt >= 6 { 32u64 } else if attempt == 5 { 16u64 } else if attempt == 4 { 8u64 }
                else if attempt == 3 { 4u64 } else if attempt == 2 { 2u64 } else { 1u64 }),
    ;
    base
}

/// The wait before attempt `attempt`, given the jitter drawn for it: the
/// exponential base plus the jitter.
pub fn backoff_from(attempt: u32, jitter: u64) -> (ms: u64)
    requires
        attempt >= 1,
        jitter <= backoff_base(attempt),
    ensures
        ms == backoff_base(attempt) + jitter,
{
    backoff_base_ms(attempt) + jitter
}

/// How long to wait before attempt `attempt`: the exponential base plus a
/// jitter drawn uniformly from zero up to the base, so losers of one
/// conflict do not all collide again at the same instant. The jitter is
/// drawn over exactly `0..=backoff_base(attempt)`.
pub fn backoff_ms(attempt: u32) -> (ms: u64)
    requires
        attempt >= 1,
    ensures
        backoff_base(attempt) <= ms <= 2 * backoff_base(attempt),
{
    let base = backoff_base_ms(attempt);
    let jitter = jitter_ms(base);
    backoff_from(attempt, jitter)
}

/// Law: a reservation whose commit follows its read with nothing in between
/// never sees its row move, so uncontended requests never retry; it is
/// applied exactly when the stock covers it, and takes what it hands out.
pub proof fn law_uncontended_commit_never_retries(
    before: Map<Seq<char>, Entry>,
    product: Seq<char>,
    units: u64,
    expected_version: Option<u64>,
    attempt: u32,
    snapshot: Entry,
    after: Map<Seq<char>, Entry>,
    r: CommitOutcome,
)
    requires
        read_post(before, product, expected_version, attempt, Ok(snapshot)),
        try_commit_post(before, product, units, snapshot, attempt, after, r),
    ensures
        !(r is Moved),
        r is Applied <==> units <= before[product].units,
        r is Applied ==> after[product].units + units == before[product].units,
        !(r is Applied) ==> after == before,
{
}

/// Law: of two reservations that read the same row, at most one write
/// lands. Once the first is applied, the second finds the row moved and
/// changes nothing.
pub proof fn law_one_writer_wins_a_round(
    s0: Map<Seq<char>, Entry>,
    product: Seq<char>,
    units: u64,
    snapshot: Entry,
    attempt: u32,
    s1: Map<Seq<char>, Entry>,
    r1: CommitOutcome,
    s2: Map<Seq<char>, Entry>,
    r2: CommitOutcome,
)
    requires
        read_post(s0, product, None, attempt, Ok(snapshot)),
        snapshot.version < u64::MAX,
        try_commit_post(s0, product, units, snapshot, attempt, s1, r1),
        r1 is Applied,
        try_commit_post(s1, product, units, snapshot, attempt, s2, r2),
    ensures
        r2 is Moved,
        s2 == s1,
        s1[product].units + units == s0[product].units,
{
}

/// Every row that `before` holds is still in `after`, either unchanged or
/// at a strictly later version.
pub open spec fn moves_forward(before: Map<Seq<char>, Entry>, after: Map<Seq<char>, Entry>) -> bool {
    forall|p: Seq<char>| #[trigger] before.contains_key(p) ==> after.contains_key(p) && (after[p]
        == before[p] || after[p].version > before[p].version)
}

/// `after` is what some commit, by any reservation, left of `before`.
pub open spec fn some_commit(before: Map<Seq<char>, Entry>, after: Map<Seq<char>, Entry>) -> bool {
    exists|q: Seq<char>, k: u64, s: Entry, a: u32, o: CommitOutcome|
        commit_in_range(before, q, k, s) && #[trigger] try_commit_post(before, q, k, s, a, after, o)
}

proof fn lemma_commit_moves_forward(before: Map<Seq<char>, Entry>, after: Map<Seq<char>, Entry>)
    requires
        some_commit(before, after),
    ensures
        moves_forward(before, after),
{
    let (q, k, s, a, o) = choose|q: Seq<char>, k: u64, s: Entry, a: u32, o: CommitOutcome|
        commit_in_range(before, q, k, s) && #[trigger] try_commit_post(before, q, k, s, a, after, o);
    assert forall|p: Seq<char>| #[trigger] before.contains_key(p) implies after.contains_key(p) && (
    after[p] == before[p] || after[p].version > before[p].version) by {
        if p == q && after != before {
            assert(after[p].version == s.version + 1);
        }
    }
}

proof fn lemma_moves_forward_trace(trace: Seq<Map<Seq<char>, Entry>>, n: int)
    requires
        1 <= n <= trace.len(),
        forall|i: int| 0 <= i < trace.len() - 1 ==> some_commit(#[trigger] trace[i], trace[i + 1]),
    ensures
        moves_forward(trace[0], trace[n - 1]),
    decreases n,
{
    if n > 1 {
        lemma_moves_forward_trace(trace, n - 1);
        lemma_commit_moves_forward(trace[n - 2], trace[n - 1]);
    }
}

/// Law: other reservations may commit between a read and the commit that
/// follows it, but every commit that lands bumps the version. So a commit
/// whose version check passes writes over exactly the row that was read,
/// and takes exactly the units it hands out. (`trace` is the store from the
/// read on, one state per commit by anybody.)
pub proof fn law_applied_commit_acts_on_what_was_read(
    trace: Seq<Map<Seq<char>, Entry>>,
    product: Seq<char>,
    units: u64,
    expected_version: Option<u64>,
    attempt: u32,
    snapshot: Entry,
    after: Map<Seq<char>, Entry>,
    r: CommitOutcome,
)
    requires
        trace.len() >= 1,
        read_post(trace[0], product, expected_version, attempt, Ok(snapshot)),
        forall|i: int| 0 <= i < trace.len() - 1 ==> some_commit(#[trigger] trace[i], trace[i + 1]),
        try_commit_post(trace.last(), product, units, snapshot, attempt, after, r),
        r is Applied,
    ensures
        trace.last()[product] == trace[0][product],
        after[product].units + units == trace.last()[product].units,
{
    lemma_moves_forward_trace(trace, trace.len() as int);
}

/// One compare-and-swap in a run: the units it asked for, the snapshot it
/// had read, its attempt number, and what the commit came to.
pub struct CommitStep {
    pub units: u64,
    pub snapshot: Entry,
    pub attempt: u32,
    pub outcome: CommitOutcome,
}

/// The units handed out by the applied commits of `steps`.
pub open spec fn units_granted(steps: Seq<CommitStep>) -> int
    decreases steps.len(),
{
    if steps.len() == 0 {
        0
    } else {
        units_granted(steps.drop_last()) + if steps.last().outcome is Applied { steps.last().units as int } else { 0 }
    }
}

/// How many commits of `steps` were applied.
pub open spec fn commits_applied(steps: Seq<CommitStep>) -> int
    decreases steps.len(),
{
    if steps.len() == 0 {
        0
    } else {
        commits_applied(steps.drop_last()) + if steps.last().outcome is Applied { 1int } else { 0 }
    }
}

/// Whether `trace` is the row `product` going through the commits `steps`,
/// each on a snapshot read at some earlier point of the run.
pub open spec fn commit_run(trace: Seq<Map<Seq<char>, Entry>>, product: Seq<char>, steps: Seq<CommitStep>) -> bool {
    &&& trace.len() == steps.len() + 1
    &&& trace[0].contains_key(product)
    &&& forall|i: int| 0 <= i < steps.len() ==> {
        &&& commit_in_range(trace[i], product, #[trigger] steps[i].units, steps[i].snapshot)
        &&& try_commit_post(trace[i], product, steps[i].units, steps[i].snapshot, steps[i].attempt, trace[i + 1], steps[i].outcome)
        &&& exists|j: int| 0 <= j <= i && #[trigger] trace[j][product] == steps[i].snapshot
    }
}

proof fn lemma_commit_run_prefix(trace: Seq<Map<Seq<char>, Entry>>, product: Seq<char>, steps: Seq<CommitStep>, n: int)
    requires
        commit_run(trace, product, steps),
        0 <= n <= steps.len(),
    ensures
        trace[n].contains_key(product),
        units_granted(steps.take(n)) == trace[0][product].units - trace[n][product].units,
        trace[n][product].version == trace[0][product].version + commits_applied(steps.take(n)),
        forall|j: int| 0 <= j <= n ==> (#[trigger] trace[j][product]).version <= trace[n][product].version
            && (trace[j][product].version == trace[n][product].version ==> trace[j][product] == trace[n][product]),
    decreases n,
{
    if n == 0 {
        assert(steps.take(0) =~= Seq::<CommitStep>::empty());
    } else {
        let m = n - 1;
        lemma_commit_run_prefix(trace, product, steps, m);
        assert(steps.take(n).drop_last() =~= steps.take(m));
        assert(steps.take(n).last() == steps[m]);
        let st = steps[m];
        let before = trace[m];
        let after = trace[n];
        assert(commit_in_range(trace[m], product, steps[m].units, st.snapshot));
        assert(try_commit_post(before, product, st.units, st.snapshot, st.attempt, after, st.outcome));
        let j0 = choose|j: int| 0 <= j <= m && #[trigger] trace[j][product] == steps[m].snapshot;
        if st.outcome is Applied {
            assert(trace[j0][product].version == before[product].version);
            assert(st.snapshot == before[product]);
        }
    }
}

/// Law: over a whole run of optimistic reservations on one product, in any
/// interleaving of their reads and commits, the units handed out equal the
/// units that left the shelf, and the row's version counts exactly the
/// commits that landed. Nothing is oversold, however many callers race.
pub proof fn law_no_oversell_over_a_run(trace: Seq<Map<Seq<char>, Entry>>, product: Seq<char>, steps: Seq<CommitStep>)
    requires
        commit_run(trace, product, steps),
    ensures
        units_granted(steps) == trace[0][product].units - trace.last()[product].units,
        trace.last()[product].version == trace[0][product].version + commits_applied(steps),
{
    lemma_commit_run_prefix(trace, product, steps, steps.len() as int);
    assert(steps.take(steps.len() as int) =~= steps);
}

/// How many attempts a reservation gets: one when the client pinned a
/// version, else one plus the retry limit.
pub open spec fn budget_for(retries: u32, expected_version: Option<u64>) -> int {
    if expected_version is Some { 1 } else { retries as int + 1 }
}

/// What `next_attempt` answers after attempt `attempt` found the row moved.
pub open spec fn next_attempt_post(product: Seq<char>, attempt: u32, budget: u32, r: Result<u32, ReserveError>) -> bool {
    &&& attempt < budget ==> r == Ok::<u32, ReserveError>((attempt + 1) as u32)
    &&& attempt >= budget ==> (r matches Err(ReserveError::Conflict { product: name, attempts })
        && name@ == product && attempts == budget)
}

/// One attempt of a reservation: its number, what its read gave, what its
/// commit came to (when the read succeeded), and, when the row had moved,
/// the next attempt's number or the conflict reported instead.
pub struct AttemptStep {
    pub attempt: u32,
    pub read: Result<Entry, ReserveError>,
    pub outcome: CommitOutcome,
    pub retry: Result<u32, ReserveError>,
}

/// Whether the reservation goes on to another attempt after `st`.
pub open spec fn goes_on(st: AttemptStep) -> bool {
    st.read is Ok && st.outcome is Moved && st.retry is Ok
}

/// Whether `steps` are the attempts of one reservation of `units` of
/// `product`, each reading and committing on whatever the store held at
/// that moment (`reads[i]`, `commits[i]`, leaving `afters[i]`), however
/// other reservations interleave with it.
pub open spec fn reservation_attempts(
    product: Seq<char>,
    units: u64,
    expected_version: Option<u64>,
    retries: u32,
    steps: Seq<AttemptStep>,
    reads: Seq<Map<Seq<char>, Entry>>,
    commits: Seq<Map<Seq<char>, Entry>>,
    afters: Seq<Map<Seq<char>, Entry>>,
) -> bool {
    &&& steps.len() >= 1
    &&& reads.len() == steps.len() && commits.len() == steps.len() && afters.len() == steps.len()
    &&& steps[0].attempt == 1
    &&& forall|i: int| 0 <= i < steps.len() ==> read_post(reads[i], product, expected_version, (#[trigger] steps[i]).attempt, steps[i].read)
    &&& forall|i: int| 0 <= i < steps.len() ==> ((#[trigger] steps[i]).read matches Ok(snapshot)
        ==> try_commit_post(commits[i], product, units, snapshot, steps[i].attempt, afters[i], steps[i].outcome))
    &&& forall|i: int| 0 <= i < steps.len() ==> ((#[trigger] steps[i]).read is Ok && steps[i].outcome is Moved
        ==> next_attempt_post(product, steps[i].attempt, budget_for(retries, expected_version) as u32, steps[i].retry))
    &&& forall|i: int| 0 <= i < steps.len() - 1 ==> goes_on(#[trigger] steps[i]) && steps[i + 1].attempt == steps[i].retry->Ok_0
    &&& !goes_on(steps.last())
}

/// The error the caller of a reservation is told, if any.
pub open spec fn reservation_error(steps: Seq<AttemptStep>) -> Option<ReserveError> {
    let st = steps.last();
    match st.read {
        Err(e) => Some(e),
        Ok(_) => match st.outcome {
            CommitOutcome::Applied(_) => None,
            CommitOutcome::Refused(e) => Some(e),
            CommitOutcome::Moved => match st.retry {
                Err(e) => Some(e),
                Ok(_) => None,
            },
        },
    }
}

/// Law: a conflict reports the attempt budget. However other reservations
/// interleave with one, if it ends in a conflict, the conflict says it was
/// tried exactly as many times as it was allowed: once when the client
/// pinned a version, one plus the retry limit otherwise.
pub proof fn law_conflicts_report_the_budget(
    product: Seq<char>,
    units: u64,
    expected_version: Option<u64>,
    retries: u32,
    steps: Seq<AttemptStep>,
    reads: Seq<Map<Seq<char>, Entry>>,
    commits: Seq<Map<Seq<char>, Entry>>,
    afters: Seq<Map<Seq<char>, Entry>>,
)
    requires
        expected_version is None ==> retries < u32::MAX,
        reservation_attempts(product, units, expected_version, retries, steps, reads, commits, afters),
    ensures
        reservation_error(steps) matches Some(ReserveError::Conflict { attempts, .. })
            ==> attempts == budget_for(retries, expected_version),
{
    let last = steps.len() - 1;
    let st = steps[last];
    assert(read_post(reads[last], product, expected_version, st.attempt, st.read));
    if st.read is Ok {
        let snapshot = st.read->Ok_0;
        assert(try_commit_post(commits[last], product, units, snapshot, st.attempt, afters[last], st.outcome));
        if st.outcome is Moved {
            assert(next_attempt_post(product, st.attempt, budget_for(retries, expected_version) as u32, st.retry));
        }
    } else if expected_version is Some {
        if steps.len() > 1 {
            let s0 = steps[0];
            assert(goes_on(s0));
            assert(next_attempt_post(product, s0.attempt, budget_for(retries, expected_version) as u32, s0.retry));
        }
        assert(last == 0);
    }
}


/// Law: the backoff base is one millisecond for the first attempt and
/// doubles with each attempt until it is capped at thirty-two; a wait is
/// never shorter than its base nor longer than twice it.
pub proof fn law_backoff_doubles_then_caps(attempt: u32, jitter: u64)
    requires
        attempt >= 1,
    ensures
        backoff_base(1) == 1,
        attempt < 6 ==> backoff_base((attempt + 1) as u32) == 2 * backoff_base(attempt),
        attempt >= 6 ==> backoff_base(attempt) == 32,
        jitter <= backoff_base(attempt) ==> backoff_base(attempt) <= backoff_base(attempt) + jitter
            <= 2 * backoff_base(attempt),
{
}

} // verus!
