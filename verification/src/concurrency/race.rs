//! The race-runner's logic: its command line, how one HTTP answer is
//! classified, and the books it keeps on a run. Sending the requests,
//! timing them and printing the report happen outside the library.

use vstd::prelude::*;
use crate::text::{debug_text, decimal, decimal_text, parse_u64, parse_usize, str_debug,
    trim_end_by, trim_trailing_slashes, unsigned_literal};

verus! {

/// The lab's four services, in the order `--target all` runs them.
pub open spec fn all_targets() -> Seq<Seq<char>> {
    seq!["http://localhost:3020"@, "http://localhost:3021"@, "http://localhost:3022"@, "http://localhost:3023"@]
}

/// The four default service addresses.
pub fn all_target_urls() -> (v: Vec<String>)
    ensures
        v@.map_values(|s: String| s@) == all_targets(),
{
    let mut v: Vec<String> = Vec::new();
    v.push(String::from_str("http://localhost:3020"));
    v.push(String::from_str("http://localhost:3021"));
    v.push(String::from_str("http://localhost:3022"));
    v.push(String::from_str("http://localhost:3023"));
    assert(v@.map_values(|s: String| s@) =~= all_targets());
    v
}

/// The run's settings.
pub struct Args {
    pub targets: Vec<String>,
    pub product: String,
    pub stock: u64,
    pub concurrency: usize,
    pub units: u64,
    pub products: usize,
    pub expect_version: bool,
}

/// `Args` with its strings read as character sequences.
pub struct ArgsModel {
    pub targets: Seq<Seq<char>>,
    pub product: Seq<char>,
    pub stock: u64,
    pub concurrency: usize,
    pub units: u64,
    pub products: usize,
    pub expect_version: bool,
}

impl Args {
    pub open spec fn model(&self) -> ArgsModel {
        ArgsModel {
            targets: self.targets@.map_values(|s: String| s@),
            product: self.product@,
            stock: self.stock,
            concurrency: self.concurrency,
            units: self.units,
            products: self.products,
            expect_version: self.expect_version,
        }
    }
}

/// The settings a run starts from before any flag is read.
pub open spec fn default_model() -> ArgsModel {
    ArgsModel {
        targets: seq![all_targets()[0]],
        product: "mug"@,
        stock: 100,
        concurrency: 60,
        units: 2,
        products: 1,
        expect_version: false,
    }
}

impl Default for Args {
    fn default() -> (a: Self)
        ensures
            a.model() == default_model(),
    {
        let mut targets: Vec<String> = Vec::new();
        targets.push(String::from_str("http://localhost:3020"));
        let a = Args {
            targets,
            product: String::from_str("mug"),
            stock: 100,
            concurrency: 60,
            units: 2,
            products: 1,
            expect_version: false,
        };
        assert(a.model().targets =~= default_model().targets);
        a
    }
}

/// The command-line arguments still to be read, in order.
pub struct ArgStream {
    items: Vec<String>,
    pos: usize,
}

impl ArgStream {
    /// The arguments from `pos` on.
    pub closed spec fn rest(&self) -> Seq<Seq<char>> {
        self.items@.subrange(self.pos as int, self.items@.len() as int).map_values(|s: String| s@)
    }

    pub closed spec fn wf(&self) -> bool {
        self.pos <= self.items@.len()
    }

    /// A stream over `items`, first to last.
    pub fn new(items: Vec<String>) -> (s: Self)
        ensures
            s.wf(),
            s.rest() == items@.map_values(|x: String| x@),
    {
        let s = ArgStream { items, pos: 0 };
        assert(s.items@.subrange(0, s.items@.len() as int) =~= s.items@);
        s
    }

    /// The next argument, if any is left.
    pub fn next(&mut self) -> (r: Option<String>)
        requires
            old(self).wf(),
        ensures
            final(self).wf(),
            old(self).rest().len() == 0 ==> r is None && final(self).rest() == old(self).rest(),
            old(self).rest().len() > 0 ==> (r matches Some(s) && s@ == old(self).rest()[0])
                && final(self).rest() == old(self).rest().drop_first(),
    {
        if self.pos < self.items.len() {
            let s = self.items[self.pos].clone();
            proof {
                let old_rest = self.rest();
                assert(old_rest[0] == self.items@[self.pos as int]@);
            }
            let ghost before = self.rest();
            self.pos = self.pos + 1;
            assert(self.rest() =~= before.drop_first());
            Some(s)
        } else {
            None
        }
    }
}

/// "`flag` needs a value"
pub open spec fn needs_value_message(flag: Seq<char>) -> Seq<char> {
    "`"@ + flag + "` needs a value"@
}

/// "`flag` must be a number, got \"raw\""
pub open spec fn not_a_number_message(flag: Seq<char>, raw: Seq<char>) -> Seq<char> {
    "`"@ + flag + "` must be a number, got "@ + str_debug(raw)
}

/// "unknown option `flag`"
pub open spec fn unknown_option_message(flag: Seq<char>) -> Seq<char> {
    "unknown option `"@ + flag + "`"@
}

pub open spec fn zero_setting_message() -> Seq<char> {
    "`--concurrency`, `--products` and `--units` must be greater than zero"@
}

/// Pulls the value that follows `flag`, or says which flag was left dangling.
pub fn next_value(raw: &mut ArgStream, flag: &str) -> (r: Result<String, String>)
    requires
        old(raw).wf(),
    ensures
        final(raw).wf(),
        old(raw).rest().len() > 0 ==> (r matches Ok(v) && v@ == old(raw).rest()[0])
            && final(raw).rest() == old(raw).rest().drop_first(),
        old(raw).rest().len() == 0 ==> (r matches Err(m) && m@ == needs_value_message(flag@))
            && final(raw).rest() == old(raw).rest(),
{
    match raw.next() {
        Some(v) => Ok(v),
        None => {
            let mut m = String::from_str("`");
            m.append(flag);
            m.append("` needs a value");
            Err(m)
        },
    }
}

fn not_a_number(raw: &str, flag: &str) -> (m: String)
    ensures
        m@ == not_a_number_message(flag@, raw@),
{
    let mut m = String::from_str("`");
    m.append(flag);
    m.append("` must be a number, got ");
    let shown = debug_text(raw);
    m.append(shown.as_str());
    m
}

/// Parses the value of a numeric flag; a failure names the flag.
pub fn parse_number(raw: &str, flag: &str) -> (r: Result<u64, String>)
    ensures
        r matches Ok(n) ==> unsigned_literal(raw@) == Some(n as nat),
        r is Err <==> (unsigned_literal(raw@) is None || unsigned_literal(raw@).unwrap() > u64::MAX),
        r matches Err(m) ==> m@ == not_a_number_message(flag@, raw@),
{
    match parse_u64(raw) {
        Some(n) => Ok(n),
        None => Err(not_a_number(raw, flag)),
    }
}

/// Parses the value of a count flag (`--concurrency`, `--products`); a
/// failure names the flag.
pub fn parse_count(raw: &str, flag: &str) -> (r: Result<usize, String>)
    ensures
        r matches Ok(n) ==> unsigned_literal(raw@) == Some(n as nat),
        r is Err <==> (unsigned_literal(raw@) is None || unsigned_literal(raw@).unwrap() > usize::MAX),
        r matches Err(m) ==> m@ == not_a_number_message(flag@, raw@),
{
    match parse_usize(raw) {
        Some(n) => Ok(n),
        None => Err(not_a_number(raw, flag)),
    }
}

/// What the command line asks for.
pub enum Invocation {
    /// Print the usage text and stop.
    Help,
    /// Run with these settings.
    Run(Args),
}

/// What the command line asks for, as a model.
pub enum InvocationModel {
    Help,
    Run(ArgsModel),
    Failed(Seq<char>),
}

/// The settings once every flag has been read: the three counts must be
/// positive.
pub open spec fn finish_model(a: ArgsModel) -> InvocationModel {
    if a.concurrency == 0 || a.products == 0 || a.units == 0 {
        InvocationModel::Failed(zero_setting_message())
    } else {
        InvocationModel::Run(a)
    }
}

/// Reading `rest` flag by flag, starting from the settings `a`.
pub open spec fn parse_model(a: ArgsModel, rest: Seq<Seq<char>>) -> InvocationModel
    decreases rest.len(),
{
    if rest.len() == 0 {
        finish_model(a)
    } else {
        let flag = rest[0];
        let tail = rest.drop_first();
        if flag == "-h"@ || flag == "--help"@ {
            InvocationModel::Help
        } else if flag == "--expect-version"@ {
            parse_model(ArgsModel { expect_version: true, ..a }, tail)
        } else if flag == "--target"@ || flag == "--product"@ || flag == "--stock"@
            || flag == "--concurrency"@ || flag == "--units"@ || flag == "--products"@ {
            if tail.len() == 0 {
                InvocationModel::Failed(needs_value_message(flag))
            } else {
                let v = tail[0];
                let next = tail.drop_first();
                if flag == "--target"@ {
                    let targets = if v == "all"@ {
                        all_targets()
                    } else {
                        seq![trim_end_by(v, |c: char| c == '/')]
                    };
                    parse_model(ArgsModel { targets, ..a }, next)
                } else if flag == "--product"@ {
                    parse_model(ArgsModel { product: v, ..a }, next)
                } else {
                    match unsigned_literal(v) {
                        Some(n) => {
                            if flag == "--stock"@ && n <= u64::MAX {
                                parse_model(ArgsModel { stock: n as u64, ..a }, next)
                            } else if flag == "--units"@ && n <= u64::MAX {
                                parse_model(ArgsModel { units: n as u64, ..a }, next)
                            } else if flag == "--concurrency"@ && n <= usize::MAX {
                                parse_model(ArgsModel { concurrency: n as usize, ..a }, next)
                            } else if flag == "--products"@ && n <= usize::MAX {
                                parse_model(ArgsModel { products: n as usize, ..a }, next)
                            } else {
                                InvocationModel::Failed(not_a_number_message(flag, v))
                            }
                        },
                        None => InvocationModel::Failed(not_a_number_message(flag, v)),
                    }
                }
            }
        } else {
            InvocationModel::Failed(unknown_option_message(flag))
        }
    }
}

/// Whether `r` is what the model says reading the command line comes to.
pub open spec fn parse_matches(r: Result<Invocation, String>, m: InvocationModel) -> bool {
    match m {
        InvocationModel::Help => r matches Ok(Invocation::Help),
        InvocationModel::Run(a) => r matches Ok(Invocation::Run(args)) && args.model() == a,
        InvocationModel::Failed(msg) => r matches Err(e) && e@ == msg,
    }
}

fn is_flag(s: &String, lit: &str) -> (r: bool)
    ensures
        r == (s@ == lit@),
{
    *s == String::from_str(lit)
}

/// Reads the command line (without the program name).
pub fn parse_args(raw: ArgStream) -> (r: Result<Invocation, String>)
    requires
        raw.wf(),
    ensures
        parse_matches(r, parse_model(default_model(), raw.rest())),
{
    let mut stream = raw;
    let mut args = Args::default();
    let ghost goal = parse_model(default_model(), stream.rest());
    loop
        invariant
            stream.wf(),
            goal == parse_model(default_model(), raw.rest()),
            parse_model(args.model(), stream.rest()) == goal,
        ensures
            stream.rest().len() == 0,
            parse_model(args.model(), stream.rest()) == goal,
        decreases stream.rest().len(),
    {
        let ghost before = stream.rest();
        proof {
            reveal_strlit("-h");
            reveal_strlit("--help");
            reveal_strlit("--expect-version");
            reveal_strlit("--target");
            reveal_strlit("--product");
            reveal_strlit("--stock");
            reveal_strlit("--concurrency");
            reveal_strlit("--units");
            reveal_strlit("--products");
            reveal_strlit("all");
            assert("-h"@.len() == 2 && "--help"@.len() == 6 && "--expect-version"@.len() == 16);
            assert("--target"@.len() == 8 && "--product"@.len() == 9 && "--stock"@.len() == 7);
            assert("--concurrency"@.len() == 13 && "--units"@.len() == 7 && "--products"@.len() == 10);
        }
        let flag = match stream.next() {
            Some(f) => f,
            None => break,
        };
        let ghost a = args.model();
        let ghost tail = stream.rest();
        assert(before[0] == flag@);
        if is_flag(&flag, "-h") || is_flag(&flag, "--help") {
            assert(parse_model(a, before) == InvocationModel::Help);
            return Ok(Invocation::Help);
        } else if is_flag(&flag, "--expect-version") {
            args.expect_version = true;
            assert(args.model() == (ArgsModel { expect_version: true, ..a }));
        } else if is_flag(&flag, "--target") {
            let value = match next_value(&mut stream, flag.as_str()) { Ok(v) => v, Err(e) => return Err(e) };
            if is_flag(&value, "all") {
                args.targets = all_target_urls();
            } else {
                let trimmed = trim_trailing_slashes(value.as_str());
                let mut t: Vec<String> = Vec::new();
                t.push(String::from_str(trimmed));
                assert(t@.map_values(|s: String| s@) =~= seq![trim_end_by(value@, |c: char| c == '/')]);
                args.targets = t;
            }
            assert(args.model().targets == (if value@ == "all"@ { all_targets() } else { seq![trim_end_by(value@, |c: char| c == '/')] }));
        } else if is_flag(&flag, "--product") {
            let v = match next_value(&mut stream, flag.as_str()) { Ok(v) => v, Err(e) => return Err(e) };
            args.product = v;
            assert(args.model() == (ArgsModel { product: v@, ..a }));
        } else if is_flag(&flag, "--stock") {
            let value = match next_value(&mut stream, flag.as_str()) { Ok(v) => v, Err(e) => return Err(e) };
            let n = match parse_number(value.as_str(), flag.as_str()) { Ok(n) => n, Err(e) => return Err(e) };
            args.stock = n;
            assert(args.model() == (ArgsModel { stock: n, ..a }));
        } else if is_flag(&flag, "--concurrency") {
            let value = match next_value(&mut stream, flag.as_str()) { Ok(v) => v, Err(e) => return Err(e) };
            let n = match parse_count(value.as_str(), flag.as_str()) {
                Ok(n) => n,
                Err(e) => {
                    assert(parse_model(a, before) == InvocationModel::Failed(not_a_number_message(flag@, value@)));
                    return Err(e);
                },
            };
            args.concurrency = n;
            assert(args.model() == (ArgsModel { concurrency: n, ..a }));
        } else if is_flag(&flag, "--units") {
            let value = match next_value(&mut stream, flag.as_str()) { Ok(v) => v, Err(e) => return Err(e) };
            let n = match parse_number(value.as_str(), flag.as_str()) { Ok(n) => n, Err(e) => return Err(e) };
            args.units = n;
            assert(args.model() == (ArgsModel { units: n, ..a }));
        } else if is_flag(&flag, "--products") {
            let value = match next_value(&mut stream, flag.as_str()) { Ok(v) => v, Err(e) => return Err(e) };
            let n = match parse_count(value.as_str(), flag.as_str()) {
                Ok(n) => n,
                Err(e) => {
                    assert(parse_model(a, before) == InvocationModel::Failed(not_a_number_message(flag@, value@)));
                    return Err(e);
                },
            };
            args.products = n;
            assert(args.model() == (ArgsModel { products: n, ..a }));
        } else {
            let mut m = String::from_str("unknown option `");
            m.append(flag.as_str());
            m.append("`");
            return Err(m);
        }
    }
    if args.concurrency == 0 || args.products == 0 || args.units == 0 {
        return Err(String::from_str("`--concurrency`, `--products` and `--units` must be greater than zero"));
    }
    Ok(Invocation::Run(args))
}

/// What one reservation request came to, read off its HTTP answer.
#[derive(Debug, Clone)]
pub enum Outcome {
    /// 200: units were handed out.
    Granted,
    /// 409: the row moved and the request was refused, not applied.
    Conflict,
    /// 422: honestly out of stock.
    Rejected,
    /// 503: the service shed the request.
    Busy,
    /// Anything else, transport failures included.
    Error(String),
}

/// Reads an HTTP status as an outcome; an unexpected status is an error
/// that names it.
pub fn classify(status: u16) -> (o: Outcome)
    ensures
        status == 200 ==> o is Granted,
        status == 409 ==> o is Conflict,
        status == 422 ==> o is Rejected,
        status == 503 ==> o is Busy,
        status != 200 && status != 409 && status != 422 && status != 503 ==> (o matches Outcome::Error(m)
            && m@ == "HTTP "@ + decimal(status as nat)),
{
    if status == 200 {
        Outcome::Granted
    } else if status == 409 {
        Outcome::Conflict
    } else if status == 422 {
        Outcome::Rejected
    } else if status == 503 {
        Outcome::Busy
    } else {
        let mut m = String::from_str("HTTP ");
        let code = decimal_text(status as u128);
        m.append(code.as_str());
        Outcome::Error(m)
    }
}

/// The books on one run against one service.
pub struct Report {
    pub strategy: String,
    pub target: String,
    pub granted: usize,
    pub conflicts: usize,
    pub rejected: usize,
    pub busy: usize,
    pub errors: usize,
    pub first_error: Option<String>,
    pub units_granted: u64,
    pub units_consumed: u64,
    pub seeded: u64,
    pub left: u64,
    pub p50_ms: u128,
    pub p99_ms: u128,
    pub wall_ms: u128,
}

impl Report {
    /// Units sold that were never taken off the shelf: zero is the only
    /// acceptable value.
    pub fn oversold(&self) -> (n: u64)
        ensures
            n == (if self.units_granted > self.units_consumed {
                self.units_granted - self.units_consumed
            } else {
                0
            }),
    {
        self.units_granted.saturating_sub(self.units_consumed)
    }
}

/// How many elements of `s` satisfy `f`.
pub open spec fn count_where(s: Seq<Outcome>, f: spec_fn(Outcome) -> bool) -> nat
    decreases s.len(),
{
    if s.len() == 0 {
        0
    } else {
        count_where(s.drop_last(), f) + if f(s.last()) { 1nat } else { 0nat }
    }
}

proof fn lemma_count_where_bound(s: Seq<Outcome>, f: spec_fn(Outcome) -> bool)
    ensures
        count_where(s, f) <= s.len(),
    decreases s.len(),
{
    if s.len() > 0 {
        lemma_count_where_bound(s.drop_last(), f);
    }
}

fn count_matching(outcomes: &Vec<Outcome>, kind: u8) -> (n: usize)
    requires
        kind < 5,
    ensures
        n == count_where(outcomes@, |o: Outcome| outcome_kind(o) == kind),
{
    let ghost f = |o: Outcome| outcome_kind(o) == kind;
    let mut n: usize = 0;
    let mut i: usize = 0;
    while i < outcomes.len()
        invariant
            i <= outcomes@.len(),
            n == count_where(outcomes@.take(i as int), f),
            f == (|o: Outcome| outcome_kind(o) == kind),
        decreases outcomes@.len() - i,
    {
        proof {
            assert(outcomes@.take(i + 1).drop_last() =~= outcomes@.take(i as int));
            lemma_count_where_bound(outcomes@.take(i as int), f);
        }
        let k: u8 = match &outcomes[i] {
            Outcome::Granted => 0,
            Outcome::Conflict => 1,
            Outcome::Rejected => 2,
            Outcome::Busy => 3,
            Outcome::Error(_) => 4,
        };
        if k == kind {
            n = n + 1;
        }
        i = i + 1;
    }
    assert(outcomes@.take(outcomes@.len() as int) =~= outcomes@);
    n
}

/// How many of `outcomes` were granted: the count the books multiply by the
/// units each request asked for.
pub fn count_granted(outcomes: &Vec<Outcome>) -> (n: usize)
    ensures
        n == count_kind(outcomes@, 0),
{
    count_matching(outcomes, 0)
}

/// The kinds of outcome, numbered in declaration order.
pub open spec fn outcome_kind(o: Outcome) -> u8 {
    match o {
        Outcome::Granted => 0,
        Outcome::Conflict => 1,
        Outcome::Rejected => 2,
        Outcome::Busy => 3,
        Outcome::Error(_) => 4,
    }
}

/// How many of `s` came back as outcome kind `kind`.
pub open spec fn count_kind(s: Seq<Outcome>, kind: u8) -> nat {
    count_where(s, |o: Outcome| outcome_kind(o) == kind)
}

/// `s[j]` is an error with message `m`, and no earlier element is one.
pub open spec fn first_error_at(s: Seq<Outcome>, j: int, m: Seq<char>) -> bool {
    &&& 0 <= j < s.len()
    &&& s[j] matches Outcome::Error(e) && e@ == m
    &&& forall|k: int| 0 <= k < j ==> !(#[trigger] s[k] is Error)
}

/// The message of the first error among `outcomes`.
fn first_error(outcomes: &Vec<Outcome>) -> (r: Option<String>)
    ensures
        r is None <==> (forall|j: int| 0 <= j < outcomes@.len() ==> !(outcomes@[j] is Error)),
        r is Some ==> exists|j: int| #[trigger] first_error_at(outcomes@, j, r->Some_0@),
{
    let mut i: usize = 0;
    while i < outcomes.len()
        invariant
            i <= outcomes@.len(),
            forall|k: int| 0 <= k < i ==> !(outcomes@[k] is Error),
        decreases outcomes@.len() - i,
    {
        match &outcomes[i] {
            Outcome::Error(m) => {
                let found: String = m.clone();
                let ghost text: Seq<char> = found@;
                assert(first_error_at(outcomes@, i as int, text));
                let r = Some(found);
                assert(r->Some_0@ == text);
                return r;
            },
            _ => {},
        }
        i = i + 1;
    }
    None
}

/// Keeps the books on a finished run: counts each kind of answer, and sets
/// the units handed out against the units that left the shelf.
pub fn tally(
    strategy: String,
    target: String,
    outcomes: &Vec<Outcome>,
    units: u64,
    stock: u64,
    products: usize,
    left: u64,
    p50_ms: u128,
    p99_ms: u128,
    wall_ms: u128,
) -> (r: Report)
    requires
        count_kind(outcomes@, 0) * units <= u64::MAX,
        stock * products <= u64::MAX,
    ensures
        r.strategy == strategy,
        r.target == target,
        r.granted == count_kind(outcomes@, 0),
        r.conflicts == count_kind(outcomes@, 1),
        r.rejected == count_kind(outcomes@, 2),
        r.busy == count_kind(outcomes@, 3),
        r.errors == count_kind(outcomes@, 4),
        r.first_error is None <==> (forall|j: int| 0 <= j < outcomes@.len() ==> !(outcomes@[j] is Error)),
        r.first_error is Some ==> exists|j: int| #[trigger] first_error_at(outcomes@, j, r.first_error->Some_0@),
        r.units_granted == r.granted * units,
        r.seeded == stock * products,
        r.left == left,
        r.units_consumed == (if r.seeded > left { r.seeded - left } else { 0 }),
        r.p50_ms == p50_ms,
        r.p99_ms == p99_ms,
        r.wall_ms == wall_ms,
{
    let granted = count_matching(outcomes, 0);
    let conflicts = count_matching(outcomes, 1);
    let rejected = count_matching(outcomes, 2);
    let busy = count_matching(outcomes, 3);
    let errors = count_matching(outcomes, 4);
    let seeded = stock * (products as u64);
    Report {
        strategy,
        target,
        granted,
        conflicts,
        rejected,
        busy,
        errors,
        first_error: first_error(outcomes),
        units_granted: (granted as u64) * units,
        units_consumed: seeded.saturating_sub(left),
        seeded,
        left,
        p50_ms,
        p99_ms,
        wall_ms,
    }
}

/// The product keys a run uses: the product itself when there is one, else
/// `product-0`, `product-1`, and so on.
pub open spec fn product_names_spec(product: Seq<char>, products: nat) -> Seq<Seq<char>> {
    if products == 1 {
        seq![product]
    } else {
        Seq::new(products, |i: int| product + "-"@ + decimal(i as nat))
    }
}

/// The product keys for a run spread over `products` products.
pub fn product_names(product: &str, products: usize) -> (names: Vec<String>)
    ensures
        names@.map_values(|s: String| s@) == product_names_spec(product@, products as nat),
{
    let mut names: Vec<String> = Vec::new();
    if products == 1 {
        names.push(String::from_str(product));
        assert(names@.map_values(|s: String| s@) =~= product_names_spec(product@, products as nat));
        return names;
    }
    let mut i: usize = 0;
    while i < products
        invariant
            i <= products,
            products != 1,
            names@.len() == i,
            forall|j: int| 0 <= j < i ==> #[trigger] names@[j]@ == product@ + "-"@ + decimal(j as nat),
        decreases products - i,
    {
        let mut name = String::from_str(product);
        name.append("-");
        let index = decimal_text(i as u128);
        name.append(index.as_str());
        names.push(name);
        i = i + 1;
    }
    assert(names@.map_values(|s: String| s@) =~= product_names_spec(product@, products as nat));
    names
}


proof fn lemma_flag_names_differ()
    ensures
        "-h"@ != "--help"@, "-h"@ != "--expect-version"@, "-h"@ != "--target"@, "-h"@ != "--product"@,
        "-h"@ != "--stock"@, "-h"@ != "--concurrency"@, "-h"@ != "--units"@, "-h"@ != "--products"@,
        "--help"@ != "--expect-version"@, "--help"@ != "--target"@, "--help"@ != "--product"@,
        "--help"@ != "--stock"@, "--help"@ != "--concurrency"@, "--help"@ != "--units"@, "--help"@ != "--products"@,
        "--expect-version"@ != "--target"@, "--expect-version"@ != "--product"@, "--expect-version"@ != "--stock"@,
        "--expect-version"@ != "--concurrency"@, "--expect-version"@ != "--units"@, "--expect-version"@ != "--products"@,
        "--target"@ != "--product"@, "--target"@ != "--stock"@, "--target"@ != "--concurrency"@,
        "--target"@ != "--units"@, "--target"@ != "--products"@,
        "--product"@ != "--stock"@, "--product"@ != "--concurrency"@, "--product"@ != "--units"@,
        "--product"@ != "--products"@,
        "--stock"@ != "--concurrency"@, "--stock"@ != "--units"@, "--stock"@ != "--products"@,
        "--concurrency"@ != "--units"@, "--concurrency"@ != "--products"@,
        "--units"@ != "--products"@,
{
    reveal_strlit("-h");
    reveal_strlit("--help");
    reveal_strlit("--expect-version");
    reveal_strlit("--target");
    reveal_strlit("--product");
    reveal_strlit("--stock");
    reveal_strlit("--concurrency");
    reveal_strlit("--units");
    reveal_strlit("--products");
    assert("-h"@.len() == 2 && "--help"@.len() == 6 && "--expect-version"@.len() == 16);
    assert("--target"@.len() == 8 && "--product"@.len() == 9 && "--stock"@.len() == 7);
    assert("--concurrency"@.len() == 13 && "--units"@.len() == 7 && "--products"@.len() == 10);
    assert("--stock"@[2] == 's' && "--units"@[2] == 'u');
}

proof fn lemma_first_and_rest(x: Seq<char>, rest: Seq<Seq<char>>)
    ensures
        (seq![x] + rest).len() > 0,
        (seq![x] + rest)[0] == x,
        (seq![x] + rest).drop_first() == rest,
{
    assert((seq![x] + rest).drop_first() =~= rest);
}

/// Law: `--expect-version` takes no value. Whatever follows it on the
/// command line is read as it would be without it, with versions pinned.
pub proof fn law_expect_version_takes_no_value(a: ArgsModel, rest: Seq<Seq<char>>)
    ensures
        parse_model(a, seq!["--expect-version"@] + rest) == parse_model(ArgsModel { expect_version: true, ..a }, rest),
{
    lemma_flag_names_differ();
    lemma_first_and_rest("--expect-version"@, rest);
}

/// Law: help wins wherever it stands: `-h` or `--help` ends the reading
/// with a request for the usage text, whatever follows.
pub proof fn law_help_ends_the_reading(a: ArgsModel, rest: Seq<Seq<char>>)
    ensures
        parse_model(a, seq!["-h"@] + rest) == InvocationModel::Help,
        parse_model(a, seq!["--help"@] + rest) == InvocationModel::Help,
{
    lemma_first_and_rest("-h"@, rest);
    lemma_first_and_rest("--help"@, rest);
}

/// Law: each flag that takes a value takes exactly the one after it. The
/// product name is taken as given; a count that reads as a number in range
/// sets that setting; and the reading goes on with what follows the value.
pub proof fn law_value_flags_take_one_value(a: ArgsModel, v: Seq<char>, n: nat, rest: Seq<Seq<char>>)
    ensures
        parse_model(a, seq!["--product"@, v] + rest) == parse_model(ArgsModel { product: v, ..a }, rest),
        unsigned_literal(v) == Some(n) && n <= u64::MAX ==> parse_model(a, seq!["--stock"@, v] + rest)
            == parse_model(ArgsModel { stock: n as u64, ..a }, rest),
        unsigned_literal(v) == Some(n) && n <= u64::MAX ==> parse_model(a, seq!["--units"@, v] + rest)
            == parse_model(ArgsModel { units: n as u64, ..a }, rest),
        unsigned_literal(v) == Some(n) && n <= usize::MAX ==> parse_model(a, seq!["--concurrency"@, v] + rest)
            == parse_model(ArgsModel { concurrency: n as usize, ..a }, rest),
        unsigned_literal(v) == Some(n) && n <= usize::MAX ==> parse_model(a, seq!["--products"@, v] + rest)
            == parse_model(ArgsModel { products: n as usize, ..a }, rest),
        unsigned_literal(v) is None ==> parse_model(a, seq!["--stock"@, v] + rest)
            == InvocationModel::Failed(not_a_number_message("--stock"@, v)),
        parse_model(a, seq!["--stock"@]) == InvocationModel::Failed(needs_value_message("--stock"@)),
{
    lemma_flag_names_differ();
    let flags = seq!["--product"@, "--stock"@, "--units"@, "--concurrency"@, "--products"@];
    assert forall|k: int| 0 <= k < flags.len() implies ({
        let f = #[trigger] flags[k];
        let all = seq![f, v] + rest;
        &&& all.len() > 1 && all[0] == f && all.drop_first()[0] == v
        &&& all.drop_first().drop_first() == rest
    }) by {
        let f = flags[k];
        let all = seq![f, v] + rest;
        assert(all.drop_first().drop_first() =~= rest);
    }
    assert(flags[0] == "--product"@);
    assert(flags[1] == "--stock"@);
    assert(flags[2] == "--units"@);
    assert(flags[3] == "--concurrency"@);
    assert(flags[4] == "--products"@);
    assert(seq!["--stock"@].drop_first().len() == 0);
}


/// Law: the books count every answer once, under its own kind. Adding one
/// answer raises exactly the count of its kind by one and leaves the other
/// counts alone: a 200 is a grant, a 409 a conflict, a 422 a rejection, a
/// 503 a shed request, and anything else an error.
pub proof fn law_each_answer_counts_once(s: Seq<Outcome>, o: Outcome, kind: u8)
    ensures
        count_kind(s.push(o), kind) == count_kind(s, kind) + if outcome_kind(o) == kind { 1nat } else { 0nat },
        outcome_kind(o) == 0 <==> o is Granted,
        outcome_kind(o) == 1 <==> o is Conflict,
        outcome_kind(o) == 2 <==> o is Rejected,
        outcome_kind(o) == 3 <==> o is Busy,
        outcome_kind(o) == 4 <==> o is Error,
{
    assert(s.push(o).drop_last() =~= s);
}

} // verus!
