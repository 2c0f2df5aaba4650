//! The stock table every strategy in the lab shares: one row per product
//! name, holding the units left and a count of writes.

use vstd::prelude::*;

verus! {

/// One product's stock row. `version` counts writes since the row was seeded.
#[derive(Debug, Clone, Copy, Default)]
pub struct Entry {
    pub units: u64,
    pub version: u64,
}

/// What a lookup of `k` in `m` gives back.
pub open spec fn lookup<K, V>(m: Map<K, V>, k: K) -> Option<V> {
    if m.contains_key(k) {
        Some(m[k])
    } else {
        None
    }
}

/// Product name to stock row. Names are unique; the order of rows is the
/// order in which products were first seeded.
pub struct StockTable {
    rows: Vec<(String, Entry)>,
}

/// Whether no two rows carry the same name.
pub open spec fn distinct_names(rows: Seq<(String, Entry)>) -> bool {
    forall|i: int, j: int|
        0 <= i < rows.len() && 0 <= j < rows.len() && i != j ==> rows[i].0@ != rows[j].0@
}

/// The map that a row sequence with distinct names stands for.
pub open spec fn rows_map(rows: Seq<(String, Entry)>) -> Map<Seq<char>, Entry> {
    Map::new(
        |k: Seq<char>| exists|i: int| 0 <= i < rows.len() && rows[i].0@ == k,
        |k: Seq<char>| rows[choose|i: int| 0 <= i < rows.len() && rows[i].0@ == k].1,
    )
}

/// With distinct names, the row at `i` is what the map holds for its name.
proof fn lemma_rows_map_at(rows: Seq<(String, Entry)>, i: int)
    requires
        distinct_names(rows),
        0 <= i < rows.len(),
    ensures
        rows_map(rows).contains_key(rows[i].0@),
        rows_map(rows)[rows[i].0@] == rows[i].1,
{
    let k = rows[i].0@;
    assert(exists|j: int| 0 <= j < rows.len() && rows[j].0@ == k);
    let j = choose|j: int| 0 <= j < rows.len() && rows[j].0@ == k;
    assert(j == i);
}

/// Replacing the entry of row `i` replaces the map's value for its name.
proof fn lemma_rows_map_update(rows: Seq<(String, Entry)>, i: int, e: Entry)
    requires
        distinct_names(rows),
        0 <= i < rows.len(),
    ensures
        distinct_names(rows.update(i, (rows[i].0, e))),
        rows_map(rows.update(i, (rows[i].0, e))) == rows_map(rows).insert(rows[i].0@, e),
{
    let new_rows = rows.update(i, (rows[i].0, e));
    let m = rows_map(new_rows);
    let expect = rows_map(rows).insert(rows[i].0@, e);
    assert forall|k: Seq<char>| #[trigger] m.contains_key(k) <==> expect.contains_key(k) by {
        if m.contains_key(k) {
            let j = choose|j: int| 0 <= j < new_rows.len() && new_rows[j].0@ == k;
            if j != i {
                lemma_rows_map_at(rows, j);
            }
        }
        if expect.contains_key(k) && k != rows[i].0@ {
            let j = choose|j: int| 0 <= j < rows.len() && rows[j].0@ == k;
            assert(new_rows[j].0@ == k);
        }
        if k == rows[i].0@ {
            assert(new_rows[i].0@ == k);
        }
    }
    assert forall|k: Seq<char>| m.contains_key(k) implies #[trigger] m[k] == expect[k] by {
        let j = choose|j: int| 0 <= j < new_rows.len() && new_rows[j].0@ == k;
        lemma_rows_map_at(new_rows, j);
        if j != i {
            lemma_rows_map_at(rows, j);
        }
    }
    assert(m =~= expect);
}

/// Appending a row with a fresh name adds that name to the map.
proof fn lemma_rows_map_push(rows: Seq<(String, Entry)>, name: String, e: Entry)
    requires
        distinct_names(rows),
        !rows_map(rows).contains_key(name@),
    ensures
        distinct_names(rows.push((name, e))),
        rows_map(rows.push((name, e))) == rows_map(rows).insert(name@, e),
{
    let new_rows = rows.push((name, e));
    assert forall|i: int| 0 <= i < rows.len() implies rows[i].0@ != name@ by {
        if rows[i].0@ == name@ {
            assert(rows_map(rows).contains_key(name@));
        }
    }
    let m = rows_map(new_rows);
    let expect = rows_map(rows).insert(name@, e);
    assert forall|k: Seq<char>| #[trigger] m.contains_key(k) <==> expect.contains_key(k) by {
        if m.contains_key(k) && k != name@ {
            let j = choose|j: int| 0 <= j < new_rows.len() && new_rows[j].0@ == k;
            assert(rows[j].0@ == k);
        }
        if expect.contains_key(k) && k != name@ {
            let j = choose|j: int| 0 <= j < rows.len() && rows[j].0@ == k;
            assert(new_rows[j].0@ == k);
        }
        if k == name@ {
            assert(new_rows[rows.len() as int].0@ == k);
        }
    }
    assert forall|k: Seq<char>| m.contains_key(k) implies #[trigger] m[k] == expect[k] by {
        let j = choose|j: int| 0 <= j < new_rows.len() && new_rows[j].0@ == k;
        lemma_rows_map_at(new_rows, j);
        if j < rows.len() {
            lemma_rows_map_at(rows, j);
        }
    }
    assert(m =~= expect);
}

impl View for StockTable {
    type V = Map<Seq<char>, Entry>;

    closed spec fn view(&self) -> Map<Seq<char>, Entry> {
        rows_map(self.rows@)
    }
}

impl StockTable {
    #[verifier::type_invariant]
    spec fn inv(self) -> bool {
        distinct_names(self.rows@)
    }

    /// An empty table.
    pub fn new() -> (t: Self)
        ensures
            t@ == Map::<Seq<char>, Entry>::empty(),
    {
        let t = StockTable { rows: Vec::new() };
        assert(t@ =~= Map::<Seq<char>, Entry>::empty());
        t
    }

    /// Position of the row named `product`, if any.
    fn position(&self, product: &str) -> (r: Option<usize>)
        ensures
            match r {
                Some(i) => i < self.rows@.len() && self.rows@[i as int].0@ == product@,
                None => !self@.contains_key(product@),
            },
    {
        let key = String::from_str(product);
        let n = self.rows.len();
        let mut i: usize = 0;
        while i < n
            invariant
                n == self.rows@.len(),
                i <= n,
                key@ == product@,
                forall|j: int| 0 <= j < i ==> self.rows@[j].0@ != product@,
            decreases n - i,
        {
            if self.rows[i].0 == key {
                return Some(i);
            }
            i = i + 1;
        }
        None
    }

    /// The row named `product`, if it was ever seeded.
    pub fn get(&self, product: &str) -> (r: Option<Entry>)
        ensures
            r == lookup(self@, product@),
    {
        proof { use_type_invariant(self); }
        match self.position(product) {
            Some(i) => {
                proof { lemma_rows_map_at(self.rows@, i as int); }
                Some(self.rows[i].1)
            },
            None => None,
        }
    }

    /// Sets the row named `product` to `entry`, creating it if needed.
    pub fn put(&mut self, product: &str, entry: Entry)
        ensures
            final(self)@ == old(self)@.insert(product@, entry),
    {
        proof { use_type_invariant(&*self); }
        let found = self.position(product);
        let mut rows: Vec<(String, Entry)> = Vec::new();
        std::mem::swap(&mut rows, &mut self.rows);
        match found {
            Some(i) => {
                let name = rows[i].0.clone();
                proof { lemma_rows_map_update(rows@, i as int, entry); }
                rows.set(i, (name, entry));
            },
            None => {
                let name = String::from_str(product);
                proof { lemma_rows_map_push(rows@, name, entry); }
                rows.push((name, entry));
            },
        }
        self.rows = rows;
    }
}

} // verus!
