//! A table of records keyed by 128-bit ids, kept in insertion order.

use vstd::prelude::*;

verus! {

/// Whether no two rows carry the same id.
pub open spec fn distinct_ids<V>(rows: Seq<(u128, V)>) -> bool {
    forall|i: int, j: int| 0 <= i < rows.len() && 0 <= j < rows.len() && i != j ==> rows[i].0 != rows[j].0
}

/// The map a row sequence with distinct ids stands for.
pub open spec fn ids_map<V>(rows: Seq<(u128, V)>) -> Map<u128, V> {
    Map::new(
        |k: u128| exists|i: int| 0 <= i < rows.len() && rows[i].0 == k,
        |k: u128| rows[choose|i: int| 0 <= i < rows.len() && rows[i].0 == k].1,
    )
}

proof fn lemma_ids_map_at<V>(rows: Seq<(u128, V)>, i: int)
    requires
        distinct_ids(rows),
        0 <= i < rows.len(),
    ensures
        ids_map(rows).contains_key(rows[i].0),
        ids_map(rows)[rows[i].0] == rows[i].1,
{
    let k = rows[i].0;
    assert(exists|j: int| 0 <= j < rows.len() && rows[j].0 == k);
    let j = choose|j: int| 0 <= j < rows.len() && rows[j].0 == k;
    assert(j == i);
}

proof fn lemma_ids_map_update<V>(rows: Seq<(u128, V)>, i: int, v: V)
    requires
        distinct_ids(rows),
        0 <= i < rows.len(),
    ensures
        distinct_ids(rows.update(i, (rows[i].0, v))),
        ids_map(rows.update(i, (rows[i].0, v))) == ids_map(rows).insert(rows[i].0, v),
{
    let new_rows = rows.update(i, (rows[i].0, v));
    let m = ids_map(new_rows);
    let expect = ids_map(rows).insert(rows[i].0, v);
    assert forall|k: u128| #[trigger] m.contains_key(k) <==> expect.contains_key(k) by {
        if m.contains_key(k) {
            let j = choose|j: int| 0 <= j < new_rows.len() && new_rows[j].0 == k;
            if j != i {
                lemma_ids_map_at(rows, j);
            }
        }
        if expect.contains_key(k) && k != rows[i].0 {
            let j = choose|j: int| 0 <= j < rows.len() && rows[j].0 == k;
            assert(new_rows[j].0 == k);
        }
        if k == rows[i].0 {
            assert(new_rows[i].0 == k);
        }
    }
    assert forall|k: u128| m.contains_key(k) implies #[trigger] m[k] == expect[k] by {
        let j = choose|j: int| 0 <= j < new_rows.len() && new_rows[j].0 == k;
        lemma_ids_map_at(new_rows, j);
        if j != i {
            lemma_ids_map_at(rows, j);
        }
    }
    assert(m =~= expect);
}

proof fn lemma_ids_map_push<V>(rows: Seq<(u128, V)>, k0: u128, v: V)
    requires
        distinct_ids(rows),
        !ids_map(rows).contains_key(k0),
    ensures
        distinct_ids(rows.push((k0, v))),
        ids_map(rows.push((k0, v))) == ids_map(rows).insert(k0, v),
{
    let new_rows = rows.push((k0, v));
    assert forall|i: int| 0 <= i < rows.len() implies rows[i].0 != k0 by {
        if rows[i].0 == k0 {
            assert(ids_map(rows).contains_key(k0));
        }
    }
    let m = ids_map(new_rows);
    let expect = ids_map(rows).insert(k0, v);
    assert forall|k: u128| #[trigger] m.contains_key(k) <==> expect.contains_key(k) by {
        if m.contains_key(k) && k != k0 {
            let j = choose|j: int| 0 <= j < new_rows.len() && new_rows[j].0 == k;
            assert(rows[j].0 == k);
        }
        if expect.contains_key(k) && k != k0 {
            let j = choose|j: int| 0 <= j < rows.len() && rows[j].0 == k;
            assert(new_rows[j].0 == k);
        }
        if k == k0 {
            assert(new_rows[rows.len() as int].0 == k);
        }
    }
    assert forall|k: u128| m.contains_key(k) implies #[trigger] m[k] == expect[k] by {
        let j = choose|j: int| 0 <= j < new_rows.len() && new_rows[j].0 == k;
        lemma_ids_map_at(new_rows, j);
        if j < rows.len() {
            lemma_ids_map_at(rows, j);
        }
    }
    assert(m =~= expect);
}

/// Records keyed by id; each id at most once, in order of first insertion.
pub struct IdTable<V> {
    rows: Vec<(u128, V)>,
}

impl<V> View for IdTable<V> {
    type V = Map<u128, V>;

    closed spec fn view(&self) -> Map<u128, V> {
        ids_map(self.rows@)
    }
}

impl<V> IdTable<V> {
    #[verifier::type_invariant]
    spec fn inv(self) -> bool {
        distinct_ids(self.rows@)
    }

    /// The records, first-inserted first.
    pub closed spec fn records(&self) -> Seq<V> {
        self.rows@.map_values(|r: (u128, V)| r.1)
    }

    /// The ids of the records, in the same order.
    pub closed spec fn ids(&self) -> Seq<u128> {
        self.rows@.map_values(|r: (u128, V)| r.0)
    }

    pub fn new() -> (t: Self)
        ensures
            t@ == Map::<u128, V>::empty(),
    {
        let t = IdTable { rows: Vec::new() };
        assert(t@ =~= Map::<u128, V>::empty());
        t
    }

    fn position(&self, id: u128) -> (r: Option<usize>)
        ensures
            match r {
                Some(i) => i < self.rows@.len() && self.rows@[i as int].0 == id,
                None => !self@.contains_key(id),
            },
    {
        let n = self.rows.len();
        let mut i: usize = 0;
        while i < n
            invariant
                n == self.rows@.len(),
                i <= n,
                forall|j: int| 0 <= j < i ==> self.rows@[j].0 != id,
            decreases n - i,
        {
            if self.rows[i].0 == id {
                return Some(i);
            }
            i = i + 1;
        }
        None
    }

    /// The record with this id, if any.
    pub fn get(&self, id: u128) -> (r: Option<&V>)
        ensures
            match r {
                Some(v) => self@.contains_key(id) && *v == self@[id],
                None => !self@.contains_key(id),
            },
    {
        proof { use_type_invariant(self); }
        match self.position(id) {
            Some(i) => {
                proof { lemma_ids_map_at(self.rows@, i as int); }
                Some(&self.rows[i].1)
            },
            None => None,
        }
    }

    /// The number of records. The listing (`ids`, `records`) lines up
    /// with the map: every id once, each with its record, and every key of
    /// the map among them.
    pub fn len(&self) -> (n: usize)
        ensures
            n == self.records().len(),
            self.ids().len() == self.records().len(),
            self.ids().no_duplicates(),
            forall|i: int| 0 <= i < self.ids().len() ==> self@.contains_key(#[trigger] self.ids()[i])
                && self@[self.ids()[i]] == self.records()[i],
            forall|k: u128| #[trigger] self@.contains_key(k) ==> self.ids().contains(k),
    {
        proof {
            use_type_invariant(self);
            assert forall|i: int| 0 <= i < self.ids().len() implies self@.contains_key(#[trigger] self.ids()[i])
                && self@[self.ids()[i]] == self.records()[i] by {
                lemma_ids_map_at(self.rows@, i);
            }
            assert forall|k: u128| #[trigger] self@.contains_key(k) implies self.ids().contains(k) by {
                let j = choose|j: int| 0 <= j < self.rows@.len() && self.rows@[j].0 == k;
                assert(self.ids()[j] == k);
            }
        }
        self.rows.len()
    }

    /// The record at position `i` of the listing.
    pub fn at(&self, i: usize) -> (v: &V)
        requires
            i < self.records().len(),
        ensures
            *v == self.records()[i as int],
    {
        &self.rows[i].1
    }

    /// Stores `v` under `id`, replacing the record with that id if any.
    pub fn put(&mut self, id: u128, v: V)
        ensures
            final(self)@ == old(self)@.insert(id, v),
    {
        proof { use_type_invariant(&*self); }
        let found = self.position(id);
        let mut rows: Vec<(u128, V)> = Vec::new();
        std::mem::swap(&mut rows, &mut self.rows);
        match found {
            Some(i) => {
                proof { lemma_ids_map_update(rows@, i as int, v); }
                rows.set(i, (id, v));
            },
            None => {
                proof { lemma_ids_map_push(rows@, id, v); }
                rows.push((id, v));
            },
        }
        self.rows = rows;
    }
}

} // verus!
