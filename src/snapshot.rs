//! The per-table snapshot (fingerprint to row) and the diff between two snapshots.
use vstd::prelude::*;
use crate::json::{json_equal, Json, JsonV};
use crate::schema::{opt_json, ChangeType};

verus! {

/// The model of a snapshot: its (fingerprint, row) pairs in order.
pub type Rows = Seq<(Seq<char>, JsonV)>;

/// The model of a list of (fingerprint, row) pairs.
pub open spec fn rows_view(v: Seq<(String, Json)>) -> Rows {
    v.map_values(|e: (String, Json)| (e.0@, e.1@))
}

/// Some pair of `s` has fingerprint `k`.
pub open spec fn has_key(s: Rows, k: Seq<char>) -> bool {
    exists|i: int| 0 <= i < s.len() && s[i].0 == k
}

/// The position of fingerprint `k` in `s`.
pub open spec fn key_index(s: Rows, k: Seq<char>) -> int {
    choose|i: int| 0 <= i < s.len() && s[i].0 == k
}

/// The row stored under fingerprint `k`.
pub open spec fn value_of(s: Rows, k: Seq<char>) -> JsonV {
    s[key_index(s, k)].1
}

/// No fingerprint occurs twice.
pub open spec fn unique_keys(s: Rows) -> bool {
    forall|i: int, j: int| 0 <= i < j < s.len() ==> s[i].0 != s[j].0
}

/// `s` with the row under `k` set to `v`: replaced in place, or appended.
pub open spec fn put(s: Rows, k: Seq<char>, v: JsonV) -> Rows {
    if has_key(s, k) {
        s.update(key_index(s, k), (k, v))
    } else {
        s.push((k, v))
    }
}

/// The snapshot made by putting the pairs of `v` in order into an empty one.
pub open spec fn put_all(v: Rows) -> Rows
    decreases v.len(),
{
    if v.len() == 0 {
        Seq::empty()
    } else {
        put(put_all(v.drop_last()), v.last().0, v.last().1)
    }
}

/// The two snapshots hold the same fingerprints, each with the same row.
pub open spec fn same_rows(a: Rows, b: Rows) -> bool {
    forall|k: Seq<char>|
        #![trigger has_key(a, k)]
        #![trigger has_key(b, k)]
        has_key(a, k) == has_key(b, k) && (has_key(a, k) ==> value_of(a, k) == value_of(b, k))
}

/// With unique fingerprints, the fingerprint at position `i` is found at `i`.
pub proof fn lemma_key_index(s: Rows, i: int)
    requires
        unique_keys(s),
        0 <= i < s.len(),
    ensures
        has_key(s, s[i].0),
        key_index(s, s[i].0) == i,
        value_of(s, s[i].0) == s[i].1,
{
    assert(has_key(s, s[i].0));
}

/// Rows of one table keyed by primary-key fingerprint; no fingerprint occurs twice.
pub struct Snapshot {
    entries: Vec<(String, Json)>,
}

impl View for Snapshot {
    type V = Rows;

    closed spec fn view(&self) -> Rows {
        rows_view(self.entries@)
    }
}

/// The position of `key` among `entries`, if it is there.
fn find_key(entries: &Vec<(String, Json)>, key: &String) -> (r: Option<usize>)
    ensures
        match r {
            Some(i) => i < entries.len() && rows_view(entries@)[i as int].0 == key@,
            None => !has_key(rows_view(entries@), key@),
        },
{
    let mut i: usize = 0;
    while i < entries.len()
        invariant
            0 <= i <= entries.len(),
            forall|j: int| 0 <= j < i ==> rows_view(entries@)[j].0 != key@,
        decreases entries.len() - i,
    {
        if entries[i].0 == *key {
            return Some(i);
        }
        i = i + 1;
    }
    None
}

impl Snapshot {
    /// No fingerprint occurs twice.
    pub open spec fn wf(&self) -> bool {
        unique_keys(self@)
    }

    /// An empty snapshot.
    pub fn new() -> (r: Snapshot)
        ensures
            r.wf(),
            r@ == Seq::<(Seq<char>, JsonV)>::empty(),
    {
        let r = Snapshot { entries: Vec::new() };
        proof {
            assert(r@ =~= Seq::<(Seq<char>, JsonV)>::empty());
        }
        r
    }

    /// The number of rows.
    pub fn len(&self) -> (r: usize)
        ensures
            r == self@.len(),
    {
        self.entries.len()
    }

    /// The pair at position `i`.
    pub fn entry(&self, i: usize) -> (r: (&String, &Json))
        requires
            i < self@.len(),
        ensures
            r.0@ == self@[i as int].0,
            r.1@ == self@[i as int].1,
    {
        (&self.entries[i].0, &self.entries[i].1)
    }

    /// The row stored under `key`.
    pub fn get(&self, key: &String) -> (r: Option<&Json>)
        requires
            self.wf(),
        ensures
            match r {
                Some(j) => has_key(self@, key@) && j@ == value_of(self@, key@),
                None => !has_key(self@, key@),
            },
    {
        match find_key(&self.entries, key) {
            Some(i) => {
                proof {
                    lemma_key_index(self@, i as int);
                }
                Some(&self.entries[i].1)
            },
            None => None,
        }
    }

    /// The row stored under `key`, looked for first at position `hint`: two reads of
    /// a table mostly return rows in the same order.
    pub fn get_near(&self, key: &String, hint: usize) -> (r: Option<&Json>)
        requires
            self.wf(),
        ensures
            match r {
                Some(j) => has_key(self@, key@) && j@ == value_of(self@, key@),
                None => !has_key(self@, key@),
            },
    {
        if hint < self.entries.len() && self.entries[hint].0 == *key {
            proof {
                lemma_key_index(self@, hint as int);
            }
            return Some(&self.entries[hint].1);
        }
        self.get(key)
    }

    /// Stores `row` under `key`, replacing the row stored there before.
    pub fn insert(&mut self, key: String, row: Json)
        requires
            old(self).wf(),
        ensures
            final(self).wf(),
            final(self)@ == put(old(self)@, key@, row@),
    {
        let ghost k = key@;
        let ghost v = row@;
        match find_key(&self.entries, &key) {
            Some(i) => {
                proof {
                    lemma_key_index(self@, i as int);
                }
                self.entries.set(i, (key, row));
                proof {
                    assert(self@ =~= put(old(self)@, k, v));
                }
            },
            None => {
                self.entries.push((key, row));
                proof {
                    assert(self@ =~= put(old(self)@, k, v));
                }
            },
        }
    }

    /// The snapshot of a query result: the pairs put in order, a later pair
    /// replacing an earlier one with the same fingerprint.
    pub fn from_rows(rows: Vec<(String, Json)>) -> (r: Snapshot)
        ensures
            r.wf(),
            r@ == put_all(rows_view(rows@)),
    {
        let mut r = Snapshot::new();
        let ghost all = rows_view(rows@);
        let mut i: usize = 0;
        while i < rows.len()
            invariant
                0 <= i <= rows.len(),
                all == rows_view(rows@),
                r.wf(),
                r@ == put_all(all.take(i as int)),
            decreases rows.len() - i,
        {
            proof {
                assert(all.take(i + 1).drop_last() =~= all.take(i as int));
            }
            r.insert(rows[i].0.clone(), rows[i].1.duplicate());
            i = i + 1;
        }
        proof {
            assert(all.take(rows.len() as int) =~= all);
        }
        r
    }
}

} // verus!
