//! Change detection: the events that turn one snapshot of a table into the next.
use vstd::prelude::*;
use crate::json::{json_equal, Json, JsonV};
use crate::schema::{opt_json, ChangeType};
use crate::snapshot::{has_key, key_index, lemma_key_index, rows_view, unique_keys, value_of, Rows, Snapshot};

verus! {

/// A row-level change found by comparing two snapshots.
#[derive(Clone, Debug)]
pub struct RowChange {
    pub kind: ChangeType,
    pub pk: String,
    pub before: Option<Json>,
    pub after: Option<Json>,
}

/// The model of a `RowChange`.
pub struct RowChangeV {
    pub kind: ChangeType,
    pub pk: Seq<char>,
    pub before: Option<JsonV>,
    pub after: Option<JsonV>,
}

impl View for RowChange {
    type V = RowChangeV;

    open spec fn view(&self) -> RowChangeV {
        RowChangeV { kind: self.kind, pk: self.pk@, before: opt_json(self.before), after: opt_json(self.after) }
    }
}

/// The models of a list of changes.
pub open spec fn changes_view(v: Seq<RowChange>) -> Seq<RowChangeV> {
    v.map_values(|c: RowChange| c@)
}

/// The event for one row `(k, v)` of the new snapshot: an insert when `k` is new,
/// an update when its row differs from the stored one, nothing otherwise.
pub open spec fn upsert_event(prev: Rows, k: Seq<char>, v: JsonV) -> Seq<RowChangeV> {
    if !has_key(prev, k) {
        seq![RowChangeV { kind: ChangeType::Insert, pk: k, before: None, after: Some(v) }]
    } else if value_of(prev, k) != v {
        seq![RowChangeV { kind: ChangeType::Update, pk: k, before: Some(value_of(prev, k)), after: Some(v) }]
    } else {
        Seq::empty()
    }
}

/// Inserts and updates, in the order of the new snapshot.
pub open spec fn upserts(prev: Rows, new: Rows) -> Seq<RowChangeV>
    decreases new.len(),
{
    if new.len() == 0 {
        Seq::empty()
    } else {
        upserts(prev, new.drop_last()) + upsert_event(prev, new.last().0, new.last().1)
    }
}

/// The event for one row `(k, v)` of the stored snapshot: a delete when `k` is gone.
pub open spec fn removal_event(new: Rows, k: Seq<char>, v: JsonV) -> Seq<RowChangeV> {
    if has_key(new, k) {
        Seq::empty()
    } else {
        seq![RowChangeV { kind: ChangeType::Delete, pk: k, before: Some(v), after: None }]
    }
}

/// Deletes, in the order of the stored snapshot.
pub open spec fn removals(prev: Rows, new: Rows) -> Seq<RowChangeV>
    decreases prev.len(),
{
    if prev.len() == 0 {
        Seq::empty()
    } else {
        removals(prev.drop_last(), new) + removal_event(new, prev.last().0, prev.last().1)
    }
}

/// All events between two snapshots: inserts and updates first, then deletes.
pub open spec fn diff(prev: Rows, new: Rows) -> Seq<RowChangeV> {
    upserts(prev, new) + removals(prev, new)
}

fn upsert_change(stored: &Snapshot, key: &String, row: &Json, hint: usize, out: &mut Vec<RowChange>)
    requires
        stored.wf(),
    ensures
        changes_view(final(out)@) == changes_view(old(out)@) + upsert_event(stored@, key@, row@),
{
    match stored.get_near(key, hint) {
        None => {
            let c = RowChange { kind: ChangeType::Insert, pk: key.clone(), before: None, after: Some(row.duplicate()) };
            out.push(c);
            proof {
                assert(changes_view(out@) =~= changes_view(old(out)@) + upsert_event(stored@, key@, row@));
            }
        },
        Some(prev) => {
            if !json_equal(prev, row) {
                let c = RowChange {
                    kind: ChangeType::Update,
                    pk: key.clone(),
                    before: Some(prev.duplicate()),
                    after: Some(row.duplicate()),
                };
                out.push(c);
            }
            proof {
                assert(changes_view(out@) =~= changes_view(old(out)@) + upsert_event(stored@, key@, row@));
            }
        },
    }
}

fn removal_change(new: &Snapshot, key: &String, row: &Json, hint: usize, out: &mut Vec<RowChange>)
    requires
        new.wf(),
    ensures
        changes_view(final(out)@) == changes_view(old(out)@) + removal_event(new@, key@, row@),
{
    if new.get_near(key, hint).is_none() {
        let c = RowChange { kind: ChangeType::Delete, pk: key.clone(), before: Some(row.duplicate()), after: None };
        out.push(c);
    }
    proof {
        assert(changes_view(out@) =~= changes_view(old(out)@) + removal_event(new@, key@, row@));
    }
}

impl Snapshot {
    /// The events that turn `self` (the stored snapshot) into `new` (the one just read).
    pub fn diff(&self, new: &Snapshot) -> (r: Vec<RowChange>)
        requires
            self.wf(),
            new.wf(),
        ensures
            changes_view(r@) == diff(self@, new@),
    {
        let mut out: Vec<RowChange> = Vec::new();
        let n = new.len();
        let mut i: usize = 0;
        proof {
            assert(changes_view(out@) =~= upserts(self@, new@.take(0)));
        }
        while i < n
            invariant
                n == new@.len(),
                0 <= i <= n,
                self.wf(),
                new.wf(),
                changes_view(out@) == upserts(self@, new@.take(i as int)),
            decreases n - i,
        {
            let (key, row) = new.entry(i);
            proof {
                assert(new@.take(i + 1).drop_last() =~= new@.take(i as int));
            }
            upsert_change(self, key, row, i, &mut out);
            i = i + 1;
        }
        proof {
            assert(new@.take(n as int) =~= new@);
        }
        let ghost ups = changes_view(out@);
        let m = self.len();
        let mut j: usize = 0;
        proof {
            assert(changes_view(out@) =~= ups + removals(self@.take(0), new@));
        }
        while j < m
            invariant
                m == self@.len(),
                0 <= j <= m,
                self.wf(),
                new.wf(),
                ups == upserts(self@, new@),
                changes_view(out@) == ups + removals(self@.take(j as int), new@),
            decreases m - j,
        {
            let (key, row) = self.entry(j);
            proof {
                assert(self@.take(j + 1).drop_last() =~= self@.take(j as int));
            }
            removal_change(new, key, row, j, &mut out);
            proof {
                assert(changes_view(out@) =~= ups + removals(self@.take(j + 1), new@));
            }
            j = j + 1;
        }
        proof {
            assert(self@.take(m as int) =~= self@);
        }
        out
    }
}

} // verus!

verus! {

/// Row `k` differs between the two snapshots: added, changed or gone.
pub open spec fn changed(prev: Rows, new: Rows, k: Seq<char>) -> bool {
    (has_key(new, k) && (!has_key(prev, k) || value_of(prev, k) != value_of(new, k)))
        || (has_key(prev, k) && !has_key(new, k))
}

/// The one event that reports row `k`.
pub open spec fn expected_event(prev: Rows, new: Rows, k: Seq<char>) -> RowChangeV {
    if !has_key(prev, k) {
        RowChangeV { kind: ChangeType::Insert, pk: k, before: None, after: Some(value_of(new, k)) }
    } else if has_key(new, k) {
        RowChangeV { kind: ChangeType::Update, pk: k, before: Some(value_of(prev, k)), after: Some(value_of(new, k)) }
    } else {
        RowChangeV { kind: ChangeType::Delete, pk: k, before: Some(value_of(prev, k)), after: None }
    }
}

proof fn lemma_prefix_key(s: Rows, n: int, k: Seq<char>)
    requires
        unique_keys(s),
        0 <= n <= s.len(),
        has_key(s.take(n), k),
    ensures
        has_key(s, k),
        value_of(s, k) == value_of(s.take(n), k),
        unique_keys(s.take(n)),
{
    let t = s.take(n);
    let j = key_index(t, k);
    lemma_key_index(s, j);
    lemma_key_index(t, j);
}

proof fn lemma_upserts_shape(prev: Rows, new: Rows)
    requires
        unique_keys(new),
    ensures
        forall|i: int| 0 <= i < upserts(prev, new).len() ==> {
            let c = #[trigger] upserts(prev, new)[i];
            has_key(new, c.pk) && changed(prev, new, c.pk) && c == expected_event(prev, new, c.pk)
        },
        forall|i: int, j: int| 0 <= i < j < upserts(prev, new).len() ==>
            upserts(prev, new)[i].pk != upserts(prev, new)[j].pk,
    decreases new.len(),
{
    if new.len() > 0 {
        let init = new.drop_last();
        assert(init =~= new.take(new.len() - 1));
        assert(unique_keys(init));
        lemma_upserts_shape(prev, init);
        let (k, v) = new.last();
        lemma_key_index(new, new.len() - 1);
        let u0 = upserts(prev, init);
        let u = upserts(prev, new);
        assert forall|i: int| 0 <= i < u0.len() implies has_key(new, u0[i].pk) && value_of(new, u0[i].pk)
            == value_of(init, u0[i].pk) && u0[i].pk != k by {
            lemma_prefix_key(new, new.len() - 1, u0[i].pk);
            let j = key_index(init, u0[i].pk);
            lemma_key_index(init, j);
        }
        assert forall|i: int| 0 <= i < u.len() implies {
            let c = #[trigger] u[i];
            has_key(new, c.pk) && changed(prev, new, c.pk) && c == expected_event(prev, new, c.pk)
        } by {
            if i < u0.len() {
                assert(u[i] == u0[i]);
            }
        }
    }
}

proof fn lemma_upserts_cover(prev: Rows, new: Rows, k: Seq<char>)
    requires
        unique_keys(new),
        has_key(new, k),
        !has_key(prev, k) || value_of(prev, k) != value_of(new, k),
    ensures
        exists|i: int| 0 <= i < upserts(prev, new).len() && upserts(prev, new)[i].pk == k,
    decreases new.len(),
{
    let init = new.drop_last();
    assert(init =~= new.take(new.len() - 1));
    lemma_key_index(new, new.len() - 1);
    let u = upserts(prev, new);
    if new.last().0 == k {
        assert(u[u.len() - 1].pk == k);
    } else {
        let j = key_index(new, k);
        lemma_key_index(new, j);
        assert(init[j].0 == k);
        lemma_key_index(init, j);
        lemma_upserts_cover(prev, init, k);
        let i = choose|i: int| 0 <= i < upserts(prev, init).len() && upserts(prev, init)[i].pk == k;
        assert(u[i] == upserts(prev, init)[i]);
    }
}

proof fn lemma_removals_shape(prev: Rows, new: Rows)
    requires
        unique_keys(prev),
    ensures
        forall|i: int| 0 <= i < removals(prev, new).len() ==> {
            let c = #[trigger] removals(prev, new)[i];
            has_key(prev, c.pk) && !has_key(new, c.pk) && c == expected_event(prev, new, c.pk)
        },
        forall|i: int, j: int| 0 <= i < j < removals(prev, new).len() ==>
            removals(prev, new)[i].pk != removals(prev, new)[j].pk,
    decreases prev.len(),
{
    if prev.len() > 0 {
        let init = prev.drop_last();
        assert(init =~= prev.take(prev.len() - 1));
        assert(unique_keys(init));
        lemma_removals_shape(init, new);
        let k = prev.last().0;
        lemma_key_index(prev, prev.len() - 1);
        let r0 = removals(init, new);
        let r = removals(prev, new);
        assert forall|i: int| 0 <= i < r0.len() implies has_key(prev, r0[i].pk) && value_of(prev, r0[i].pk)
            == value_of(init, r0[i].pk) && r0[i].pk != k by {
            lemma_prefix_key(prev, prev.len() - 1, r0[i].pk);
            let j = key_index(init, r0[i].pk);
            lemma_key_index(init, j);
        }
        assert forall|i: int| 0 <= i < r.len() implies {
            let c = #[trigger] r[i];
            has_key(prev, c.pk) && !has_key(new, c.pk) && c == expected_event(prev, new, c.pk)
        } by {
            if i < r0.len() {
                assert(r[i] == r0[i]);
            }
        }
    }
}

proof fn lemma_removals_cover(prev: Rows, new: Rows, k: Seq<char>)
    requires
        unique_keys(prev),
        has_key(prev, k),
        !has_key(new, k),
    ensures
        exists|i: int| 0 <= i < removals(prev, new).len() && removals(prev, new)[i].pk == k,
    decreases prev.len(),
{
    let init = prev.drop_last();
    assert(init =~= prev.take(prev.len() - 1));
    lemma_key_index(prev, prev.len() - 1);
    let r = removals(prev, new);
    if prev.last().0 == k {
        assert(r[r.len() - 1].pk == k);
    } else {
        let j = key_index(prev, k);
        lemma_key_index(prev, j);
        assert(init[j].0 == k);
        lemma_key_index(init, j);
        lemma_removals_cover(init, new, k);
        let i = choose|i: int| 0 <= i < removals(init, new).len() && removals(init, new)[i].pk == k;
        assert(r[i] == removals(init, new)[i]);
    }
}

/// The diff reports exactly the rows that changed: every event is the insert,
/// update or delete of a row that was added, altered or removed, with the old and
/// new contents; every such row has an event; and no row has two. So the number of
/// events is the number of inserted, updated and deleted rows together.
pub proof fn lemma_diff_complete(prev: Rows, new: Rows)
    requires
        unique_keys(prev),
        unique_keys(new),
    ensures
        forall|i: int| 0 <= i < diff(prev, new).len() ==> {
            let c = #[trigger] diff(prev, new)[i];
            changed(prev, new, c.pk) && c == expected_event(prev, new, c.pk)
        },
        forall|k: Seq<char>| changed(prev, new, k) ==>
            exists|i: int| 0 <= i < diff(prev, new).len() && (#[trigger] diff(prev, new)[i]).pk == k,
        forall|i: int, j: int| 0 <= i < j < diff(prev, new).len() ==>
            diff(prev, new)[i].pk != diff(prev, new)[j].pk,
{
    lemma_upserts_shape(prev, new);
    lemma_removals_shape(prev, new);
    let u = upserts(prev, new);
    let r = removals(prev, new);
    let d = diff(prev, new);
    assert forall|i: int| 0 <= i < d.len() implies {
        let c = #[trigger] d[i];
        changed(prev, new, c.pk) && c == expected_event(prev, new, c.pk)
    } by {
        if i < u.len() {
            assert(d[i] == u[i]);
        } else {
            assert(d[i] == r[i - u.len()]);
        }
    }
    assert forall|k: Seq<char>| changed(prev, new, k) implies
        exists|i: int| 0 <= i < d.len() && (#[trigger] d[i]).pk == k by {
        if has_key(new, k) && (!has_key(prev, k) || value_of(prev, k) != value_of(new, k)) {
            lemma_upserts_cover(prev, new, k);
            let i = choose|i: int| 0 <= i < u.len() && u[i].pk == k;
            assert(d[i] == u[i]);
        } else {
            lemma_removals_cover(prev, new, k);
            let i = choose|i: int| 0 <= i < r.len() && r[i].pk == k;
            assert(d[u.len() + i] == r[i]);
        }
    }
    assert forall|i: int, j: int| 0 <= i < j < d.len() implies d[i].pk != d[j].pk by {
        if j < u.len() {
            assert(d[i] == u[i] && d[j] == u[j]);
        } else if i >= u.len() {
            assert(d[i] == r[i - u.len()] && d[j] == r[j - u.len()]);
        } else {
            assert(d[i] == u[i] && d[j] == r[j - u.len()]);
        }
    }
}

/// The fingerprints of the rows that differ between two snapshots.
pub open spec fn changed_keys(prev: Rows, new: Rows) -> Set<Seq<char>> {
    Set::new(|k: Seq<char>| changed(prev, new, k))
}

/// A diff has exactly one event per row that differs: as many events as
/// inserted, updated and deleted rows together.
pub proof fn lemma_diff_count(prev: Rows, new: Rows)
    requires
        unique_keys(prev),
        unique_keys(new),
    ensures
        changed_keys(prev, new).finite(),
        diff(prev, new).len() == changed_keys(prev, new).len(),
{
    lemma_diff_complete(prev, new);
    let d = diff(prev, new);
    let pks = d.map_values(|c: RowChangeV| c.pk);
    assert(pks.no_duplicates()) by {
        assert forall|i: int, j: int| 0 <= i < pks.len() && 0 <= j < pks.len() && i != j implies pks[i] != pks[j] by {
            if i < j {
                assert(d[i].pk != d[j].pk);
            } else {
                assert(d[j].pk != d[i].pk);
            }
        }
    }
    pks.unique_seq_to_set();
    assert(pks.to_set() =~= changed_keys(prev, new)) by {
        assert forall|k: Seq<char>| pks.to_set().contains(k) implies changed(prev, new, k) by {
            let i = choose|i: int| 0 <= i < pks.len() && pks[i] == k;
            assert(d[i].pk == k);
        }
        assert forall|k: Seq<char>| changed(prev, new, k) implies pks.to_set().contains(k) by {
            let i = choose|i: int| 0 <= i < d.len() && (#[trigger] d[i]).pk == k;
            assert(pks[i] == k);
        }
    }
    vstd::seq_lib::seq_to_set_is_finite(pks);
}

/// Two snapshots that hold the same rows under the same fingerprints have no
/// events between them, and a diff with no events means the snapshots hold the
/// same rows.
pub proof fn lemma_no_events_iff_same_rows(prev: Rows, new: Rows)
    requires
        unique_keys(prev),
        unique_keys(new),
    ensures
        diff(prev, new).len() == 0 <==> crate::snapshot::same_rows(prev, new),
{
    lemma_diff_complete(prev, new);
    let d = diff(prev, new);
    if d.len() == 0 {
        assert forall|k: Seq<char>| has_key(prev, k) == has_key(new, k) && (has_key(prev, k) ==> value_of(prev, k) == value_of(new, k)) by {
            if changed(prev, new, k) {
                let i = choose|i: int| 0 <= i < d.len() && (#[trigger] d[i]).pk == k;
            }
        }
    } else {
        let c = d[0];
        assert(changed(prev, new, c.pk));
    }
}

} // verus!

verus! {

/// The events of `d` of one kind, in order.
pub open spec fn of_kind(d: Seq<RowChangeV>, kind: ChangeType) -> Seq<RowChangeV>
    decreases d.len(),
{
    if d.len() == 0 {
        Seq::empty()
    } else if d.last().kind == kind {
        of_kind(d.drop_last(), kind).push(d.last())
    } else {
        of_kind(d.drop_last(), kind)
    }
}

proof fn lemma_of_kind(d: Seq<RowChangeV>, kind: ChangeType)
    ensures
        forall|i: int| 0 <= i < of_kind(d, kind).len() ==> (#[trigger] of_kind(d, kind)[i]).kind == kind
            && d.contains(of_kind(d, kind)[i]),
        forall|p: int| 0 <= p < d.len() && (#[trigger] d[p]).kind == kind ==> of_kind(d, kind).contains(d[p]),
        d.no_duplicates() ==> of_kind(d, kind).no_duplicates(),
    decreases d.len(),
{
    if d.len() > 0 {
        let init = d.drop_last();
        lemma_of_kind(init, kind);
        let f0 = of_kind(init, kind);
        let f = of_kind(d, kind);
        assert forall|i: int| 0 <= i < f.len() implies (#[trigger] f[i]).kind == kind && d.contains(f[i]) by {
            if i < f0.len() {
                assert(f[i] == f0[i]);
                let q = choose|q: int| 0 <= q < init.len() && init[q] == f0[i];
                assert(d[q] == f[i]);
            } else {
                assert(d[d.len() - 1] == f[i]);
            }
        }
        assert forall|p: int| 0 <= p < d.len() && (#[trigger] d[p]).kind == kind implies f.contains(d[p]) by {
            if p < d.len() - 1 {
                assert(init[p] == d[p]);
                assert(f0.contains(init[p]));
                let j = choose|j: int| 0 <= j < f0.len() && f0[j] == init[p];
                assert(f[j] == d[p]);
            } else {
                assert(f[f.len() - 1] == d[p]);
            }
        }
        if d.no_duplicates() {
            assert(init.no_duplicates());
            assert forall|i: int, j: int| 0 <= i < f.len() && 0 <= j < f.len() && i != j implies f[i] != f[j] by {
                if i < f0.len() && j < f0.len() {
                    assert(f[i] == f0[i] && f[j] == f0[j]);
                } else if d.last().kind == kind {
                    let (a, b) = if i < f0.len() { (i, j) } else { (j, i) };
                    assert(f[a] == f0[a]);
                    let q = choose|q: int| 0 <= q < init.len() && init[q] == f0[a];
                    assert(d[q] == f0[a]);
                    assert(f[b] == d[d.len() - 1]);
                }
            }
        }
    }
}

/// The fingerprints of the rows inserted between two snapshots.
pub open spec fn inserted_keys(prev: Rows, new: Rows) -> Set<Seq<char>> {
    Set::new(|k: Seq<char>| has_key(new, k) && !has_key(prev, k))
}

/// The fingerprints of the rows whose contents changed.
pub open spec fn updated_keys(prev: Rows, new: Rows) -> Set<Seq<char>> {
    Set::new(|k: Seq<char>| has_key(new, k) && has_key(prev, k) && value_of(prev, k) != value_of(new, k))
}

/// The fingerprints of the rows deleted between two snapshots.
pub open spec fn deleted_keys(prev: Rows, new: Rows) -> Set<Seq<char>> {
    Set::new(|k: Seq<char>| has_key(prev, k) && !has_key(new, k))
}

proof fn lemma_kind_count(prev: Rows, new: Rows, kind: ChangeType, keys: Set<Seq<char>>)
    requires
        unique_keys(prev),
        unique_keys(new),
        forall|k: Seq<char>| keys.contains(k) <==> changed(prev, new, k) && expected_event(prev, new, k).kind == kind,
    ensures
        keys.finite(),
        of_kind(diff(prev, new), kind).len() == keys.len(),
{
    lemma_diff_complete(prev, new);
    let d = diff(prev, new);
    assert(d.no_duplicates()) by {
        assert forall|i: int, j: int| 0 <= i < d.len() && 0 <= j < d.len() && i != j implies d[i] != d[j] by {
            if i < j {
                assert(d[i].pk != d[j].pk);
            } else {
                assert(d[j].pk != d[i].pk);
            }
        }
    }
    lemma_of_kind(d, kind);
    let f = of_kind(d, kind);
    let pks = f.map_values(|c: RowChangeV| c.pk);
    assert(pks.no_duplicates()) by {
        assert forall|i: int, j: int| 0 <= i < pks.len() && 0 <= j < pks.len() && i != j implies pks[i] != pks[j] by {
            let p = choose|p: int| 0 <= p < d.len() && d[p] == f[i];
            let q = choose|q: int| 0 <= q < d.len() && d[q] == f[j];
            assert(f[i] != f[j]);
            if p != q {
                if p < q {
                    assert(d[p].pk != d[q].pk);
                } else {
                    assert(d[q].pk != d[p].pk);
                }
            }
        }
    }
    pks.unique_seq_to_set();
    assert(pks.to_set() =~= keys) by {
        assert forall|k: Seq<char>| pks.to_set().contains(k) implies keys.contains(k) by {
            let i = choose|i: int| 0 <= i < pks.len() && pks[i] == k;
            assert(f[i].kind == kind);
            let p = choose|p: int| 0 <= p < d.len() && d[p] == f[i];
            assert(changed(prev, new, d[p].pk) && d[p] == expected_event(prev, new, d[p].pk));
        }
        assert forall|k: Seq<char>| keys.contains(k) implies pks.to_set().contains(k) by {
            let p = choose|p: int| 0 <= p < d.len() && (#[trigger] d[p]).pk == k;
            assert(d[p] == expected_event(prev, new, k));
            assert(f.contains(d[p]));
            let i = choose|i: int| 0 <= i < f.len() && f[i] == d[p];
            assert(pks[i] == k);
        }
    }
    vstd::seq_lib::seq_to_set_is_finite(pks);
}

/// `events` report exactly the rows that differ between `prev` and `new`: each
/// event is the insert, update or delete of such a row with its old and new
/// contents, each such row has one event and no row has two, and there are as
/// many inserts, updates and deletes as rows inserted, changed and deleted.
pub open spec fn reports_exactly(prev: Rows, new: Rows, events: Seq<RowChangeV>) -> bool {
    &&& forall|i: int| 0 <= i < events.len() ==> {
        let c = #[trigger] events[i];
        changed(prev, new, c.pk) && c == expected_event(prev, new, c.pk)
    }
    &&& forall|k: Seq<char>| changed(prev, new, k) ==>
        exists|i: int| 0 <= i < events.len() && (#[trigger] events[i]).pk == k
    &&& forall|i: int, j: int| 0 <= i < j < events.len() ==> events[i].pk != events[j].pk
    &&& events.len() == changed_keys(prev, new).len()
    &&& of_kind(events, ChangeType::Insert).len() == inserted_keys(prev, new).len()
    &&& of_kind(events, ChangeType::Update).len() == updated_keys(prev, new).len()
    &&& of_kind(events, ChangeType::Delete).len() == deleted_keys(prev, new).len()
}

/// The diff of two snapshots reports exactly the rows that differ.
pub proof fn lemma_diff_reports_exactly(prev: Rows, new: Rows)
    requires
        unique_keys(prev),
        unique_keys(new),
    ensures
        reports_exactly(prev, new, diff(prev, new)),
{
    lemma_diff_complete(prev, new);
    lemma_diff_count(prev, new);
    lemma_diff_kind_counts(prev, new);
}

/// A diff holds as many inserts as rows were inserted, as many updates as rows
/// changed contents, and as many deletes as rows were deleted.
pub proof fn lemma_diff_kind_counts(prev: Rows, new: Rows)
    requires
        unique_keys(prev),
        unique_keys(new),
    ensures
        inserted_keys(prev, new).finite(),
        updated_keys(prev, new).finite(),
        deleted_keys(prev, new).finite(),
        of_kind(diff(prev, new), ChangeType::Insert).len() == inserted_keys(prev, new).len(),
        of_kind(diff(prev, new), ChangeType::Update).len() == updated_keys(prev, new).len(),
        of_kind(diff(prev, new), ChangeType::Delete).len() == deleted_keys(prev, new).len(),
{
    lemma_kind_count(prev, new, ChangeType::Insert, inserted_keys(prev, new));
    lemma_kind_count(prev, new, ChangeType::Update, updated_keys(prev, new));
    lemma_kind_count(prev, new, ChangeType::Delete, deleted_keys(prev, new));
}

} // verus!
