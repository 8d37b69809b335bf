//! The decisions of a dry run: which statements are refused, what is read before
//! and after the statement, how changes are reconstructed, and the final result.
use vstd::prelude::*;
use vstd::string::StringExecFns;
use crate::json::{Json, JsonV};
use crate::schema::{opt_json, ChangeType, DryRunChange, DryRunResult};
use crate::sql::{count_query, newest_rows_query, raw_rows_query, raw_snapshot_query, touched_rows_query};
use crate::text::{concat2, contains, contains_str};
use crate::snapshot::rows_view;
use crate::sql::names_view;

verus! {

/// What `str::to_uppercase` makes of a text.
pub uninterp spec fn upper_of(s: Seq<char>) -> Seq<char>;

/// Relies on `str::to_uppercase`: the upper-case form depends on the text alone.
#[verifier::external_body]
fn to_upper(s: &str) -> (r: String)
    ensures
        r@ == upper_of(s@),
{
    s.to_uppercase()
}

/// What `{:?}` makes of an optional detail text.
pub uninterp spec fn debug_of(detail: Option<Seq<char>>) -> Seq<char>;

/// Relies on the `Debug` form of `Option<String>`: it depends on the value alone.
#[verifier::external_body]
fn detail_debug(detail: &Option<String>) -> (r: String)
    ensures
        r@ == debug_of(match detail { Some(d) => Some(d@), None => None }),
{
    format!("{:?}", detail)
}

/// An upper-case text holds a transaction-control word.
pub open spec fn holds_transaction_control(upper: Seq<char>) -> bool {
    contains(upper, "COMMIT"@) || contains(upper, "BEGIN"@) || contains(upper, "ROLLBACK"@)
}

/// Whether an upper-cased statement holds `COMMIT`, `BEGIN` or `ROLLBACK`.
pub fn has_transaction_control(upper: &str) -> (r: bool)
    ensures
        r == holds_transaction_control(upper@),
{
    contains_str(upper, "COMMIT") || contains_str(upper, "BEGIN") || contains_str(upper, "ROLLBACK")
}

/// Whether a statement is refused: its upper-case form holds a transaction-control word.
pub fn is_rejected(sql: &str) -> (r: bool)
    ensures
        r == holds_transaction_control(upper_of(sql@)),
{
    let upper = to_upper(sql);
    has_transaction_control(upper.as_str())
}

/// The reason given for a refused statement.
pub open spec fn rejection_text() -> Seq<char> {
    "SQL cannot contain COMMIT, BEGIN, or ROLLBACK statements in dry run mode"@
}

/// The result of a refused statement: failed, with no changes.
pub fn rejected_result() -> (r: DryRunResult)
    ensures
        !r.success,
        r.changes@.len() == 0,
        r.rows_affected == 0,
        match r.error { Some(e) => e@ == rejection_text(), None => false },
{
    DryRunResult {
        success: false,
        changes: Vec::new(),
        error: Some(String::from_str("SQL cannot contain COMMIT, BEGIN, or ROLLBACK statements in dry run mode")),
        rows_affected: 0,
    }
}

/// Whether the rows of a table with `count` rows are kept before the statement
/// runs, so that deleted rows can be shown.
pub fn wants_snapshot(count: i64) -> (r: bool)
    ensures
        r == (0 < count < 1000),
{
    0 < count && count < 1000
}

/// What to read of a table after the statement ran, from its row counts.
#[derive(Clone, Debug)]
pub enum AfterStep {
    /// Rows were added: read the `count` newest ones with `query`.
    Inserts { count: u64, query: String },
    /// Rows were removed: `count` of them; `remaining_query` reads the remaining rows as
    /// text when a snapshot was kept.
    Deletes { count: u64, remaining_query: Option<String> },
    /// The count is unchanged: read the rows this transaction wrote with `query`.
    Updates { query: String },
}

/// The step for a table whose count went from `before` to `after`.
pub fn after_step(schema: &str, table: &str, before: i64, after: i64, has_snapshot: bool) -> (r: AfterStep)
    ensures
        match r {
            AfterStep::Inserts { count, query } => after > before && count == after - before
                && query@ == crate::sql::newest_rows_sql(schema@, table@, count as nat),
            AfterStep::Deletes { count, remaining_query } => after < before && count == before - after && match remaining_query {
                Some(q) => has_snapshot && q@ == crate::sql::raw_rows_sql(schema@, table@),
                None => !has_snapshot,
            },
            AfterStep::Updates { query } => after == before && query@ == crate::sql::touched_rows_sql(schema@, table@),
        },
{
    let delta: i128 = after as i128 - before as i128;
    if delta > 0 {
        let n = delta as u64;
        AfterStep::Inserts { count: n, query: newest_rows_query(schema, table, n) }
    } else if delta < 0 {
        let n = (0 - delta) as u64;
        let query = if has_snapshot { Some(raw_rows_query(schema, table)) } else { None };
        AfterStep::Deletes { count: n, remaining_query: query }
    } else {
        AfterStep::Updates { query: touched_rows_query(schema, table) }
    }
}

/// The model of a dry-run change: schema, table, kind, contents before and after.
pub open spec fn change_model(c: DryRunChange) -> (Seq<char>, Seq<char>, ChangeType, Option<JsonV>, Option<JsonV>) {
    (c.schema@, c.table@, c.change_type, opt_json(c.before), opt_json(c.after))
}

/// The contents before and after of a change that carries `row` on one side.
pub open spec fn sides(row: JsonV, as_before: bool) -> (Option<JsonV>, Option<JsonV>) {
    if as_before { (Some(row), None) } else { (None, Some(row)) }
}

fn push_all(out: &mut Vec<DryRunChange>, schema: &str, table: &str, kind: ChangeType, rows: Vec<Json>, as_before: bool)
    ensures
        final(out)@.len() == old(out)@.len() + rows@.len(),
        forall|i: int| 0 <= i < old(out)@.len() ==> #[trigger] final(out)@[i] == old(out)@[i],
        forall|i: int| 0 <= i < rows@.len() ==>
            change_model(#[trigger] final(out)@[old(out)@.len() + i])
                == (schema@, table@, kind, sides(rows@[i]@, as_before).0, sides(rows@[i]@, as_before).1),
{
    let ghost start = out@;
    let ghost all = rows@;
    let n = rows.len();
    let mut pending = rows;
    let mut reversed: Vec<Json> = Vec::new();
    while pending.len() > 0
        invariant
            pending@.len() + reversed@.len() == n,
            n == all.len(),
            pending@ == all.take(pending@.len() as int),
            forall|j: int| 0 <= j < reversed@.len() ==> reversed@[j] == all[n - 1 - j],
        decreases pending@.len(),
    {
        let row = pending.pop().unwrap();
        reversed.push(row);
        proof {
            assert(pending@ =~= all.take(pending@.len() as int));
        }
    }
    while reversed.len() > 0
        invariant
            out@.len() == start.len() + (n - reversed@.len()),
            reversed@.len() <= n,
            n == all.len(),
            forall|j: int| 0 <= j < reversed@.len() ==> reversed@[j] == all[n - 1 - j],
            forall|i: int| 0 <= i < start.len() ==> #[trigger] out@[i] == start[i],
            forall|i: int| 0 <= i < n - reversed@.len() ==>
                change_model(#[trigger] out@[start.len() + i])
                    == (schema@, table@, kind, sides(all[i]@, as_before).0, sides(all[i]@, as_before).1),
        decreases reversed@.len(),
    {
        let row = reversed.pop().unwrap();
        let (before, after) = if as_before { (Some(row), None) } else { (None, Some(row)) };
        out.push(DryRunChange {
            schema: String::from_str(schema),
            table: String::from_str(table),
            change_type: kind,
            before,
            after,
        });
    }
}

/// `next` is `prev` followed by one change of `kind` per row of `rows`, the row
/// as the contents after.
pub open spec fn appends_rows(
    prev: Seq<DryRunChange>,
    next: Seq<DryRunChange>,
    schema: Seq<char>,
    table: Seq<char>,
    kind: ChangeType,
    rows: Seq<JsonV>,
) -> bool {
    &&& next.len() == prev.len() + rows.len()
    &&& forall|i: int| 0 <= i < prev.len() ==> #[trigger] next[i] == prev[i]
    &&& forall|i: int| 0 <= i < rows.len() ==>
        change_model(#[trigger] next[prev.len() + i]) == (schema, table, kind, None::<JsonV>, Some(rows[i]))
}

/// `next` is `prev` followed by one deletion per entry of `befores`, each with
/// that entry as the contents before.
pub open spec fn appends_deletes(
    prev: Seq<DryRunChange>,
    next: Seq<DryRunChange>,
    schema: Seq<char>,
    table: Seq<char>,
    befores: Seq<Option<JsonV>>,
) -> bool {
    &&& next.len() == prev.len() + befores.len()
    &&& forall|i: int| 0 <= i < prev.len() ==> #[trigger] next[i] == prev[i]
    &&& forall|i: int| 0 <= i < befores.len() ==>
        change_model(#[trigger] next[prev.len() + i]) == (schema, table, ChangeType::Delete, befores[i], None::<JsonV>)
}

/// The models of a list of JSON values.
pub open spec fn jsons_view(v: Seq<Json>) -> Seq<JsonV> {
    v.map_values(|j: Json| j@)
}

/// Appends one change of `kind` per row of `rows`, in order, with the row as the
/// contents after the change (inserted rows; rows written in place).
pub fn record_rows(out: &mut Vec<DryRunChange>, schema: &str, table: &str, kind: ChangeType, rows: Vec<Json>)
    ensures
        final(out)@.len() == old(out)@.len() + rows@.len(),
        forall|i: int| 0 <= i < old(out)@.len() ==> #[trigger] final(out)@[i] == old(out)@[i],
        forall|i: int| 0 <= i < rows@.len() ==>
            change_model(#[trigger] final(out)@[old(out)@.len() + i]) == (schema@, table@, kind, None::<JsonV>, Some(rows@[i]@)),
        appends_rows(old(out)@, final(out)@, schema@, table@, kind, jsons_view(rows@)),
{
    push_all(out, schema, table, kind, rows, false);
}

/// The contents of the rows found deleted: walking the snapshot in order, each
/// row whose text is no longer among `remaining`, at most `k` of them.
pub open spec fn deleted_befores(snap: Seq<(Seq<char>, JsonV)>, remaining: Seq<Seq<char>>, k: nat) -> Seq<JsonV>
    decreases snap.len(),
{
    if snap.len() == 0 || k == 0 {
        Seq::empty()
    } else if remaining.contains(snap[0].0) {
        deleted_befores(snap.drop_first(), remaining, k)
    } else {
        seq![snap[0].1] + deleted_befores(snap.drop_first(), remaining, (k - 1) as nat)
    }
}

proof fn lemma_deleted_befores_len(snap: Seq<(Seq<char>, JsonV)>, remaining: Seq<Seq<char>>, k: nat)
    ensures
        deleted_befores(snap, remaining, k).len() <= k,
    decreases snap.len(),
{
    if snap.len() > 0 && k > 0 {
        if remaining.contains(snap[0].0) {
            lemma_deleted_befores_len(snap.drop_first(), remaining, k);
        } else {
            lemma_deleted_befores_len(snap.drop_first(), remaining, (k - 1) as nat);
        }
    }
}

/// The contents before of `count` deletions: the rows attributed first, then
/// deletions whose contents are unknown.
pub open spec fn delete_befores(count: nat, attributed: Seq<JsonV>) -> Seq<Option<JsonV>> {
    Seq::new(count, |i: int| if i < attributed.len() { Some(attributed[i]) } else { None })
}

/// The rows attributed to `count` deletions, given the kept snapshot (row text and
/// row) and the texts of the rows that remain; nothing when either is missing.
pub open spec fn attributed_rows(
    count: nat,
    snapshot: Option<Seq<(Seq<char>, JsonV)>>,
    remaining: Option<Seq<Seq<char>>>,
) -> Seq<JsonV> {
    match (snapshot, remaining) {
        (Some(s), Some(r)) => deleted_befores(s, r, count),
        _ => Seq::empty(),
    }
}

fn holds_text(v: &Vec<String>, s: &String) -> (r: bool)
    ensures
        r == names_view(v@).contains(s@),
{
    let mut i: usize = 0;
    while i < v.len()
        invariant
            0 <= i <= v.len(),
            forall|j: int| 0 <= j < i ==> v@[j]@ != s@,
        decreases v.len() - i,
    {
        if v[i] == *s {
            proof {
                assert(names_view(v@)[i as int] == s@);
            }
            return true;
        }
        i = i + 1;
    }
    proof {
        if names_view(v@).contains(s@) {
            let j = choose|j: int| 0 <= j < names_view(v@).len() && names_view(v@)[j] == s@;
            assert(v@[j]@ == s@);
        }
    }
    false
}

fn attribute(snapshot: &Vec<(String, Json)>, remaining: &Vec<String>, count: u64) -> (r: Vec<Json>)
    ensures
        r@.map_values(|j: Json| j@) == deleted_befores(rows_view(snapshot@), names_view(remaining@), count as nat),
{
    let ghost snap = rows_view(snapshot@);
    let ghost rem = names_view(remaining@);
    let n = snapshot.len();
    let mut found: u64 = 0;
    let mut out: Vec<Json> = Vec::new();
    let mut i: usize = 0;
    proof {
        assert(snap.subrange(0, n as int) =~= snap);
        assert(out@.map_values(|j: Json| j@) + deleted_befores(snap, rem, count as nat)
            =~= deleted_befores(snap, rem, count as nat));
    }
    while i < n && found < count
        invariant
            n == snapshot@.len(),
            snap == rows_view(snapshot@),
            rem == names_view(remaining@),
            0 <= i <= n,
            found <= count,
            out@.len() == found,
            out@.map_values(|j: Json| j@) + deleted_befores(snap.subrange(i as int, n as int), rem, (count - found) as nat)
                == deleted_befores(snap, rem, count as nat),
        decreases n - i,
    {
        let ghost rest = snap.subrange(i as int, n as int);
        proof {
            assert(rest.drop_first() =~= snap.subrange(i + 1, n as int));
            assert(rest[0] == snap[i as int]);
        }
        if !holds_text(remaining, &snapshot[i].0) {
            let ghost prev = out@.map_values(|j: Json| j@);
            out.push(snapshot[i].1.duplicate());
            proof {
                assert(out@.map_values(|j: Json| j@) =~= prev.push(snap[i as int].1));
                assert(prev + deleted_befores(rest, rem, (count - found) as nat)
                    =~= prev.push(snap[i as int].1) + deleted_befores(snap.subrange(i + 1, n as int), rem, (count - found - 1) as nat));
            }
            found = found + 1;
        }
        i = i + 1;
    }
    proof {
        if i == n {
            assert(snap.subrange(n as int, n as int).len() == 0);
        }
        assert(out@.map_values(|j: Json| j@) + Seq::<JsonV>::empty() =~= out@.map_values(|j: Json| j@));
    }
    out
}

/// Appends `count` deletions of `schema.table`: first the rows of `snapshot` whose
/// text is not among `remaining` (in snapshot order), then deletions with no
/// contents until there are `count` of them.
pub fn record_deletes(
    out: &mut Vec<DryRunChange>,
    schema: &str,
    table: &str,
    count: u64,
    snapshot: Option<&Vec<(String, Json)>>,
    remaining: Option<&Vec<String>>,
)
    ensures
        ({
            let attributed = attributed_rows(
                count as nat,
                match snapshot { Some(s) => Some(rows_view(s@)), None => None },
                match remaining { Some(r) => Some(names_view(r@)), None => None },
            );
            let befores = delete_befores(count as nat, attributed);
            &&& attributed.len() <= count
            &&& final(out)@.len() == old(out)@.len() + count
            &&& forall|i: int| 0 <= i < old(out)@.len() ==> #[trigger] final(out)@[i] == old(out)@[i]
            &&& forall|i: int| 0 <= i < count ==>
                change_model(#[trigger] final(out)@[old(out)@.len() + i]) == (schema@, table@, ChangeType::Delete, befores[i], None::<JsonV>)
            &&& appends_deletes(old(out)@, final(out)@, schema@, table@, befores)
        }),
{
    let ghost attributed = attributed_rows(
        count as nat,
        match snapshot { Some(s) => Some(rows_view(s@)), None => None },
        match remaining { Some(r) => Some(names_view(r@)), None => None },
    );
    let found = match (snapshot, remaining) {
        (Some(s), Some(r)) => attribute(s, r, count),
        _ => Vec::new(),
    };
    proof {
        match (snapshot, remaining) {
            (Some(s), Some(r)) => lemma_deleted_befores_len(rows_view(s@), names_view(r@), count as nat),
            _ => {},
        }
        assert(found@.map_values(|j: Json| j@) =~= attributed);
    }
    let ghost start = out@;
    let ghost found_view = found@;
    let n = found.len();
    push_all(out, schema, table, ChangeType::Delete, found, true);
    let ghost befores = delete_befores(count as nat, attributed);
    let mut k: u64 = n as u64;
    while k < count
        invariant
            n <= count,
            n as u64 <= k <= count,
            out@.len() == start.len() + k,
            found_view.len() == n,
            found_view.map_values(|j: Json| j@) == attributed,
            befores == delete_befores(count as nat, attributed),
            forall|i: int| 0 <= i < start.len() ==> #[trigger] out@[i] == start[i],
            forall|i: int| 0 <= i < k ==>
                change_model(#[trigger] out@[start.len() + i]) == (schema@, table@, ChangeType::Delete, befores[i], None::<JsonV>),
        decreases count - k,
    {
        out.push(DryRunChange {
            schema: String::from_str(schema),
            table: String::from_str(table),
            change_type: ChangeType::Delete,
            before: None,
            after: None,
        });
        k = k + 1;
    }
}

/// The diagnostic of a failed statement: `severity: message (code: code, detail: d)`,
/// where `d` is the rendered optional detail.
pub open spec fn diagnostic_text(severity: Seq<char>, message: Seq<char>, code: Seq<char>, detail: Seq<char>) -> Seq<char> {
    severity + ": "@ + message + " (code: "@ + code + ", detail: "@ + detail + ")"@
}

/// The diagnostic, given the detail already rendered.
pub fn diagnostic_with(severity: &str, message: &str, code: &str, detail: &str) -> (r: String)
    ensures
        r@ == diagnostic_text(severity@, message@, code@, detail@),
{
    let mut r = String::from_str(severity);
    r.append(": ");
    r.append(message);
    r.append(" (code: ");
    r.append(code);
    r.append(", detail: ");
    r.append(detail);
    r.append(")");
    r
}

/// The diagnostic of a database error, its optional detail shown as `None` or `Some("...")`.
pub fn diagnostic(severity: &str, message: &str, code: &str, detail: &Option<String>) -> (r: String)
    ensures
        r@ == diagnostic_text(severity@, message@, code@, debug_of(match detail { Some(d) => Some(d@), None => None })),
{
    let d = detail_debug(detail);
    diagnostic_with(severity, message, code, d.as_str())
}

/// The message of a failed rollback.
pub open spec fn rollback_failure_text(reason: Seq<char>) -> Seq<char> {
    "CRITICAL: Rollback failed - "@ + reason
}

/// The result of a dry run once the transaction was rolled back, or failed to be.
/// A failed rollback overrides everything else; otherwise the run succeeded
/// exactly when the statement did, and `rows_affected` counts the changes.
pub fn finish(statement_error: Option<String>, changes: Vec<DryRunChange>, rollback: Result<(), String>) -> (r: DryRunResult)
    requires
        changes@.len() <= i64::MAX,
    ensures
        match rollback {
            Err(e) => {
                &&& !r.success
                &&& r.changes@.len() == 0
                &&& r.rows_affected == 0
                &&& match r.error { Some(m) => m@ == rollback_failure_text(e@), None => false }
            },
            Ok(_) => {
                &&& r.success == statement_error is None
                &&& r.changes@ == changes@
                &&& r.rows_affected == changes@.len()
                &&& r.error == statement_error
            },
        },
{
    match rollback {
        Err(e) => DryRunResult {
            success: false,
            changes: Vec::new(),
            error: Some(concat2("CRITICAL: Rollback failed - ", e.as_str())),
            rows_affected: 0,
        },
        Ok(_) => {
            let n = changes.len() as i64;
            DryRunResult { success: statement_error.is_none(), changes, error: statement_error, rows_affected: n }
        },
    }
}

} // verus!
