//! The dry-run evaluator as a state machine: it says which command to run next
//! and takes the answer. The transaction it opens is always rolled back before
//! it reports, and the user's statement only ever runs inside it.
use vstd::prelude::*;
use vstd::string::StringExecFns;
use crate::dry_run::{
    after_step, appends_deletes, appends_rows, attributed_rows, delete_befores, finish, is_rejected, jsons_view,
    record_deletes, record_rows, rejected_result, rollback_failure_text, wants_snapshot, AfterStep,
};
use crate::json::{Json, JsonV};
use crate::schema::{ChangeType, DryRunChange, DryRunResult};
use crate::snapshot::rows_view;
use crate::sql::{
    count_query, count_sql, names_view, newest_rows_query, newest_rows_sql, raw_rows_query, raw_rows_sql,
    raw_snapshot_query, raw_snapshot_sql, touched_rows_query, touched_rows_sql,
};

verus! {

/// The statement that lists every user table as (schema, name).
pub open spec fn user_tables_sql() -> Seq<char> {
    "SELECT schemaname::text, tablename::text FROM pg_tables WHERE schemaname NOT IN ('pg_catalog', 'information_schema')"@
}

/// How the rows of a query are to be handed back.
#[derive(Clone, Copy, Debug, PartialEq, Eq, Structural)]
pub enum RowShape {
    /// (schema, name) pairs: `Answer::Tables`.
    Tables,
    /// The `count` column of one row: `Answer::Count`.
    Count,
    /// The `raw` text and `data` JSON of each row: `Answer::RawRows`.
    RawRows,
    /// The `data` JSON of each row: `Answer::Rows`.
    JsonRows,
    /// The `data` text of each row: `Answer::Texts`.
    Texts,
}

/// What the evaluator asks to be done next.
#[derive(Clone, Debug)]
pub enum Command {
    /// Execute a transaction-control statement.
    Control(String),
    /// Run a query and hand its rows back in the given shape.
    Query { sql: String, shape: RowShape },
    /// Execute the user's statement as a batch.
    Statement(String),
    /// Nothing more: the result is ready.
    Finished,
}

/// The outcome of a command.
#[derive(Clone, Debug)]
pub enum Answer {
    /// A statement ran.
    Done,
    /// A command failed, with its diagnostic.
    Failed(String),
    Tables(Vec<(String, String)>),
    Count(i64),
    RawRows(Vec<(String, Json)>),
    Rows(Vec<Json>),
    Texts(Vec<String>),
}

/// Where the evaluator stands.
#[derive(Clone, Copy, Debug, PartialEq, Eq, Structural)]
pub enum DryRunPhase {
    Begin,
    ListTables,
    CountBefore(usize),
    SnapshotBefore(usize),
    Execute,
    CountAfter(usize),
    ReadInserted(usize, u64),
    ReadRemaining(usize, u64),
    ReadTouched(usize),
    Rollback,
    Done,
}

/// The phases up to and including the user's statement: nothing has failed and
/// no change has been reconstructed yet.
pub open spec fn early(p: DryRunPhase) -> bool {
    p is Begin || p is ListTables || p is CountBefore || p is SnapshotBefore || p is Execute
}

/// The phases that reconstruct changes: the reads after the statement, and the
/// rollback, which hands the changes over to the result.
pub open spec fn reconstructing(p: DryRunPhase) -> bool {
    p is CountAfter || p is ReadInserted || p is ReadRemaining || p is ReadTouched || p is Rollback
}

/// The phase after the before-reading of table `i` of `n`.
pub open spec fn next_before(i: usize, n: nat) -> DryRunPhase {
    if i + 1 < n { DryRunPhase::CountBefore((i + 1) as usize) } else { DryRunPhase::Execute }
}

/// The phase after the after-reading of table `i` of `n`.
pub open spec fn next_after(i: usize, n: nat) -> DryRunPhase {
    if i + 1 < n { DryRunPhase::CountAfter((i + 1) as usize) } else { DryRunPhase::Rollback }
}

/// The models of (schema, table) pairs.
pub open spec fn pairs_view(v: Seq<(String, String)>) -> Seq<(Seq<char>, Seq<char>)> {
    v.map_values(|p: (String, String)| (p.0@, p.1@))
}

/// The model of what was read before the statement: count and kept rows per table.
pub open spec fn before_view(v: Seq<(i64, Option<Vec<(String, Json)>>)>) -> Seq<(i64, Option<Seq<(Seq<char>, JsonV)>>)> {
    v.map_values(|b: (i64, Option<Vec<(String, Json)>>)| (b.0, match b.1 { Some(r) => Some(rows_view(r@)), None => None }))
}

/// The text given for an answer of the wrong kind.
pub open spec fn unexpected_text() -> Seq<char> {
    "unexpected answer"@
}

/// The diagnostic carried by a failed answer.
pub open spec fn failure_of(a: Answer) -> Seq<char> {
    match a {
        Answer::Failed(e) => e@,
        _ => unexpected_text(),
    }
}

/// Runs a dry run one command at a time.
pub struct DryRunEvaluator {
    sql: String,
    phase: DryRunPhase,
    in_transaction: bool,
    tables: Vec<(String, String)>,
    before: Vec<(i64, Option<Vec<(String, Json)>>)>,
    changes: Vec<DryRunChange>,
    statement_error: Option<String>,
    failure: Option<String>,
    result: Option<Result<DryRunResult, String>>,
}

fn failure_text(a: &Answer) -> (r: String)
    ensures
        r@ == failure_of(*a),
{
    match a {
        Answer::Failed(e) => e.clone(),
        _ => String::from_str("unexpected answer"),
    }
}

impl DryRunEvaluator {
    /// The current phase.
    pub closed spec fn phase(&self) -> DryRunPhase {
        self.phase
    }

    /// A transaction is open: BEGIN succeeded and ROLLBACK has not been answered.
    pub closed spec fn in_transaction(&self) -> bool {
        self.in_transaction
    }

    /// The user's statement.
    pub closed spec fn sql_text(&self) -> Seq<char> {
        self.sql@
    }

    /// The tables listed after BEGIN, as (schema, name).
    pub closed spec fn table_list(&self) -> Seq<(Seq<char>, Seq<char>)> {
        pairs_view(self.tables@)
    }

    /// Per table read so far: its count before the statement and the rows kept.
    pub closed spec fn before_reads(&self) -> Seq<(i64, Option<Seq<(Seq<char>, JsonV)>>)> {
        before_view(self.before@)
    }

    /// The changes reconstructed so far.
    pub closed spec fn change_list(&self) -> Seq<DryRunChange> {
        self.changes@
    }

    /// The diagnostic of the user's statement, when it failed.
    pub closed spec fn statement_error_text(&self) -> Option<Seq<char>> {
        match self.statement_error { Some(e) => Some(e@), None => None }
    }

    /// A failure that makes the run end in an error once rolled back.
    pub closed spec fn failure_text(&self) -> Option<Seq<char>> {
        match self.failure { Some(e) => Some(e@), None => None }
    }

    /// The result, once the run is over.
    pub closed spec fn outcome(&self) -> Option<Result<DryRunResult, String>> {
        self.result
    }

    /// How far the reads have got, as the phase says: no table is known before the
    /// listing, one count per table already counted, and every table counted from
    /// the statement on.
    pub open spec fn progress(&self) -> bool {
        let n = self.table_list().len();
        let m = self.before_reads().len();
        match self.phase() {
            DryRunPhase::Begin | DryRunPhase::ListTables => n == 0 && m == 0,
            DryRunPhase::CountBefore(i) => i < n && m == i,
            DryRunPhase::SnapshotBefore(i) => i < n && m == i + 1,
            DryRunPhase::Execute | DryRunPhase::Rollback => m == n,
            DryRunPhase::CountAfter(i) | DryRunPhase::ReadInserted(i, _) | DryRunPhase::ReadTouched(i) => i < n && m == n,
            DryRunPhase::ReadRemaining(i, _) => i < n && m == n && self.before_reads()[i as int].1 is Some,
            DryRunPhase::Done => true,
        }
    }

    /// The phase agrees with the data read so far and with the transaction state.
    pub closed spec fn wf(&self) -> bool {
        let n = self.tables@.len();
        &&& (self.phase is Done) == self.result is Some
        &&& (self.phase is Done || self.phase is Begin) ==> !self.in_transaction
        &&& !(self.phase is Done || self.phase is Begin) ==> self.in_transaction
        &&& self.changes@.len() <= i64::MAX
        &&& (self.phase is ListTables || self.phase is Begin) ==> self.before@.len() == 0 && self.tables@.len() == 0
        &&& early(self.phase) ==> self.statement_error is None && self.failure is None && self.changes@.len() == 0
        &&& match self.phase {
            DryRunPhase::CountBefore(i) => i < n && self.before@.len() == i,
            DryRunPhase::SnapshotBefore(i) => i < n && self.before@.len() == i + 1,
            DryRunPhase::Execute => self.before@.len() == n,
            DryRunPhase::CountAfter(i) => i < n && self.before@.len() == n,
            DryRunPhase::ReadInserted(i, _) => i < n && self.before@.len() == n,
            DryRunPhase::ReadRemaining(i, _) => i < n && self.before@.len() == n && self.before@[i as int].1 is Some,
            DryRunPhase::ReadTouched(i) => i < n && self.before@.len() == n,
            DryRunPhase::Rollback => self.before@.len() == n,
            _ => true,
        }
    }

    /// An evaluator for `sql`. A statement holding a transaction-control word is
    /// refused at once, and no transaction is opened.
    pub fn new(sql: &str) -> (r: DryRunEvaluator)
        ensures
            r.wf(),
            r.progress(),
            !r.in_transaction(),
            r.sql_text() == sql@,
            r.change_list().len() == 0,
            r.statement_error_text() is None,
            r.failure_text() is None,
            is_rejected_spec(sql@) ==> r.phase() is Done && match r.outcome() {
                Some(Ok(res)) => !res.success && res.changes@.len() == 0 && res.rows_affected == 0
                    && (res.error matches Some(e) && e@ == crate::dry_run::rejection_text()),
                _ => false,
            },
            !is_rejected_spec(sql@) ==> r.phase() is Begin,
    {
        let rejected = is_rejected(sql);
        let mut r = DryRunEvaluator {
            sql: String::from_str(sql),
            phase: DryRunPhase::Begin,
            in_transaction: false,
            tables: Vec::new(),
            before: Vec::new(),
            changes: Vec::new(),
            statement_error: None,
            failure: None,
            result: None,
        };
        if rejected {
            r.phase = DryRunPhase::Done;
            r.result = Some(Ok(rejected_result()));
        }
        proof {
            r.lemma_progress();
        }
        r
    }
}

impl DryRunEvaluator {
    /// The command to run next.
    pub fn command(&self) -> (r: Command)
        requires
            self.wf(),
        ensures
            match self.phase() {
                DryRunPhase::Begin => r matches Command::Control(t) && t@ == "BEGIN"@,
                DryRunPhase::ListTables => r matches Command::Query { sql, shape } && shape == RowShape::Tables
                    && sql@ == user_tables_sql(),
                DryRunPhase::CountBefore(i) => r matches Command::Query { sql, shape } && shape == RowShape::Count
                    && sql@ == count_sql(self.table_list()[i as int].0, self.table_list()[i as int].1),
                DryRunPhase::SnapshotBefore(i) => r matches Command::Query { sql, shape } && shape == RowShape::RawRows
                    && sql@ == raw_snapshot_sql(self.table_list()[i as int].0, self.table_list()[i as int].1),
                DryRunPhase::Execute => r matches Command::Statement(t) && t@ == self.sql_text(),
                DryRunPhase::CountAfter(i) => r matches Command::Query { sql, shape } && shape == RowShape::Count
                    && sql@ == count_sql(self.table_list()[i as int].0, self.table_list()[i as int].1),
                DryRunPhase::ReadInserted(i, n) => r matches Command::Query { sql, shape } && shape == RowShape::JsonRows
                    && sql@ == newest_rows_sql(self.table_list()[i as int].0, self.table_list()[i as int].1, n as nat),
                DryRunPhase::ReadRemaining(i, _) => r matches Command::Query { sql, shape } && shape == RowShape::Texts
                    && sql@ == raw_rows_sql(self.table_list()[i as int].0, self.table_list()[i as int].1),
                DryRunPhase::ReadTouched(i) => r matches Command::Query { sql, shape } && shape == RowShape::JsonRows
                    && sql@ == touched_rows_sql(self.table_list()[i as int].0, self.table_list()[i as int].1),
                DryRunPhase::Rollback => r matches Command::Control(t) && t@ == "ROLLBACK"@,
                DryRunPhase::Done => r is Finished,
            },
    {
        proof {
            match self.phase {
                DryRunPhase::CountBefore(i) | DryRunPhase::SnapshotBefore(i) | DryRunPhase::CountAfter(i)
                | DryRunPhase::ReadInserted(i, _) | DryRunPhase::ReadRemaining(i, _) | DryRunPhase::ReadTouched(i) => {
                    assert(self.table_list()[i as int] == (self.tables@[i as int].0@, self.tables@[i as int].1@));
                },
                _ => {},
            }
        }
        match self.phase {
            DryRunPhase::Begin => Command::Control(String::from_str("BEGIN")),
            DryRunPhase::ListTables => Command::Query {
                sql: String::from_str(
                    "SELECT schemaname::text, tablename::text FROM pg_tables WHERE schemaname NOT IN ('pg_catalog', 'information_schema')",
                ),
                shape: RowShape::Tables,
            },
            DryRunPhase::CountBefore(i) => Command::Query {
                sql: count_query(self.tables[i].0.as_str(), self.tables[i].1.as_str()),
                shape: RowShape::Count,
            },
            DryRunPhase::SnapshotBefore(i) => Command::Query {
                sql: raw_snapshot_query(self.tables[i].0.as_str(), self.tables[i].1.as_str()),
                shape: RowShape::RawRows,
            },
            DryRunPhase::Execute => Command::Statement(self.sql.clone()),
            DryRunPhase::CountAfter(i) => Command::Query {
                sql: count_query(self.tables[i].0.as_str(), self.tables[i].1.as_str()),
                shape: RowShape::Count,
            },
            DryRunPhase::ReadInserted(i, n) => Command::Query {
                sql: newest_rows_query(self.tables[i].0.as_str(), self.tables[i].1.as_str(), n),
                shape: RowShape::JsonRows,
            },
            DryRunPhase::ReadRemaining(i, _) => Command::Query {
                sql: raw_rows_query(self.tables[i].0.as_str(), self.tables[i].1.as_str()),
                shape: RowShape::Texts,
            },
            DryRunPhase::ReadTouched(i) => Command::Query {
                sql: touched_rows_query(self.tables[i].0.as_str(), self.tables[i].1.as_str()),
                shape: RowShape::JsonRows,
            },
            DryRunPhase::Rollback => Command::Control(String::from_str("ROLLBACK")),
            DryRunPhase::Done => Command::Finished,
        }
    }

    /// Whether the run is over.
    pub fn is_done(&self) -> (r: bool)
        ensures
            r == self.phase() is Done,
    {
        match self.phase {
            DryRunPhase::Done => true,
            _ => false,
        }
    }

    /// The outcome, once the run is over.
    pub fn into_result(self) -> (r: Option<Result<DryRunResult, String>>)
        ensures
            r == self.outcome(),
    {
        self.result
    }
}

/// `k` more changes still fit the count of changes a result can report.
pub open spec fn fits(len: nat, k: nat) -> bool {
    len + k <= i64::MAX
}

/// The text given when a run would report more changes than fit.
pub open spec fn overflow_text() -> Seq<char> {
    "too many changes to report"@
}

impl DryRunEvaluator {
    fn fail_with(&mut self, reason: String)
        requires
            !early(old(self).phase()),
        ensures
            final(self).failure_text() == Some(reason@),
            final(self).phase() == old(self).phase(),
            final(self).in_transaction() == old(self).in_transaction(),
            final(self).sql_text() == old(self).sql_text(),
            final(self).table_list() == old(self).table_list(),
            final(self).before_reads() == old(self).before_reads(),
            final(self).change_list() == old(self).change_list(),
            final(self).statement_error_text() == old(self).statement_error_text(),
            final(self).outcome() == old(self).outcome(),
            old(self).wf() ==> final(self).wf(),
    {
        self.failure = Some(reason);
    }

    fn add_rows(&mut self, i: usize, kind: ChangeType, rows: Vec<Json>)
        requires
            old(self).wf(),
            !early(old(self).phase()),
            i < old(self).table_list().len(),
        ensures
            final(self).wf(),
            final(self).phase() == old(self).phase(),
            final(self).in_transaction() == old(self).in_transaction(),
            final(self).sql_text() == old(self).sql_text(),
            final(self).table_list() == old(self).table_list(),
            final(self).before_reads() == old(self).before_reads(),
            final(self).statement_error_text() == old(self).statement_error_text(),
            final(self).outcome() == old(self).outcome(),
            fits(old(self).change_list().len(), rows@.len()) ==> {
                &&& appends_rows(old(self).change_list(), final(self).change_list(), old(self).table_list()[i as int].0,
                    old(self).table_list()[i as int].1, kind, jsons_view(rows@))
                &&& final(self).failure_text() == old(self).failure_text()
            },
            !fits(old(self).change_list().len(), rows@.len()) ==> {
                &&& final(self).change_list() == old(self).change_list()
                &&& final(self).failure_text() == Some(overflow_text())
            },
    {
        proof {
            assert(self.table_list()[i as int] == (self.tables@[i as int].0@, self.tables@[i as int].1@));
        }
        if (rows.len() as u64) > (i64::MAX as u64) - (self.changes.len() as u64) {
            self.fail_with(String::from_str("too many changes to report"));
            return;
        }
        record_rows(&mut self.changes, self.tables[i].0.as_str(), self.tables[i].1.as_str(), kind, rows);
    }

    fn add_deletes(&mut self, i: usize, count: u64, remaining: Option<&Vec<String>>)
        requires
            old(self).wf(),
            !early(old(self).phase()),
            i < old(self).table_list().len(),
            old(self).before_reads().len() == old(self).table_list().len(),
        ensures
            final(self).wf(),
            final(self).phase() == old(self).phase(),
            final(self).in_transaction() == old(self).in_transaction(),
            final(self).sql_text() == old(self).sql_text(),
            final(self).table_list() == old(self).table_list(),
            final(self).before_reads() == old(self).before_reads(),
            final(self).statement_error_text() == old(self).statement_error_text(),
            final(self).outcome() == old(self).outcome(),
            fits(old(self).change_list().len(), count as nat) ==> {
                &&& appends_deletes(old(self).change_list(), final(self).change_list(), old(self).table_list()[i as int].0,
                    old(self).table_list()[i as int].1, delete_befores(count as nat, attributed_rows(count as nat,
                    old(self).before_reads()[i as int].1, match remaining { Some(t) => Some(names_view(t@)), None => None })))
                &&& final(self).failure_text() == old(self).failure_text()
            },
            !fits(old(self).change_list().len(), count as nat) ==> {
                &&& final(self).change_list() == old(self).change_list()
                &&& final(self).failure_text() == Some(overflow_text())
            },
    {
        proof {
            assert(self.table_list()[i as int] == (self.tables@[i as int].0@, self.tables@[i as int].1@));
            assert(self.before_reads()[i as int].1 == match self.before@[i as int].1 { Some(r) => Some(rows_view(r@)), None => None });
        }
        if count > (i64::MAX as u64) - (self.changes.len() as u64) {
            self.fail_with(String::from_str("too many changes to report"));
            return;
        }
        record_deletes(
            &mut self.changes,
            self.tables[i].0.as_str(),
            self.tables[i].1.as_str(),
            count,
            self.before[i].1.as_ref(),
            remaining,
        );
    }
}

impl DryRunEvaluator {
    /// Takes the answer to the command of the current phase and moves on.
    pub fn advance(&mut self, answer: Answer)
        requires
            old(self).wf(),
        ensures
            final(self).wf(),
            final(self).progress(),
            final(self).sql_text() == old(self).sql_text(),
            final(self).in_transaction() && !old(self).in_transaction() ==> old(self).phase() is Begin && answer is Done,
            old(self).in_transaction() && !final(self).in_transaction() ==> old(self).phase() is Rollback,
            old(self).phase() is Done ==> final(self).phase() is Done && final(self).outcome() == old(self).outcome(),
            early(final(self).phase()) ==> final(self).failure_text() is None && final(self).change_list().len() == 0
                && final(self).statement_error_text() is None,
            !(old(self).phase() is ListTables) && final(self).failure_text() != old(self).failure_text()
                ==> final(self).failure_text() == Some(overflow_text()),
            !reconstructing(old(self).phase()) ==> final(self).change_list() == old(self).change_list(),
            !reconstructing(old(self).phase()) && !(old(self).phase() is ListTables) ==> final(self).failure_text()
                == old(self).failure_text(),
            old(self).phase() is Rollback ==> final(self).failure_text() == old(self).failure_text(),
            !(old(self).phase() is ListTables) && final(self).failure_text() != old(self).failure_text()
                ==> final(self).change_list() == old(self).change_list(),
            !(old(self).phase() is Execute) ==> final(self).statement_error_text() == old(self).statement_error_text(),
            !(old(self).phase() is ListTables) ==> final(self).table_list() == old(self).table_list(),
            !(old(self).phase() is CountBefore || old(self).phase() is SnapshotBefore) ==> final(self).before_reads()
                == old(self).before_reads(),
            ({
                let n = old(self).table_list().len();
                let prev = old(self).change_list();
                let next = final(self).change_list();
                match old(self).phase() {
                    DryRunPhase::Begin => if answer is Done {
                        final(self).phase() is ListTables
                    } else {
                        final(self).phase() is Done && (final(self).outcome() matches Some(Err(e)) && e@ == failure_of(answer))
                    },
                    DryRunPhase::ListTables => match answer {
                        Answer::Tables(ts) => final(self).table_list() == pairs_view(ts@) && final(self).phase() == if ts@.len()
                            == 0 { DryRunPhase::Execute } else { DryRunPhase::CountBefore(0) },
                        _ => final(self).phase() is Rollback && final(self).failure_text() == Some(failure_of(answer)),
                    },
                    DryRunPhase::CountBefore(i) => final(self).table_list() == old(self).table_list() && match answer {
                        Answer::Count(c) => final(self).before_reads() == old(self).before_reads().push((c, None))
                            && final(self).phase() == if 0 < c < 1000 { DryRunPhase::SnapshotBefore(i) } else { next_before(i, n) },
                        _ => final(self).before_reads() == old(self).before_reads().push((0, None)) && final(self).phase()
                            == next_before(i, n),
                    },
                    DryRunPhase::SnapshotBefore(i) => final(self).table_list() == old(self).table_list() && final(self).phase()
                        == next_before(i, n) && match answer {
                        Answer::RawRows(r) => final(self).before_reads() == old(self).before_reads().update(
                            i as int,
                            (old(self).before_reads()[i as int].0, Some(rows_view(r@))),
                        ),
                        _ => final(self).before_reads() == old(self).before_reads(),
                    },
                    DryRunPhase::Execute => if answer is Done {
                        final(self).statement_error_text() is None && final(self).phase() == if n > 0 {
                            DryRunPhase::CountAfter(0)
                        } else {
                            DryRunPhase::Rollback
                        }
                    } else {
                        final(self).statement_error_text() == Some(failure_of(answer)) && final(self).phase() is Rollback
                    },
                    DryRunPhase::CountAfter(i) => final(self).table_list() == old(self).table_list() && final(self).before_reads()
                        == old(self).before_reads() && match answer {
                        Answer::Count(c) => {
                            let b = old(self).before_reads()[i as int];
                            &&& c > b.0 ==> final(self).phase() == DryRunPhase::ReadInserted(i, (c - b.0) as u64) && next == prev
                                && final(self).failure_text() == old(self).failure_text()
                            &&& c == b.0 ==> final(self).phase() == DryRunPhase::ReadTouched(i) && next == prev && final(self).failure_text() == old(self).failure_text()
                            &&& c < b.0 && b.1 is Some ==> final(self).phase() == DryRunPhase::ReadRemaining(i, (b.0 - c) as u64)
                                && next == prev && final(self).failure_text() == old(self).failure_text()
                            &&& c < b.0 && b.1 is None ==> final(self).phase() == next_after(i, n) && if fits(prev.len(), (b.0 - c) as nat) {
                                appends_deletes(prev, next, old(self).table_list()[i as int].0, old(self).table_list()[i as int].1,
                                    delete_befores((b.0 - c) as nat, Seq::empty())) && final(self).failure_text() == old(self).failure_text()
                            } else {
                                next == prev && final(self).failure_text() == Some(overflow_text())
                            }
                        },
                        _ => final(self).phase() == next_after(i, n) && next == prev && final(self).failure_text() == old(self).failure_text(),
                    },
                    DryRunPhase::ReadInserted(i, _) => final(self).phase() == next_after(i, n) && match answer {
                        Answer::Rows(r) => if fits(prev.len(), r@.len()) {
                            appends_rows(prev, next, old(self).table_list()[i as int].0,
                                old(self).table_list()[i as int].1, ChangeType::Insert, jsons_view(r@)) && final(self).failure_text() == old(self).failure_text()
                        } else {
                            next == prev && final(self).failure_text() == Some(overflow_text())
                        },
                        _ => next == prev && final(self).failure_text() == old(self).failure_text(),
                    },
                    DryRunPhase::ReadTouched(i) => final(self).phase() == next_after(i, n) && match answer {
                        Answer::Rows(r) => if fits(prev.len(), r@.len()) {
                            appends_rows(prev, next, old(self).table_list()[i as int].0,
                                old(self).table_list()[i as int].1, ChangeType::Update, jsons_view(r@)) && final(self).failure_text() == old(self).failure_text()
                        } else {
                            next == prev && final(self).failure_text() == Some(overflow_text())
                        },
                        _ => next == prev && final(self).failure_text() == old(self).failure_text(),
                    },
                    DryRunPhase::ReadRemaining(i, k) => final(self).phase() == next_after(i, n) && if fits(prev.len(), k as nat) {
                        appends_deletes(prev, next, old(self).table_list()[i as int].0, old(self).table_list()[i as int].1,
                            delete_befores(k as nat, attributed_rows(k as nat, old(self).before_reads()[i as int].1,
                            match answer { Answer::Texts(t) => Some(names_view(t@)), _ => None }))) && final(self).failure_text() == old(self).failure_text()
                    } else {
                        next == prev && final(self).failure_text() == Some(overflow_text())
                    },
                    DryRunPhase::Rollback => final(self).phase() is Done && if answer is Done {
                        match old(self).failure_text() {
                            Some(e) => final(self).outcome() matches Some(Err(m)) && m@ == e,
                            None => final(self).outcome() matches Some(Ok(res)) && {
                                &&& res.success == old(self).statement_error_text() is None
                                &&& res.changes@ == prev
                                &&& res.rows_affected == prev.len()
                                &&& match res.error { Some(m) => old(self).statement_error_text() == Some(m@), None => old(self).statement_error_text() is None }
                            },
                        }
                    } else {
                        final(self).outcome() matches Some(Ok(res)) && {
                            &&& !res.success
                            &&& res.changes@.len() == 0
                            &&& res.rows_affected == 0
                            &&& (res.error matches Some(m) && m@ == rollback_failure_text(failure_of(answer)))
                        }
                    },
                    DryRunPhase::Done => true,
                }
            }),
    {
        let ghost n = self.tables@.len();
        proof {
            match self.phase {
                DryRunPhase::CountBefore(i) | DryRunPhase::SnapshotBefore(i) | DryRunPhase::CountAfter(i) => {
                    assert(i < n);
                },
                _ => {},
            }
        }
        match self.phase {
            DryRunPhase::Begin => {
                match answer {
                    Answer::Done => {
                        self.in_transaction = true;
                        self.phase = DryRunPhase::ListTables;
                    },
                    _ => {
                        let e = failure_text(&answer);
                        self.result = Some(Err(e));
                        self.phase = DryRunPhase::Done;
                    },
                }
            },
            DryRunPhase::ListTables => {
                match answer {
                    Answer::Tables(ts) => {
                        let empty = ts.len() == 0;
                        self.tables = ts;
                        self.phase = if empty { DryRunPhase::Execute } else { DryRunPhase::CountBefore(0) };
                    },
                    _ => {
                        let e = failure_text(&answer);
                        self.failure = Some(e);
                        self.phase = DryRunPhase::Rollback;
                    },
                }
            },
            DryRunPhase::CountBefore(i) => {
                let len = self.tables.len();
                let next = if i + 1 < len { DryRunPhase::CountBefore(i + 1) } else { DryRunPhase::Execute };
                match answer {
                    Answer::Count(c) => {
                        self.before.push((c, None));
                        self.phase = if wants_snapshot(c) { DryRunPhase::SnapshotBefore(i) } else { next };
                    },
                    _ => {
                        self.before.push((0, None));
                        self.phase = next;
                    },
                }
                proof {
                    assert(before_view(self.before@) =~= before_view(old(self).before@).push(before_view(self.before@).last()));
                }
            },
            DryRunPhase::SnapshotBefore(i) => {
                let len = self.tables.len();
                let next = if i + 1 < len { DryRunPhase::CountBefore(i + 1) } else { DryRunPhase::Execute };
                match answer {
                    Answer::RawRows(r) => {
                        let c = self.before[i].0;
                        self.before.set(i, (c, Some(r)));
                        proof {
                            assert(before_view(self.before@) =~= before_view(old(self).before@).update(
                                i as int,
                                (before_view(old(self).before@)[i as int].0, before_view(self.before@)[i as int].1),
                            ));
                        }
                    },
                    _ => {},
                }
                self.phase = next;
            },
            DryRunPhase::Execute => {
                match answer {
                    Answer::Done => {
                        self.phase = if self.tables.len() > 0 { DryRunPhase::CountAfter(0) } else { DryRunPhase::Rollback };
                    },
                    _ => {
                        let e = failure_text(&answer);
                        self.statement_error = Some(e);
                        self.phase = DryRunPhase::Rollback;
                    },
                }
            },
            DryRunPhase::CountAfter(i) => {
                let len = self.tables.len();
                let next = if i + 1 < len { DryRunPhase::CountAfter(i + 1) } else { DryRunPhase::Rollback };
                match answer {
                    Answer::Count(c) => {
                        let b = self.before[i].0;
                        let has_snapshot = self.before[i].1.is_some();
                        proof {
                            assert(self.before_reads()[i as int] == (b, match self.before@[i as int].1 {
                                Some(r) => Some(rows_view(r@)),
                                None => None,
                            }));
                        }
                        match after_step(self.tables[i].0.as_str(), self.tables[i].1.as_str(), b, c, has_snapshot) {
                            AfterStep::Inserts { count, .. } => {
                                self.phase = DryRunPhase::ReadInserted(i, count);
                            },
                            AfterStep::Deletes { count, remaining_query } => {
                                if has_snapshot {
                                    self.phase = DryRunPhase::ReadRemaining(i, count);
                                } else {
                                    self.add_deletes(i, count, None);
                                    self.phase = next;
                                }
                            },
                            AfterStep::Updates { .. } => {
                                self.phase = DryRunPhase::ReadTouched(i);
                            },
                        }
                    },
                    _ => {
                        self.phase = next;
                    },
                }
            },
            DryRunPhase::ReadInserted(i, _) => {
                let len = self.tables.len();
                let next = if i + 1 < len { DryRunPhase::CountAfter(i + 1) } else { DryRunPhase::Rollback };
                match answer {
                    Answer::Rows(r) => {
                        self.add_rows(i, ChangeType::Insert, r);
                    },
                    _ => {},
                }
                self.phase = next;
            },
            DryRunPhase::ReadTouched(i) => {
                let len = self.tables.len();
                let next = if i + 1 < len { DryRunPhase::CountAfter(i + 1) } else { DryRunPhase::Rollback };
                match answer {
                    Answer::Rows(r) => {
                        self.add_rows(i, ChangeType::Update, r);
                    },
                    _ => {},
                }
                self.phase = next;
            },
            DryRunPhase::ReadRemaining(i, k) => {
                let len = self.tables.len();
                let next = if i + 1 < len { DryRunPhase::CountAfter(i + 1) } else { DryRunPhase::Rollback };
                match answer {
                    Answer::Texts(t) => {
                        self.add_deletes(i, k, Some(&t));
                    },
                    _ => {
                        self.add_deletes(i, k, None);
                    },
                }
                self.phase = next;
            },
            DryRunPhase::Rollback => {
                let rollback = match answer {
                    Answer::Done => Ok(()),
                    _ => Err(failure_text(&answer)),
                };
                self.in_transaction = false;
                let mut changes: Vec<DryRunChange> = Vec::new();
                core::mem::swap(&mut self.changes, &mut changes);
                let outcome = match (&self.failure, rollback) {
                    (Some(e), Ok(())) => Err(e.clone()),
                    (_, rb) => Ok(finish(self.statement_error.clone(), changes, rb)),
                };
                self.result = Some(outcome);
                self.phase = DryRunPhase::Done;
            },
            DryRunPhase::Done => {},
        }
        proof {
            self.lemma_progress();
        }
    }
}

impl DryRunEvaluator {
    proof fn lemma_progress(&self)
        requires
            self.wf(),
        ensures
            self.progress(),
    {
        match self.phase {
            DryRunPhase::ReadRemaining(i, _) => {
                assert(before_view(self.before@)[i as int].1 == match self.before@[i as int].1 {
                    Some(r) => Some(rows_view(r@)),
                    None => None,
                });
            },
            _ => {},
        }
    }
}

/// The transaction is open exactly between the success of BEGIN and the answer
/// to ROLLBACK: the user's statement is only ever asked for while it is open, and
/// once the result is ready it is closed. With `advance`, which opens it only on
/// the answer to BEGIN and closes it only on the answer to ROLLBACK, no run
/// reports while leaving the statement's changes in place.
pub proof fn lemma_statement_inside_transaction(e: &DryRunEvaluator)
    requires
        e.wf(),
    ensures
        e.phase() is Execute ==> e.in_transaction(),
        e.phase() is Rollback ==> e.in_transaction(),
        e.phase() is Done ==> !e.in_transaction(),
        e.phase() is Begin ==> !e.in_transaction(),
{
}

/// A statement is refused when its upper-case form holds a transaction-control word.
pub open spec fn is_rejected_spec(sql: Seq<char>) -> bool {
    crate::dry_run::holds_transaction_control(crate::dry_run::upper_of(sql))
}

} // verus!
