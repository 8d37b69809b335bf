//! The set of watched tables, the running flag of the poll loop, and what one
//! poll of a table does to the stored snapshot.
use vstd::prelude::*;
use crate::diff::{changes_view, diff, lemma_diff_reports_exactly, lemma_no_events_iff_same_rows, reports_exactly, RowChange, RowChangeV};
use crate::json::Json;
use crate::snapshot::{put_all, rows_view, same_rows, unique_keys, Rows, Snapshot};
use crate::sql::{count_query, count_sql, names_view, snapshot_query, snapshot_sql};
use crate::text::concat3;
use vstd::string::StringExecFns;

verus! {

/// Poll cadence and sampling limit.
#[derive(Clone, Debug)]
pub struct WatcherConfig {
    /// Polling interval in milliseconds.
    pub interval_ms: u64,
    /// Maximum rows read per table and tick.
    pub max_rows_per_table: i64,
}

/// The default polling interval: one second.
pub fn default_interval() -> (r: u64)
    ensures
        r == 1000,
{
    1000
}

/// The default sampling limit per table.
pub fn default_max_rows() -> (r: i64)
    ensures
        r == 10000,
{
    10000
}

impl Default for WatcherConfig {
    fn default() -> (r: WatcherConfig)
        ensures
            r.interval_ms == 1000,
            r.max_rows_per_table == 10000,
    {
        WatcherConfig { interval_ms: default_interval(), max_rows_per_table: default_max_rows() }
    }
}

impl WatcherConfig {
    /// The row limit of a snapshot query; a negative setting reads no rows.
    pub fn row_limit(&self) -> (r: u64)
        ensures
            r == if self.max_rows_per_table < 0 { 0 } else { self.max_rows_per_table as u64 },
    {
        if self.max_rows_per_table < 0 {
            0
        } else {
            self.max_rows_per_table as u64
        }
    }
}

/// The store key of a table.
pub open spec fn table_key(schema: Seq<char>, table: Seq<char>) -> Seq<char> {
    schema + "."@ + table
}

/// Why a table could not be added.
#[derive(Clone, Debug)]
pub enum WatchError {
    /// The table has no primary key.
    MissingPrimaryKey { schema: String, table: String },
}

impl WatchError {
    /// The message shown to the user.
    pub fn message(&self) -> (r: String)
        ensures
            match self {
                WatchError::MissingPrimaryKey { schema, table } => r@ == "Table "@ + schema@ + "."@ + table@
                    + " has no primary key. Cannot watch tables without primary key."@,
            },
    {
        match self {
            WatchError::MissingPrimaryKey { schema, table } => {
                let mut r = concat3("Table ", schema.as_str(), ".");
                r.append(table.as_str());
                r.append(" has no primary key. Cannot watch tables without primary key.");
                r
            },
        }
    }
}

/// The stored state of one watched table.
pub struct TableState {
    schema: String,
    table: String,
    pk_columns: Vec<String>,
    rows: Snapshot,
    row_count: i64,
}

/// The model of a watched table.
pub struct TableStateV {
    pub schema: Seq<char>,
    pub table: Seq<char>,
    pub pk_columns: Seq<Seq<char>>,
    pub rows: Rows,
    pub row_count: i64,
}

impl View for TableState {
    type V = TableStateV;

    closed spec fn view(&self) -> TableStateV {
        TableStateV {
            schema: self.schema@,
            table: self.table@,
            pk_columns: names_view(self.pk_columns@),
            rows: self.rows@,
            row_count: self.row_count,
        }
    }
}

impl TableState {
    /// The snapshot is well formed and the table has key columns.
    pub closed spec fn wf(&self) -> bool {
        self.rows.wf() && self.pk_columns@.len() > 0
    }
}

/// The key of a table's model.
pub open spec fn state_key(t: TableStateV) -> Seq<char> {
    table_key(t.schema, t.table)
}

/// The tables as a sequence of models.
pub open spec fn states_view(v: Seq<TableState>) -> Seq<TableStateV> {
    v.map_values(|t: TableState| t@)
}

/// Some watched table has key `k`.
pub open spec fn watches(ts: Seq<TableStateV>, k: Seq<char>) -> bool {
    exists|i: int| 0 <= i < ts.len() && state_key(ts[i]) == k
}

/// The position of the table with key `k`.
pub open spec fn watch_index(ts: Seq<TableStateV>, k: Seq<char>) -> int {
    choose|i: int| 0 <= i < ts.len() && state_key(ts[i]) == k
}

/// The keys of the watched tables, in order.
pub open spec fn watched_keys(ts: Seq<TableStateV>) -> Seq<Seq<char>> {
    ts.map_values(|t: TableStateV| state_key(t))
}

/// The model of the watcher.
pub struct WatcherV {
    pub tables: Seq<TableStateV>,
    pub running: bool,
    pub interval_ms: u64,
    pub max_rows_per_table: i64,
}

/// Polls watched tables for changes; holds one snapshot per table.
pub struct TableWatcher {
    config: WatcherConfig,
    tables: Vec<TableState>,
    running: bool,
}

impl View for TableWatcher {
    type V = WatcherV;

    closed spec fn view(&self) -> WatcherV {
        WatcherV {
            tables: states_view(self.tables@),
            running: self.running,
            interval_ms: self.config.interval_ms,
            max_rows_per_table: self.config.max_rows_per_table,
        }
    }
}

/// What `start` does to the running flag: it hands out the event stream only
/// when the loop was not running, and leaves the loop running.
pub open spec fn start_outcome(running: bool) -> (bool, bool) {
    (!running, true)
}

/// How many event streams `n` calls of `start` in a row hand out, from a
/// watcher whose running flag is `running`.
pub open spec fn streams_handed_out(running: bool, n: nat) -> nat
    decreases n,
{
    if n == 0 {
        0
    } else {
        (if start_outcome(running).0 { 1nat } else { 0nat }) + streams_handed_out(start_outcome(running).1, (n - 1) as nat)
    }
}

/// However many times `start` is called between two calls of `stop`, at most
/// one event stream is handed out.
pub proof fn lemma_at_most_one_stream(running: bool, n: nat)
    ensures
        streams_handed_out(running, n) <= 1,
        running ==> streams_handed_out(running, n) == 0,
    decreases n,
{
    if n > 0 {
        lemma_at_most_one_stream(true, (n - 1) as nat);
    }
}

/// What one poll of a table leaves in the store: the rows just read when any
/// event was found or the row count moved, the stored rows otherwise.
pub open spec fn polled_rows(stored: Rows, count: i64, read: Rows, new_count: i64) -> Rows {
    if diff(stored, read).len() > 0 || count != new_count { read } else { stored }
}

/// One table to poll: its name and the two statements that read it.
#[derive(Clone, Debug)]
pub struct PollTarget {
    pub schema: String,
    pub table: String,
    pub snapshot_query: String,
    pub count_query: String,
}

/// `r` holds one poll target per watched table, in order, with the statements
/// that read its snapshot (up to the row limit) and its row count.
pub open spec fn targets_of(w: WatcherV, r: Seq<PollTarget>) -> bool {
    &&& r.len() == w.tables.len()
    &&& forall|i: int| 0 <= i < r.len() ==> {
        let t = w.tables[i];
        &&& (#[trigger] r[i]).schema@ == t.schema
        &&& r[i].table@ == t.table
        &&& r[i].snapshot_query@ == snapshot_sql(t.schema, t.table, t.pk_columns,
            if w.max_rows_per_table < 0 { 0 } else { w.max_rows_per_table as nat })
        &&& r[i].count_query@ == count_sql(t.schema, t.table)
    }
}

/// What the poll loop does at a tick.
#[derive(Clone, Debug)]
pub enum TickPlan {
    /// The loop was asked to stop: it ends.
    Stop,
    /// The database is not connected: nothing is read this tick.
    Skip,
    /// Read these tables, in order.
    Poll(Vec<PollTarget>),
}

impl TableWatcher {
    /// Every table is well formed and no two tables share a key.
    pub closed spec fn wf(&self) -> bool {
        &&& forall|i: int| 0 <= i < self.tables@.len() ==> (#[trigger] self.tables@[i]).wf()
        &&& forall|i: int, j: int| 0 <= i < j < self.tables@.len() ==>
            state_key(self.tables@[i]@) != state_key(self.tables@[j]@)
    }

    /// A stopped watcher with no tables.
    pub fn new(config: WatcherConfig) -> (r: TableWatcher)
        ensures
            r.wf(),
            r@.tables.len() == 0,
            !r@.running,
            r@.interval_ms == config.interval_ms,
            r@.max_rows_per_table == config.max_rows_per_table,
    {
        let r = TableWatcher { config, tables: Vec::new(), running: false };
        proof {
            assert(r@.tables =~= Seq::<TableStateV>::empty());
        }
        r
    }

    /// Whether the poll loop is running.
    pub fn is_running(&self) -> (r: bool)
        ensures
            r == self@.running,
    {
        self.running
    }

    fn find(&self, schema: &str, table: &str) -> (r: Option<usize>)
        ensures
            match r {
                Some(i) => i < self@.tables.len() && state_key(self@.tables[i as int]) == table_key(schema@, table@),
                None => !watches(self@.tables, table_key(schema@, table@)),
            },
    {
        let key = concat3(schema, ".", table);
        let mut i: usize = 0;
        while i < self.tables.len()
            invariant
                0 <= i <= self.tables.len(),
                key@ == table_key(schema@, table@),
                forall|j: int| 0 <= j < i ==> state_key(self@.tables[j]) != key@,
            decreases self.tables.len() - i,
        {
            let k = concat3(self.tables[i].schema.as_str(), ".", self.tables[i].table.as_str());
            if k == key {
                return Some(i);
            }
            i = i + 1;
        }
        None
    }

    /// Whether `schema.table` is watched.
    pub fn is_watched(&self, schema: &str, table: &str) -> (r: bool)
        ensures
            r == watches(self@.tables, table_key(schema@, table@)),
    {
        self.find(schema, table).is_some()
    }

    /// Starts watching `schema.table` with its key columns and a first snapshot
    /// read before any poll. A table already watched is left as it is.
    pub fn add_table(
        &mut self,
        schema: &str,
        table: &str,
        pk_columns: Vec<String>,
        rows: Vec<(String, Json)>,
        row_count: i64,
    ) -> (r: Result<(), WatchError>)
        requires
            old(self).wf(),
        ensures
            final(self).wf(),
            final(self)@.running == old(self)@.running,
            final(self)@.interval_ms == old(self)@.interval_ms,
            final(self)@.max_rows_per_table == old(self)@.max_rows_per_table,
            watches(old(self)@.tables, table_key(schema@, table@)) ==> r is Ok && final(self)@ == old(self)@,
            !watches(old(self)@.tables, table_key(schema@, table@)) && pk_columns@.len() == 0 ==> {
                &&& match r {
                    Err(WatchError::MissingPrimaryKey { schema: s, table: t }) => s@ == schema@ && t@ == table@,
                    Ok(_) => false,
                }
                &&& final(self)@ == old(self)@
            },
            !watches(old(self)@.tables, table_key(schema@, table@)) && pk_columns@.len() > 0 ==> {
                &&& r is Ok
                &&& final(self)@.tables == old(self)@.tables.push(TableStateV {
                    schema: schema@,
                    table: table@,
                    pk_columns: names_view(pk_columns@),
                    rows: put_all(rows_view(rows@)),
                    row_count,
                })
            },
    {
        if self.find(schema, table).is_some() {
            return Ok(());
        }
        if pk_columns.len() == 0 {
            return Err(WatchError::MissingPrimaryKey { schema: String::from_str(schema), table: String::from_str(table) });
        }
        let snapshot = Snapshot::from_rows(rows);
        let state = TableState {
            schema: String::from_str(schema),
            table: String::from_str(table),
            pk_columns,
            rows: snapshot,
            row_count,
        };
        let ghost prev = self.tables@;
        self.tables.push(state);
        proof {
            assert(states_view(self.tables@) =~= states_view(prev).push(self.tables@[prev.len() as int]@));
            assert forall|i: int, j: int| 0 <= i < j < self.tables@.len() implies
                state_key(self.tables@[i]@) != state_key(self.tables@[j]@) by {
                if j == prev.len() {
                    assert(states_view(prev)[i] == prev[i]@);
                }
            }
            assert(forall|i: int| 0 <= i < prev.len() ==> self.tables@[i] == prev[i]);
        }
        Ok(())
    }

    /// Stops watching `schema.table`; nothing is published.
    pub fn remove_table(&mut self, schema: &str, table: &str)
        requires
            old(self).wf(),
        ensures
            final(self).wf(),
            final(self)@.running == old(self)@.running,
            final(self)@.interval_ms == old(self)@.interval_ms,
            final(self)@.max_rows_per_table == old(self)@.max_rows_per_table,
            !watches(final(self)@.tables, table_key(schema@, table@)),
            !watches(old(self)@.tables, table_key(schema@, table@)) ==> final(self)@ == old(self)@,
            watches(old(self)@.tables, table_key(schema@, table@)) ==> final(self)@.tables == old(self)@.tables.remove(
                watch_index(old(self)@.tables, table_key(schema@, table@)),
            ),
    {
        match self.find(schema, table) {
            None => {},
            Some(i) => {
                let ghost prev = self.tables@;
                let ghost k = table_key(schema@, table@);
                proof {
                    assert(states_view(prev)[i as int] == prev[i as int]@);
                    let w = watch_index(states_view(prev), k);
                    assert(states_view(prev)[w] == prev[w]@);
                    assert(w == i);
                }
                self.tables.remove(i);
                proof {
                    assert(states_view(self.tables@) =~= states_view(prev).remove(i as int));
                    assert forall|j: int| 0 <= j < self.tables@.len() implies state_key(self@.tables[j]) != k by {
                        if j < i {
                            assert(self.tables@[j] == prev[j]);
                        } else {
                            assert(self.tables@[j] == prev[j + 1]);
                        }
                    }
                    assert forall|a: int, b: int| 0 <= a < b < self.tables@.len() implies
                        state_key(self.tables@[a]@) != state_key(self.tables@[b]@) by {
                        let pa = if a < i { a } else { a + 1 };
                        let pb = if b < i { b } else { b + 1 };
                        assert(self.tables@[a] == prev[pa]);
                        assert(self.tables@[b] == prev[pb]);
                    }
                    assert forall|j: int| 0 <= j < self.tables@.len() implies (#[trigger] self.tables@[j]).wf() by {
                        if j < i {
                            assert(self.tables@[j] == prev[j]);
                        } else {
                            assert(self.tables@[j] == prev[j + 1]);
                        }
                    }
                }
            },
        }
    }

    /// The keys (`schema.table`) of the watched tables, in the order they were added.
    pub fn get_watched_tables(&self) -> (r: Vec<String>)
        ensures
            r@.map_values(|s: String| s@) == watched_keys(self@.tables),
    {
        let mut out: Vec<String> = Vec::new();
        let mut i: usize = 0;
        while i < self.tables.len()
            invariant
                0 <= i <= self.tables.len(),
                out@.map_values(|s: String| s@) == watched_keys(self@.tables).take(i as int),
            decreases self.tables.len() - i,
        {
            let k = concat3(self.tables[i].schema.as_str(), ".", self.tables[i].table.as_str());
            let ghost before = out@;
            out.push(k);
            proof {
                assert(self@.tables[i as int] == self.tables@[i as int]@);
                assert(out@.map_values(|s: String| s@) =~= before.map_values(|s: String| s@).push(k@));
                assert(out@.map_values(|s: String| s@) =~= watched_keys(self@.tables).take(i + 1));
            }
            i = i + 1;
        }
        proof {
            assert(watched_keys(self@.tables).take(i as int) =~= watched_keys(self@.tables));
        }
        out
    }

    /// Marks the poll loop as running. Returns whether the caller is to run a new
    /// loop and take its event stream: only when the loop was not running.
    pub fn start(&mut self) -> (r: bool)
        ensures
            (r, final(self)@.running) == start_outcome(old(self)@.running),
            final(self)@.tables == old(self)@.tables,
            final(self)@.interval_ms == old(self)@.interval_ms,
            final(self)@.max_rows_per_table == old(self)@.max_rows_per_table,
            final(self).wf() == old(self).wf(),
    {
        if self.running {
            return false;
        }
        self.running = true;
        true
    }

    /// Asks the poll loop to stop; it does so at its next tick.
    pub fn stop(&mut self)
        ensures
            !final(self)@.running,
            final(self)@.tables == old(self)@.tables,
            final(self)@.interval_ms == old(self)@.interval_ms,
            final(self)@.max_rows_per_table == old(self)@.max_rows_per_table,
            final(self).wf() == old(self).wf(),
    {
        self.running = false;
    }

    /// The tables to read at the next tick, in order, with the statements that read them.
    pub fn poll_targets(&self) -> (r: Vec<PollTarget>)
        ensures
            targets_of(self@, r@),
    {
        let limit = self.config.row_limit();
        let mut out: Vec<PollTarget> = Vec::new();
        let mut i: usize = 0;
        while i < self.tables.len()
            invariant
                0 <= i <= self.tables.len(),
                limit == if self@.max_rows_per_table < 0 { 0 } else { self@.max_rows_per_table as u64 },
                out@.len() == i,
                forall|j: int| 0 <= j < i ==> {
                    let t = self@.tables[j];
                    &&& (#[trigger] out@[j]).schema@ == t.schema
                    &&& out@[j].table@ == t.table
                    &&& out@[j].snapshot_query@ == snapshot_sql(t.schema, t.table, t.pk_columns,
                        if self@.max_rows_per_table < 0 { 0 } else { self@.max_rows_per_table as nat })
                    &&& out@[j].count_query@ == count_sql(t.schema, t.table)
                },
            decreases self.tables.len() - i,
        {
            let st = &self.tables[i];
            proof {
                assert(self@.tables[i as int] == st@);
            }
            let target = PollTarget {
                schema: st.schema.clone(),
                table: st.table.clone(),
                snapshot_query: snapshot_query(st.schema.as_str(), st.table.as_str(), &st.pk_columns, limit),
                count_query: count_query(st.schema.as_str(), st.table.as_str()),
            };
            out.push(target);
            i = i + 1;
        }
        out
    }

    /// The decision of the poll loop at a tick, given whether the database is connected.
    pub fn tick(&self, connected: bool) -> (r: TickPlan)
        ensures
            !self@.running ==> r is Stop,
            self@.running && !connected ==> r is Skip,
            self@.running && connected ==> (r matches TickPlan::Poll(ts) && targets_of(self@, ts@)),
    {
        if !self.running {
            return TickPlan::Stop;
        }
        if !connected {
            return TickPlan::Skip;
        }
        TickPlan::Poll(self.poll_targets())
    }

    /// Applies one poll of `schema.table`: `rows` and `row_count` were just read.
    /// Returns the events, in the order of the diff; stores the rows read when any
    /// event was found or the row count moved. A table no longer watched is left out.
    pub fn apply_poll(&mut self, schema: &str, table: &str, rows: Vec<(String, Json)>, row_count: i64) -> (r: Vec<RowChange>)
        requires
            old(self).wf(),
        ensures
            final(self).wf(),
            final(self)@.running == old(self)@.running,
            final(self)@.interval_ms == old(self)@.interval_ms,
            final(self)@.max_rows_per_table == old(self)@.max_rows_per_table,
            !watches(old(self)@.tables, table_key(schema@, table@)) ==> r@.len() == 0 && final(self)@ == old(self)@,
            watches(old(self)@.tables, table_key(schema@, table@)) ==> {
                let w = watch_index(old(self)@.tables, table_key(schema@, table@));
                let st = old(self)@.tables[w];
                let read = put_all(rows_view(rows@));
                &&& unique_keys(st.rows)
                &&& unique_keys(read)
                &&& changes_view(r@) == diff(st.rows, read)
                &&& reports_exactly(st.rows, read, changes_view(r@))
                &&& final(self)@.tables == old(self)@.tables.update(w, TableStateV {
                    rows: polled_rows(st.rows, st.row_count, read, row_count),
                    row_count,
                    ..st
                })
                &&& same_rows(final(self)@.tables[w].rows, read)
            },
    {
        match self.find(schema, table) {
            None => Vec::new(),
            Some(i) => {
                let ghost prev = self.tables@;
                let ghost k = table_key(schema@, table@);
                proof {
                    assert(states_view(prev)[i as int] == prev[i as int]@);
                    let w = watch_index(states_view(prev), k);
                    assert(states_view(prev)[w] == prev[w]@);
                    assert(w == i);
                }
                let read = Snapshot::from_rows(rows);
                let mut st = self.tables.remove(i);
                let changes = st.rows.diff(&read);
                proof {
                    lemma_no_events_iff_same_rows(st.rows@, read@);
                    lemma_diff_reports_exactly(st.rows@, read@);
                }
                if changes.len() > 0 || st.row_count != row_count {
                    st.rows = read;
                }
                st.row_count = row_count;
                self.tables.insert(i, st);
                proof {
                    assert(states_view(self.tables@) =~= states_view(prev).update(i as int, self.tables@[i as int]@));
                    assert forall|a: int, b: int| 0 <= a < b < self.tables@.len() implies
                        state_key(self.tables@[a]@) != state_key(self.tables@[b]@) by {
                        assert(state_key(self.tables@[a]@) == state_key(prev[a]@));
                        assert(state_key(self.tables@[b]@) == state_key(prev[b]@));
                    }
                    assert forall|j: int| 0 <= j < self.tables@.len() implies (#[trigger] self.tables@[j]).wf() by {
                        if j != i {
                            assert(self.tables@[j] == prev[j]);
                        }
                    }
                }
                changes
            },
        }
    }

    /// Drops every watched table and its snapshot.
    pub fn clear(&mut self)
        ensures
            final(self).wf(),
            final(self)@.tables.len() == 0,
            final(self)@.running == old(self)@.running,
            final(self)@.interval_ms == old(self)@.interval_ms,
            final(self)@.max_rows_per_table == old(self)@.max_rows_per_table,
    {
        self.tables = Vec::new();
        proof {
            assert(self@.tables =~= Seq::<TableStateV>::empty());
        }
    }
}

} // verus!
