//! Inputs of the requests made to the library's boundary.
use vstd::prelude::*;
use crate::config::{PgConfig, SupabaseConfig};

verus! {

/// Input of a connection test.
#[derive(Clone, Debug)]
pub struct TestConnectionInput {
    pub config: PgConfig,
}

/// Input of a connect request.
#[derive(Clone, Debug)]
pub struct ConnectPostgresInput {
    pub config: PgConfig,
}

/// Input of a realtime connection test.
#[derive(Clone, Debug)]
pub struct TestSupabaseConnectionInput {
    pub config: SupabaseConfig,
}

/// Input of a realtime connect request.
#[derive(Clone, Debug)]
pub struct ConnectSupabaseInput {
    pub config: SupabaseConfig,
}

/// Input of a column listing.
#[derive(Clone, Debug)]
pub struct GetColumnsInput {
    pub schema: String,
    pub table: String,
}

/// Input of a row count.
#[derive(Clone, Debug)]
pub struct GetRowCountInput {
    pub schema: String,
    pub table: String,
}

/// Input of a page of rows.
#[derive(Clone, Debug)]
pub struct GetRowsInput {
    pub schema: String,
    pub table: String,
    pub limit: Option<i64>,
    pub offset: Option<i64>,
}

/// The page read when none is given: 100 rows from the first.
pub fn page_bounds(limit: Option<i64>, offset: Option<i64>) -> (r: (i64, i64))
    ensures
        r.0 == match limit { Some(l) => l, None => 100 },
        r.1 == match offset { Some(o) => o, None => 0 },
{
    let l = match limit {
        Some(l) => l,
        None => 100,
    };
    let o = match offset {
        Some(o) => o,
        None => 0,
    };
    (l, o)
}

/// Input of a dry run.
#[derive(Clone, Debug)]
pub struct DryRunInput {
    pub sql: String,
}

/// Input of a watch request.
#[derive(Clone, Debug)]
pub struct StartWatchingInput {
    pub schema: String,
    pub table: String,
}

/// Input of an unwatch request.
#[derive(Clone, Debug)]
pub struct StopWatchingInput {
    pub schema: String,
    pub table: String,
}

} // verus!
