//! Records exchanged with callers: catalog rows, change events and dry-run results.
use vstd::prelude::*;
use crate::json::{Json, JsonV};
use crate::text::concat3;
use vstd::string::StringExecFns;

verus! {

/// A base table of the database.
#[derive(Clone, Debug)]
pub struct TableInfo {
    pub schema: String,
    pub name: String,
    pub column_count: u32,
    pub comment: Option<String>,
}

impl TableInfo {
    /// `schema.name`, unquoted.
    pub fn full_name(&self) -> (r: String)
        ensures
            r@ == self.schema@ + "."@ + self.name@,
    {
        concat3(self.schema.as_str(), ".", self.name.as_str())
    }
}

/// One column of a foreign-key relationship.
#[derive(Clone, Debug)]
pub struct ForeignKeyInfo {
    pub constraint_name: String,
    pub from_schema: String,
    pub from_table: String,
    pub from_column: String,
    pub to_schema: String,
    pub to_table: String,
    pub to_column: String,
    pub on_delete: String,
    pub on_update: String,
}

/// Cumulative tuple counters and vacuum times of one table.
#[derive(Clone, Debug)]
pub struct TableStats {
    pub schema: String,
    pub table: String,
    pub n_tup_ins: i64,
    pub n_tup_upd: i64,
    pub n_tup_del: i64,
    pub last_vacuum: Option<String>,
    pub last_autovacuum: Option<String>,
}

/// A column of a table.
#[derive(Clone, Debug)]
pub struct ColumnInfo {
    pub name: String,
    pub data_type: String,
    pub is_nullable: bool,
    pub default_value: Option<String>,
    pub is_primary_key: bool,
}

/// The kind of a row-level change.
#[derive(Clone, Copy, Debug, PartialEq, Eq, Structural)]
pub enum ChangeType {
    Insert,
    Update,
    Delete,
}

/// The upper-case name of a change kind.
pub open spec fn change_type_name(c: ChangeType) -> Seq<char> {
    match c {
        ChangeType::Insert => "INSERT"@,
        ChangeType::Update => "UPDATE"@,
        ChangeType::Delete => "DELETE"@,
    }
}

impl ChangeType {
    /// `INSERT`, `UPDATE` or `DELETE`.
    pub fn as_str(&self) -> (r: &'static str)
        ensures
            r@ == change_type_name(*self),
    {
        match self {
            ChangeType::Insert => "INSERT",
            ChangeType::Update => "UPDATE",
            ChangeType::Delete => "DELETE",
        }
    }

    /// The same name as an owned string.
    pub fn to_string(&self) -> (r: String)
        ensures
            r@ == change_type_name(*self),
    {
        String::from_str(self.as_str())
    }
}

/// The model of an optional JSON value.
pub open spec fn opt_json(o: Option<Json>) -> Option<JsonV> {
    match o {
        Some(j) => Some(j@),
        None => None,
    }
}

/// A change event published to the consumer.
#[derive(Clone, Debug)]
pub struct TableChange {
    pub id: String,
    pub schema: String,
    pub table: String,
    pub change_type: ChangeType,
    pub primary_key: Option<Json>,
    pub before: Option<Json>,
    pub after: Option<Json>,
    pub timestamp: String,
    pub source: String,
}

/// One change reconstructed by a dry run.
#[derive(Clone, Debug)]
pub struct DryRunChange {
    pub schema: String,
    pub table: String,
    pub change_type: ChangeType,
    pub before: Option<Json>,
    pub after: Option<Json>,
}

/// The outcome of a dry run.
#[derive(Clone, Debug)]
pub struct DryRunResult {
    pub success: bool,
    pub changes: Vec<DryRunChange>,
    pub error: Option<String>,
    pub rows_affected: i64,
}

} // verus!
