//! SQL text built by the library. Every schema, table and column name that
//! enters a statement goes through `quote_identifier`.
use vstd::prelude::*;
use vstd::string::StrSliceExecFns;
use vstd::string::StringExecFns;
use crate::text::{dec, decimal};

verus! {

/// The body of a delimited identifier: each double quote of `s` doubled.
pub open spec fn escape_quotes(s: Seq<char>) -> Seq<char>
    decreases s.len(),
{
    if s.len() == 0 {
        Seq::empty()
    } else if s[0] == '"' {
        seq!['"', '"'] + escape_quotes(s.drop_first())
    } else {
        seq![s[0]] + escape_quotes(s.drop_first())
    }
}

/// `s` as a delimited SQL identifier.
pub open spec fn quoted(s: Seq<char>) -> Seq<char> {
    seq!['"'] + escape_quotes(s) + seq!['"']
}

/// Reads the body of a delimited identifier back: a pair of double quotes
/// stands for one, a lone double quote would end the identifier early.
pub open spec fn read_body(b: Seq<char>) -> Option<Seq<char>>
    decreases b.len(),
{
    if b.len() == 0 {
        Some(Seq::empty())
    } else if b[0] == '"' {
        if b.len() >= 2 && b[1] == '"' {
            match read_body(b.subrange(2, b.len() as int)) {
                Some(r) => Some(seq!['"'] + r),
                None => None,
            }
        } else {
            None
        }
    } else {
        match read_body(b.drop_first()) {
            Some(r) => Some(seq![b[0]] + r),
            None => None,
        }
    }
}

/// Reads a delimited identifier: an opening quote, a body, a closing quote.
pub open spec fn unquote(q: Seq<char>) -> Option<Seq<char>> {
    if q.len() >= 2 && q[0] == '"' && q[q.len() - 1] == '"' {
        read_body(q.subrange(1, q.len() - 1))
    } else {
        None
    }
}

proof fn lemma_read_escaped(s: Seq<char>)
    ensures
        read_body(escape_quotes(s)) == Some(s),
    decreases s.len(),
{
    if s.len() > 0 {
        lemma_read_escaped(s.drop_first());
        let e = escape_quotes(s);
        let rest = escape_quotes(s.drop_first());
        if s[0] == '"' {
            assert(e.subrange(2, e.len() as int) =~= rest);
        } else {
            assert(e.drop_first() =~= rest);
        }
        assert(seq![s[0]] + s.drop_first() =~= s);
    }
}

/// A quoted identifier is read back as exactly the name it was made from, whatever
/// characters the name holds (double quotes, dots, spaces, keywords); so two
/// different names never quote to the same text.
pub proof fn lemma_quoting_round_trip(x: Seq<char>, y: Seq<char>)
    ensures
        unquote(quoted(x)) == Some(x),
        quoted(x) == quoted(y) ==> x == y,
{
    let q = quoted(x);
    assert(q.subrange(1, q.len() - 1) =~= escape_quotes(x));
    lemma_read_escaped(x);
    let qy = quoted(y);
    assert(qy.subrange(1, qy.len() - 1) =~= escape_quotes(y));
    lemma_read_escaped(y);
}

/// Wraps `name` in double quotes, doubling each double quote inside it.
pub fn quote_identifier(name: &str) -> (r: String)
    ensures
        r@ == quoted(name@),
{
    let n = name.unicode_len();
    let mut body = String::new();
    let mut i: usize = 0;
    proof {
        assert(name@.subrange(0, n as int) =~= name@);
        assert(body@ + escape_quotes(name@) =~= escape_quotes(name@));
    }
    while i < n
        invariant
            n == name@.len(),
            0 <= i <= n,
            body@ + escape_quotes(name@.subrange(i as int, n as int)) == escape_quotes(name@),
        decreases n - i,
    {
        let c = name.get_char(i);
        let ghost rest = name@.subrange(i as int, n as int);
        proof {
            assert(rest.drop_first() =~= name@.subrange(i + 1, n as int));
        }
        if c == '"' {
            proof {
                assert(body@ + escape_quotes(rest) =~= body@.push('"').push('"')
                    + escape_quotes(name@.subrange(i + 1, n as int)));
            }
            body.push('"');
            body.push('"');
        } else {
            proof {
                assert(body@ + escape_quotes(rest) =~= body@.push(c)
                    + escape_quotes(name@.subrange(i + 1, n as int)));
            }
            body.push(c);
        }
        i = i + 1;
    }
    proof {
        assert(name@.subrange(n as int, n as int) =~= Seq::<char>::empty());
        assert(body@ + Seq::<char>::empty() =~= body@);
    }
    let mut r = String::new();
    r.push('"');
    r.append(body.as_str());
    r.push('"');
    proof {
        assert(r@ =~= quoted(name@));
    }
    r
}

/// `schema.table` with both parts quoted.
pub open spec fn qualified(schema: Seq<char>, table: Seq<char>) -> Seq<char> {
    quoted(schema) + seq!['.'] + quoted(table)
}

/// The quoted `schema.table` reference.
pub fn qualified_name(schema: &str, table: &str) -> (r: String)
    ensures
        r@ == qualified(schema@, table@),
{
    let mut r = quote_identifier(schema);
    r.push('.');
    let t = quote_identifier(table);
    r.append(t.as_str());
    r
}

/// `head`, the quoted table reference, then `tail`.
fn around_table(head: &str, schema: &str, table: &str, tail: &str) -> (r: String)
    ensures
        r@ == head@ + qualified(schema@, table@) + tail@,
{
    let mut r = String::from_str(head);
    let q = qualified_name(schema, table);
    r.append(q.as_str());
    r.append(tail);
    r
}

/// The statement that counts the rows of a table.
pub open spec fn count_sql(schema: Seq<char>, table: Seq<char>) -> Seq<char> {
    "SELECT COUNT(*) AS count FROM "@ + qualified(schema, table) + ""@
}

/// Counts the rows of a table; the result column is `count`.
pub fn count_query(schema: &str, table: &str) -> (r: String)
    ensures
        r@ == count_sql(schema@, table@),
{
    around_table("SELECT COUNT(*) AS count FROM ", schema, table, "")
}

/// The statement that reads one page of rows.
pub open spec fn rows_page_sql(schema: Seq<char>, table: Seq<char>) -> Seq<char> {
    "SELECT row_to_json(t.*) AS row_data FROM "@ + qualified(schema, table) + " t LIMIT $1 OFFSET $2"@
}

/// One page of rows as JSON objects (`row_data`); `$1` is the limit and `$2` the offset.
pub fn rows_page_query(schema: &str, table: &str) -> (r: String)
    ensures
        r@ == rows_page_sql(schema@, table@),
{
    around_table("SELECT row_to_json(t.*) AS row_data FROM ", schema, table, " t LIMIT $1 OFFSET $2")
}

/// The statement that reads every row as text and as JSON.
pub open spec fn raw_snapshot_sql(schema: Seq<char>, table: Seq<char>) -> Seq<char> {
    "SELECT row_to_json(t.*)::text AS raw, row_to_json(t.*) AS data FROM "@ + qualified(schema, table) + " t"@
}

/// Every row as database-formatted JSON text (`raw`) and as JSON (`data`).
pub fn raw_snapshot_query(schema: &str, table: &str) -> (r: String)
    ensures
        r@ == raw_snapshot_sql(schema@, table@),
{
    around_table(
        "SELECT row_to_json(t.*)::text AS raw, row_to_json(t.*) AS data FROM ",
        schema,
        table,
        " t",
    )
}

/// The statement that reads every row as text.
pub open spec fn raw_rows_sql(schema: Seq<char>, table: Seq<char>) -> Seq<char> {
    "SELECT row_to_json(t.*)::text AS data FROM "@ + qualified(schema, table) + " t"@
}

/// Every row as database-formatted JSON text (`data`).
pub fn raw_rows_query(schema: &str, table: &str) -> (r: String)
    ensures
        r@ == raw_rows_sql(schema@, table@),
{
    around_table("SELECT row_to_json(t.*)::text AS data FROM ", schema, table, " t")
}

/// The statement that reads the rows written by the current transaction.
pub open spec fn touched_rows_sql(schema: Seq<char>, table: Seq<char>) -> Seq<char> {
    "SELECT row_to_json(t.*) AS data FROM "@ + qualified(schema, table) + " t WHERE xmin = txid_current()::text::xid"@
}

/// The rows written by the current transaction, as JSON (`data`).
pub fn touched_rows_query(schema: &str, table: &str) -> (r: String)
    ensures
        r@ == touched_rows_sql(schema@, table@),
{
    around_table(
        "SELECT row_to_json(t.*) AS data FROM ",
        schema,
        table,
        " t WHERE xmin = txid_current()::text::xid",
    )
}

/// The statement that reads the `n` physically newest rows.
pub open spec fn newest_rows_sql(schema: Seq<char>, table: Seq<char>, n: nat) -> Seq<char> {
    "SELECT row_to_json(t.*) AS data FROM "@ + qualified(schema, table) + " t ORDER BY ctid DESC LIMIT "@ + dec(n)
}

/// The `n` physically newest rows, as JSON (`data`).
pub fn newest_rows_query(schema: &str, table: &str, n: u64) -> (r: String)
    ensures
        r@ == newest_rows_sql(schema@, table@, n as nat),
{
    let tail = decimal(n);
    let mut r = around_table("SELECT row_to_json(t.*) AS data FROM ", schema, table, " t ORDER BY ctid DESC LIMIT ");
    r.append(tail.as_str());
    r
}

/// The text of one primary-key column in the fingerprint: null reads as empty.
pub open spec fn fingerprint_part(column: Seq<char>) -> Seq<char> {
    "COALESCE(t."@ + quoted(column) + "::text, '')"@
}

/// The fingerprint expression: the parts of all key columns, in order, joined by `'::'`.
pub open spec fn fingerprint_expr(columns: Seq<Seq<char>>) -> Seq<char>
    decreases columns.len(),
{
    if columns.len() == 0 {
        Seq::empty()
    } else if columns.len() == 1 {
        fingerprint_part(columns[0])
    } else {
        fingerprint_expr(columns.drop_last()) + " || '::' || "@ + fingerprint_part(columns.last())
    }
}

/// The views of a list of names.
pub open spec fn names_view(v: Seq<String>) -> Seq<Seq<char>> {
    v.map_values(|s: String| s@)
}

/// Builds the fingerprint expression for the given key columns.
pub fn fingerprint_expression(columns: &Vec<String>) -> (r: String)
    ensures
        r@ == fingerprint_expr(names_view(columns@)),
{
    let mut r = String::new();
    let mut i: usize = 0;
    while i < columns.len()
        invariant
            0 <= i <= columns.len(),
            r@ == fingerprint_expr(names_view(columns@.take(i as int))),
        decreases columns.len() - i,
    {
        let ghost prev = names_view(columns@.take(i as int));
        let ghost next = names_view(columns@.take(i + 1));
        proof {
            assert(next.drop_last() =~= prev);
            assert(next.last() == columns@[i as int]@);
        }
        if i > 0 {
            r.append(" || '::' || ");
        } else {
            proof {
                assert(r@ =~= Seq::<char>::empty());
            }
        }
        r.append("COALESCE(t.");
        let q = quote_identifier(columns[i].as_str());
        r.append(q.as_str());
        r.append("::text, '')");
        proof {
            if i == 0 {
                assert(next.len() == 1);
                assert(r@ =~= fingerprint_part(next[0]));
            } else {
                assert(r@ =~= fingerprint_expr(prev) + " || '::' || "@ + fingerprint_part(next.last()));
            }
        }
        i = i + 1;
    }
    proof {
        assert(columns@.take(columns.len() as int) =~= columns@);
    }
    r
}

/// The statement that reads a table's snapshot.
pub open spec fn snapshot_sql(schema: Seq<char>, table: Seq<char>, pk_columns: Seq<Seq<char>>, limit: nat) -> Seq<char> {
    "SELECT ("@ + fingerprint_expr(pk_columns) + ") AS _pk, row_to_json(t.*) AS _data FROM "@
        + qualified(schema, table) + " t LIMIT "@ + dec(limit)
}

/// Reads up to `limit` rows with their fingerprint (`_pk`) and JSON form (`_data`).
pub fn snapshot_query(schema: &str, table: &str, pk_columns: &Vec<String>, limit: u64) -> (r: String)
    ensures
        r@ == snapshot_sql(schema@, table@, names_view(pk_columns@), limit as nat),
{
    let mut r = String::from_str("SELECT (");
    let e = fingerprint_expression(pk_columns);
    r.append(e.as_str());
    r.append(") AS _pk, row_to_json(t.*) AS _data FROM ");
    let q = qualified_name(schema, table);
    r.append(q.as_str());
    r.append(" t LIMIT ");
    let n = decimal(limit);
    r.append(n.as_str());
    r
}

} // verus!
