use tabletrace::sql::{
    count_query, fingerprint_expression, newest_rows_query, qualified_name, quote_identifier, raw_rows_query,
    raw_snapshot_query, rows_page_query, snapshot_query, touched_rows_query,
};
use tabletrace::text::{contains_str, decimal, replace_str};

#[test]
fn quote_plain_name() {
    assert_eq!(quote_identifier("users"), "\"users\"");
}

#[test]
fn quote_doubles_embedded_quotes() {
    assert_eq!(quote_identifier("we\"ird"), "\"we\"\"ird\"");
    assert_eq!(quote_identifier("\""), "\"\"\"\"");
    assert_eq!(quote_identifier(""), "\"\"");
}

#[test]
fn quote_keeps_dots_spaces_and_keywords() {
    assert_eq!(quote_identifier("my table.v2"), "\"my table.v2\"");
    assert_eq!(quote_identifier("select"), "\"select\"");
    assert_eq!(qualified_name("a.b", "c"), "\"a.b\".\"c\"");
    assert_ne!(qualified_name("a.b", "c"), qualified_name("a", "b.c"));
}

#[test]
fn count_statement() {
    assert_eq!(count_query("public", "users"), "SELECT COUNT(*) AS count FROM \"public\".\"users\"");
    assert_eq!(count_query("p", "x\"y"), "SELECT COUNT(*) AS count FROM \"p\".\"x\"\"y\"");
}

#[test]
fn page_statement() {
    assert_eq!(
        rows_page_query("public", "users"),
        "SELECT row_to_json(t.*) AS row_data FROM \"public\".\"users\" t LIMIT $1 OFFSET $2"
    );
}

#[test]
fn fingerprint_of_one_and_two_columns() {
    let one = vec!["id".to_string()];
    assert_eq!(fingerprint_expression(&one), "COALESCE(t.\"id\"::text, '')");
    let two = vec!["a".to_string(), "b\"c".to_string()];
    assert_eq!(
        fingerprint_expression(&two),
        "COALESCE(t.\"a\"::text, '') || '::' || COALESCE(t.\"b\"\"c\"::text, '')"
    );
}

#[test]
fn snapshot_statement() {
    let cols = vec!["id".to_string()];
    assert_eq!(
        snapshot_query("public", "users", &cols, 10000),
        "SELECT (COALESCE(t.\"id\"::text, '')) AS _pk, row_to_json(t.*) AS _data FROM \"public\".\"users\" t LIMIT 10000"
    );
}

#[test]
fn dry_run_statements() {
    assert_eq!(
        raw_snapshot_query("s", "t"),
        "SELECT row_to_json(t.*)::text AS raw, row_to_json(t.*) AS data FROM \"s\".\"t\" t"
    );
    assert_eq!(raw_rows_query("s", "t"), "SELECT row_to_json(t.*)::text AS data FROM \"s\".\"t\" t");
    assert_eq!(
        touched_rows_query("s", "t"),
        "SELECT row_to_json(t.*) AS data FROM \"s\".\"t\" t WHERE xmin = txid_current()::text::xid"
    );
    assert_eq!(
        newest_rows_query("s", "t", 3),
        "SELECT row_to_json(t.*) AS data FROM \"s\".\"t\" t ORDER BY ctid DESC LIMIT 3"
    );
}

#[test]
fn decimal_rendering() {
    assert_eq!(decimal(0), "0");
    assert_eq!(decimal(7), "7");
    assert_eq!(decimal(5432), "5432");
    assert_eq!(decimal(u64::MAX), "18446744073709551615");
}

#[test]
fn substring_search() {
    assert!(contains_str("BEGIN; SELECT 1", "BEGIN"));
    assert!(contains_str("abc", ""));
    assert!(!contains_str("ab", "abc"));
    assert!(!contains_str("SELECT 1", "COMMIT"));
}

#[test]
fn replacement() {
    assert_eq!(replace_str("https://x.io", "https://", "wss://"), "wss://x.io");
    assert_eq!(replace_str("aaa", "aa", "b"), "ba");
    assert_eq!(replace_str("none", "x", "y"), "none");
}
