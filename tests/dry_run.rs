use tabletrace::dry_run::{
    after_step, diagnostic, diagnostic_with, finish, has_transaction_control, is_rejected, record_deletes,
    record_rows, rejected_result, wants_snapshot, AfterStep,
};
use tabletrace::json::Json;
use tabletrace::schema::{ChangeType, DryRunChange};

fn user(id: &str, name: &str) -> Json {
    Json::Object(vec![
        ("id".to_string(), Json::Number(id.to_string())),
        ("name".to_string(), Json::Str(name.to_string())),
    ])
}

#[test]
fn dry_run_insert() {
    assert!(!is_rejected("INSERT INTO public.users VALUES (1,'a')"));
    match after_step("public", "users", 0, 1, false) {
        AfterStep::Inserts { count, query } => {
            assert_eq!(count, 1);
            assert_eq!(query, "SELECT row_to_json(t.*) AS data FROM \"public\".\"users\" t ORDER BY ctid DESC LIMIT 1");
        }
        other => panic!("unexpected step {:?}", other),
    }
    let mut changes: Vec<DryRunChange> = Vec::new();
    record_rows(&mut changes, "public", "users", ChangeType::Insert, vec![user("1", "a")]);
    let r = finish(None, changes, Ok(()));
    assert!(r.success);
    assert_eq!(r.rows_affected, 1);
    assert!(r.error.is_none());
    assert_eq!(r.changes.len(), 1);
    assert_eq!(r.changes[0].change_type, ChangeType::Insert);
    assert_eq!(r.changes[0].schema, "public");
    assert_eq!(r.changes[0].table, "users");
    assert_eq!(r.changes[0].after, Some(user("1", "a")));
    assert!(r.changes[0].before.is_none());
}

#[test]
fn dry_run_rejection() {
    assert!(is_rejected("BEGIN; SELECT 1; COMMIT;"));
    assert!(is_rejected("select 1; rollback"));
    assert!(is_rejected("commit"));
    let r = rejected_result();
    assert!(!r.success);
    assert_eq!(r.rows_affected, 0);
    assert!(r.changes.is_empty());
    assert_eq!(
        r.error,
        Some("SQL cannot contain COMMIT, BEGIN, or ROLLBACK statements in dry run mode".to_string())
    );
}

#[test]
fn transaction_words_in_upper_text() {
    assert!(has_transaction_control("X BEGIN Y"));
    assert!(has_transaction_control("ROLLBACK"));
    assert!(!has_transaction_control("SELECT 1"));
    assert!(!has_transaction_control("begin"));
}

#[test]
fn rollback_failure_overrides_success() {
    let mut changes: Vec<DryRunChange> = Vec::new();
    record_rows(&mut changes, "public", "users", ChangeType::Insert, vec![user("1", "a")]);
    let r = finish(None, changes, Err("connection reset".to_string()));
    assert!(!r.success);
    assert!(r.changes.is_empty());
    assert_eq!(r.rows_affected, 0);
    assert_eq!(r.error, Some("CRITICAL: Rollback failed - connection reset".to_string()));
}

#[test]
fn statement_failure_reported() {
    let r = finish(Some("ERROR: boom".to_string()), Vec::new(), Ok(()));
    assert!(!r.success);
    assert_eq!(r.error, Some("ERROR: boom".to_string()));
    assert_eq!(r.rows_affected, 0);
}

#[test]
fn snapshot_window() {
    assert!(!wants_snapshot(0));
    assert!(wants_snapshot(1));
    assert!(wants_snapshot(999));
    assert!(!wants_snapshot(1000));
    assert!(!wants_snapshot(-1));
}

#[test]
fn steps_by_count() {
    match after_step("s", "t", 5, 2, true) {
        AfterStep::Deletes { count, remaining_query } => {
            assert_eq!(count, 3);
            assert_eq!(remaining_query, Some("SELECT row_to_json(t.*)::text AS data FROM \"s\".\"t\" t".to_string()));
        }
        other => panic!("unexpected step {:?}", other),
    }
    match after_step("s", "t", 5, 2, false) {
        AfterStep::Deletes { count, remaining_query } => {
            assert_eq!(count, 3);
            assert!(remaining_query.is_none());
        }
        other => panic!("unexpected step {:?}", other),
    }
    match after_step("s", "t", 4, 4, true) {
        AfterStep::Updates { query } => {
            assert_eq!(query, "SELECT row_to_json(t.*) AS data FROM \"s\".\"t\" t WHERE xmin = txid_current()::text::xid");
        }
        other => panic!("unexpected step {:?}", other),
    }
    match after_step("s", "t", i64::MIN, i64::MAX, false) {
        AfterStep::Inserts { count, .. } => assert_eq!(count, u64::MAX),
        other => panic!("unexpected step {:?}", other),
    }
}

#[test]
fn deletes_attributed_then_topped_up() {
    let snapshot = vec![
        ("{\"id\":1}".to_string(), Json::Object(vec![("id".to_string(), Json::Number("1".to_string()))])),
        ("{\"id\":2}".to_string(), Json::Object(vec![("id".to_string(), Json::Number("2".to_string()))])),
        ("{\"id\":3}".to_string(), Json::Object(vec![("id".to_string(), Json::Number("3".to_string()))])),
    ];
    let remaining = vec!["{\"id\":2}".to_string()];
    let mut out: Vec<DryRunChange> = Vec::new();
    record_deletes(&mut out, "s", "t", 3, Some(&snapshot), Some(&remaining));
    assert_eq!(out.len(), 3);
    assert!(out.iter().all(|c| c.change_type == ChangeType::Delete && c.after.is_none()));
    assert_eq!(out[0].before, Some(snapshot[0].1.clone()));
    assert_eq!(out[1].before, Some(snapshot[2].1.clone()));
    assert!(out[2].before.is_none());
}

#[test]
fn deletes_stop_at_count() {
    let snapshot = vec![
        ("a".to_string(), Json::Str("a".to_string())),
        ("b".to_string(), Json::Str("b".to_string())),
    ];
    let remaining: Vec<String> = vec![];
    let mut out: Vec<DryRunChange> = Vec::new();
    record_deletes(&mut out, "s", "t", 1, Some(&snapshot), Some(&remaining));
    assert_eq!(out.len(), 1);
    assert_eq!(out[0].before, Some(Json::Str("a".to_string())));
}

#[test]
fn deletes_without_snapshot_have_no_contents() {
    let mut out: Vec<DryRunChange> = Vec::new();
    record_deletes(&mut out, "s", "t", 2, None, None);
    assert_eq!(out.len(), 2);
    assert!(out.iter().all(|c| c.before.is_none() && c.after.is_none()));
}

#[test]
fn updates_carry_after_only() {
    let mut out: Vec<DryRunChange> = Vec::new();
    record_rows(&mut out, "s", "t", ChangeType::Update, vec![Json::Null, Json::Bool(true)]);
    assert_eq!(out.len(), 2);
    assert_eq!(out[1].change_type, ChangeType::Update);
    assert_eq!(out[1].after, Some(Json::Bool(true)));
    assert!(out[1].before.is_none());
}

#[test]
fn diagnostics() {
    assert_eq!(
        diagnostic_with("ERROR", "relation missing", "42P01", "None"),
        "ERROR: relation missing (code: 42P01, detail: None)"
    );
    assert_eq!(diagnostic("ERROR", "m", "23505", &None), "ERROR: m (code: 23505, detail: None)");
    assert_eq!(
        diagnostic("ERROR", "m", "23505", &Some("Key (id)=(1) exists.".to_string())),
        "ERROR: m (code: 23505, detail: Some(\"Key (id)=(1) exists.\"))"
    );
}
