use tabletrace::evaluator::{Answer, Command, DryRunEvaluator, DryRunPhase, RowShape};
use tabletrace::json::Json;
use tabletrace::schema::ChangeType;

fn user(id: &str, name: &str) -> Json {
    Json::Object(vec![
        ("id".to_string(), Json::Number(id.to_string())),
        ("name".to_string(), Json::Str(name.to_string())),
    ])
}

fn control(run: &DryRunEvaluator) -> String {
    match run.command() {
        Command::Control(t) => t,
        other => panic!("expected a control statement, got {:?}", other),
    }
}

fn query(run: &DryRunEvaluator) -> (String, RowShape) {
    match run.command() {
        Command::Query { sql, shape } => (sql, shape),
        other => panic!("expected a query, got {:?}", other),
    }
}

/// Drives a run against one empty table `public.users` whose statement inserts one row.
fn insert_run(rollback: Answer) -> DryRunEvaluator {
    let mut run = DryRunEvaluator::new("INSERT INTO public.users VALUES (1,'a')");
    assert_eq!(control(&run), "BEGIN");
    run.advance(Answer::Done);
    assert_eq!(query(&run).1, RowShape::Tables);
    run.advance(Answer::Tables(vec![("public".to_string(), "users".to_string())]));
    assert_eq!(query(&run), ("SELECT COUNT(*) AS count FROM \"public\".\"users\"".to_string(), RowShape::Count));
    run.advance(Answer::Count(0));
    match run.command() {
        Command::Statement(s) => assert_eq!(s, "INSERT INTO public.users VALUES (1,'a')"),
        other => panic!("expected the statement, got {:?}", other),
    }
    run.advance(Answer::Done);
    assert_eq!(query(&run).1, RowShape::Count);
    run.advance(Answer::Count(1));
    assert_eq!(
        query(&run),
        (
            "SELECT row_to_json(t.*) AS data FROM \"public\".\"users\" t ORDER BY ctid DESC LIMIT 1".to_string(),
            RowShape::JsonRows
        )
    );
    run.advance(Answer::Rows(vec![user("1", "a")]));
    assert_eq!(control(&run), "ROLLBACK");
    run.advance(rollback);
    assert!(run.is_done());
    assert!(matches!(run.command(), Command::Finished));
    run
}

#[test]
fn evaluator_insert_preview() {
    let r = insert_run(Answer::Done).into_result().unwrap().unwrap();
    assert!(r.success);
    assert_eq!(r.rows_affected, 1);
    assert_eq!(r.changes.len(), 1);
    assert_eq!(r.changes[0].change_type, ChangeType::Insert);
    assert_eq!(r.changes[0].after, Some(user("1", "a")));
}

#[test]
fn evaluator_rollback_failure_dominates() {
    let r = insert_run(Answer::Failed("lost".to_string())).into_result().unwrap().unwrap();
    assert!(!r.success);
    assert!(r.changes.is_empty());
    assert_eq!(r.rows_affected, 0);
    assert_eq!(r.error, Some("CRITICAL: Rollback failed - lost".to_string()));
}

#[test]
fn evaluator_refuses_transaction_control() {
    let run = DryRunEvaluator::new("BEGIN; SELECT 1; COMMIT;");
    assert!(run.is_done());
    assert!(matches!(run.command(), Command::Finished));
    let r = run.into_result().unwrap().unwrap();
    assert!(!r.success);
    assert_eq!(r.rows_affected, 0);
    assert!(r.changes.is_empty());
    assert!(r.error.is_some());
}

#[test]
fn evaluator_statement_failure_still_rolls_back() {
    let mut run = DryRunEvaluator::new("DELETE FROM nowhere");
    run.advance(Answer::Done);
    run.advance(Answer::Tables(vec![]));
    assert!(matches!(run.command(), Command::Statement(_)));
    run.advance(Answer::Failed("ERROR: relation \"nowhere\" does not exist".to_string()));
    assert_eq!(control(&run), "ROLLBACK");
    run.advance(Answer::Done);
    let r = run.into_result().unwrap().unwrap();
    assert!(!r.success);
    assert_eq!(r.error, Some("ERROR: relation \"nowhere\" does not exist".to_string()));
    assert_eq!(r.rows_affected, 0);
}

#[test]
fn evaluator_begin_failure_is_an_error() {
    let mut run = DryRunEvaluator::new("SELECT 1");
    run.advance(Answer::Failed("no session".to_string()));
    assert!(run.is_done());
    assert_eq!(run.into_result().unwrap().unwrap_err(), "no session");
}

#[test]
fn evaluator_deletes_from_snapshot() {
    let mut run = DryRunEvaluator::new("DELETE FROM s.t WHERE id = 1");
    run.advance(Answer::Done);
    run.advance(Answer::Tables(vec![("s".to_string(), "t".to_string())]));
    run.advance(Answer::Count(2));
    assert_eq!(query(&run).1, RowShape::RawRows);
    run.advance(Answer::RawRows(vec![("r1".to_string(), user("1", "a")), ("r2".to_string(), user("2", "b"))]));
    run.advance(Answer::Done);
    run.advance(Answer::Count(1));
    assert_eq!(query(&run), ("SELECT row_to_json(t.*)::text AS data FROM \"s\".\"t\" t".to_string(), RowShape::Texts));
    run.advance(Answer::Texts(vec!["r2".to_string()]));
    run.advance(Answer::Done);
    let r = run.into_result().unwrap().unwrap();
    assert!(r.success);
    assert_eq!(r.rows_affected, 1);
    assert_eq!(r.changes[0].change_type, ChangeType::Delete);
    assert_eq!(r.changes[0].before, Some(user("1", "a")));
}

#[test]
fn evaluator_updates_by_transaction_stamp() {
    let mut run = DryRunEvaluator::new("UPDATE s.t SET name = 'z'");
    run.advance(Answer::Done);
    run.advance(Answer::Tables(vec![("s".to_string(), "t".to_string())]));
    run.advance(Answer::Count(5000));
    run.advance(Answer::Done);
    run.advance(Answer::Count(5000));
    assert_eq!(
        query(&run),
        (
            "SELECT row_to_json(t.*) AS data FROM \"s\".\"t\" t WHERE xmin = txid_current()::text::xid".to_string(),
            RowShape::JsonRows
        )
    );
    run.advance(Answer::Rows(vec![user("1", "z")]));
    run.advance(Answer::Done);
    let r = run.into_result().unwrap().unwrap();
    assert_eq!(r.rows_affected, 1);
    assert_eq!(r.changes[0].change_type, ChangeType::Update);
    assert!(r.changes[0].before.is_none());
}

#[test]
fn evaluator_listing_failure_rolls_back_then_fails() {
    let mut run = DryRunEvaluator::new("SELECT 1");
    run.advance(Answer::Done);
    run.advance(Answer::Failed("catalog unavailable".to_string()));
    assert_eq!(control(&run), "ROLLBACK");
    run.advance(Answer::Done);
    assert_eq!(run.into_result().unwrap().unwrap_err(), "catalog unavailable");
}

#[test]
fn evaluator_phase_type_compares() {
    assert_eq!(DryRunPhase::CountAfter(1), DryRunPhase::CountAfter(1));
    assert_ne!(DryRunPhase::Begin, DryRunPhase::Done);
}
