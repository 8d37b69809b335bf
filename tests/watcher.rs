use tabletrace::diff::RowChange;
use tabletrace::events::{pk_value, polling_events};
use tabletrace::json::{json_equal, Json};
use tabletrace::schema::ChangeType;
use tabletrace::snapshot::Snapshot;
use tabletrace::watcher::{default_interval, default_max_rows, TableWatcher, TickPlan, WatchError, WatcherConfig};

fn user(id: &str, name: &str) -> Json {
    Json::Object(vec![
        ("id".to_string(), Json::Number(id.to_string())),
        ("name".to_string(), Json::Str(name.to_string())),
    ])
}

fn watcher_with_users() -> TableWatcher {
    let mut w = TableWatcher::new(WatcherConfig::default());
    let r = w.add_table("public", "users", vec!["id".to_string()], vec![], 0);
    assert!(r.is_ok());
    w
}

#[test]
fn config_defaults() {
    let c = WatcherConfig::default();
    assert_eq!(c.interval_ms, 1000);
    assert_eq!(c.max_rows_per_table, 10000);
    assert_eq!(default_interval(), 1000);
    assert_eq!(default_max_rows(), 10000);
    assert_eq!(c.row_limit(), 10000);
    let negative = WatcherConfig { interval_ms: 5, max_rows_per_table: -3 };
    assert_eq!(negative.row_limit(), 0);
}

#[test]
fn insert_detection() {
    let mut w = watcher_with_users();
    let changes = w.apply_poll("public", "users", vec![("1".to_string(), user("1", "a"))], 1);
    assert_eq!(changes.len(), 1);
    assert_eq!(changes[0].kind, ChangeType::Insert);
    assert_eq!(changes[0].pk, "1");
    assert!(changes[0].before.is_none());
    assert_eq!(changes[0].after, Some(user("1", "a")));
    let events = polling_events(&"public".to_string(), &"users".to_string(), changes);
    assert_eq!(events.len(), 1);
    assert_eq!(events[0].change_type, ChangeType::Insert);
    assert_eq!(events[0].schema, "public");
    assert_eq!(events[0].table, "users");
    assert_eq!(events[0].after, Some(user("1", "a")));
    assert_eq!(events[0].source, "polling");
    assert_eq!(events[0].id.len(), 36);
    assert!(events[0].timestamp.len() >= 25);
    assert!(events[0].timestamp.ends_with("+00:00"));
    assert_eq!(events[0].primary_key, Some(Json::Object(vec![("pk".to_string(), Json::Str("1".to_string()))])));
}

#[test]
fn update_detection() {
    let mut w = watcher_with_users();
    w.apply_poll("public", "users", vec![("1".to_string(), user("1", "a"))], 1);
    let changes = w.apply_poll("public", "users", vec![("1".to_string(), user("1", "b"))], 1);
    assert_eq!(changes.len(), 1);
    assert_eq!(changes[0].kind, ChangeType::Update);
    assert_eq!(changes[0].before, Some(user("1", "a")));
    assert_eq!(changes[0].after, Some(user("1", "b")));
}

#[test]
fn delete_detection() {
    let mut w = watcher_with_users();
    w.apply_poll("public", "users", vec![("1".to_string(), user("1", "a"))], 1);
    w.apply_poll("public", "users", vec![("1".to_string(), user("1", "b"))], 1);
    let changes = w.apply_poll("public", "users", vec![], 0);
    assert_eq!(changes.len(), 1);
    assert_eq!(changes[0].kind, ChangeType::Delete);
    assert_eq!(changes[0].before, Some(user("1", "b")));
    assert!(changes[0].after.is_none());
}

#[test]
fn no_events_on_first_tick_without_changes() {
    let mut w = TableWatcher::new(WatcherConfig::default());
    let rows = vec![("1".to_string(), user("1", "a")), ("2".to_string(), user("2", "b"))];
    assert!(w.add_table("public", "users", vec!["id".to_string()], rows.clone(), 2).is_ok());
    let changes = w.apply_poll("public", "users", vec![("2".to_string(), user("2", "b")), ("1".to_string(), user("1", "a"))], 2);
    assert!(changes.is_empty());
}

#[test]
fn mixed_changes_are_partitioned() {
    let mut w = TableWatcher::new(WatcherConfig::default());
    let rows = vec![("1".to_string(), user("1", "a")), ("2".to_string(), user("2", "b")), ("3".to_string(), user("3", "c"))];
    assert!(w.add_table("public", "users", vec!["id".to_string()], rows, 3).is_ok());
    let changes = w.apply_poll(
        "public",
        "users",
        vec![("1".to_string(), user("1", "a")), ("2".to_string(), user("2", "z")), ("4".to_string(), user("4", "d"))],
        3,
    );
    let kinds: Vec<(ChangeType, String)> = changes.iter().map(|c: &RowChange| (c.kind, c.pk.clone())).collect();
    assert_eq!(
        kinds,
        vec![
            (ChangeType::Update, "2".to_string()),
            (ChangeType::Insert, "4".to_string()),
            (ChangeType::Delete, "3".to_string())
        ]
    );
    let again = w.apply_poll(
        "public",
        "users",
        vec![("1".to_string(), user("1", "a")), ("2".to_string(), user("2", "z")), ("4".to_string(), user("4", "d"))],
        3,
    );
    assert!(again.is_empty());
}

#[test]
fn missing_primary_key_is_refused() {
    let mut w = TableWatcher::new(WatcherConfig::default());
    let r = w.add_table("public", "logs", vec![], vec![], 0);
    match r {
        Err(e) => {
            assert!(matches!(e, WatchError::MissingPrimaryKey { .. }));
            assert_eq!(e.message(), "Table public.logs has no primary key. Cannot watch tables without primary key.");
        }
        Ok(_) => panic!("a table without a primary key was accepted"),
    }
    assert!(w.get_watched_tables().is_empty());
    assert!(!w.is_watched("public", "logs"));
}

#[test]
fn adding_twice_is_a_no_op() {
    let mut w = watcher_with_users();
    w.apply_poll("public", "users", vec![("1".to_string(), user("1", "a"))], 1);
    assert!(w.add_table("public", "users", vec!["id".to_string()], vec![], 0).is_ok());
    assert_eq!(w.get_watched_tables(), vec!["public.users".to_string()]);
    let changes = w.apply_poll("public", "users", vec![("1".to_string(), user("1", "a"))], 1);
    assert!(changes.is_empty());
}

#[test]
fn remove_and_clear() {
    let mut w = watcher_with_users();
    assert!(w.add_table("s", "t", vec!["k".to_string()], vec![], 0).is_ok());
    assert_eq!(w.get_watched_tables(), vec!["public.users".to_string(), "s.t".to_string()]);
    w.remove_table("public", "users");
    assert_eq!(w.get_watched_tables(), vec!["s.t".to_string()]);
    assert!(w.apply_poll("public", "users", vec![("1".to_string(), user("1", "a"))], 1).is_empty());
    w.clear();
    assert!(w.get_watched_tables().is_empty());
}

#[test]
fn one_stream_per_run() {
    let mut w = TableWatcher::new(WatcherConfig::default());
    assert!(!w.is_running());
    assert!(w.start());
    assert!(w.is_running());
    assert!(!w.start());
    assert!(!w.start());
    w.stop();
    assert!(!w.is_running());
    assert!(w.start());
    assert!(!w.start());
}

#[test]
fn poll_targets_use_the_row_limit() {
    let mut w = TableWatcher::new(WatcherConfig { interval_ms: 10, max_rows_per_table: 5 });
    assert!(w.add_table("public", "users", vec!["id".to_string()], vec![], 0).is_ok());
    let t = w.poll_targets();
    assert_eq!(t.len(), 1);
    assert_eq!(t[0].schema, "public");
    assert_eq!(t[0].table, "users");
    assert_eq!(
        t[0].snapshot_query,
        "SELECT (COALESCE(t.\"id\"::text, '')) AS _pk, row_to_json(t.*) AS _data FROM \"public\".\"users\" t LIMIT 5"
    );
    assert_eq!(t[0].count_query, "SELECT COUNT(*) AS count FROM \"public\".\"users\"");
}

#[test]
fn snapshot_later_row_wins() {
    let s = Snapshot::from_rows(vec![("1".to_string(), user("1", "a")), ("1".to_string(), user("1", "b"))]);
    assert_eq!(s.len(), 1);
    assert_eq!(s.get(&"1".to_string()), Some(&user("1", "b")));
    assert_eq!(s.get(&"2".to_string()), None);
}

#[test]
fn snapshot_diff_direct() {
    let a = Snapshot::from_rows(vec![("1".to_string(), user("1", "a"))]);
    let b = Snapshot::from_rows(vec![("1".to_string(), user("1", "a"))]);
    assert!(a.diff(&b).is_empty());
    let c = Snapshot::new();
    let d = a.diff(&c);
    assert_eq!(d.len(), 1);
    assert_eq!(d[0].kind, ChangeType::Delete);
}

#[test]
fn json_structural_equality() {
    assert!(json_equal(&user("1", "a"), &user("1", "a")));
    assert!(!json_equal(&user("1", "a"), &user("1", "b")));
    assert!(!json_equal(&Json::Number("1".to_string()), &Json::Str("1".to_string())));
    assert!(!json_equal(&Json::Array(vec![Json::Null]), &Json::Array(vec![])));
    assert!(json_equal(&Json::Array(vec![Json::Bool(true)]), &Json::Array(vec![Json::Bool(true)])));
    assert_eq!(user("1", "a").duplicate(), user("1", "a"));
    assert_eq!(pk_value(&"7::x".to_string()), Json::Object(vec![("pk".to_string(), Json::Str("7::x".to_string()))]));
}

#[test]
fn json_member_lookup() {
    let u = user("1", "a");
    assert_eq!(u.get("name"), Some(&Json::Str("a".to_string())));
    assert_eq!(u.get("missing"), None);
    assert_eq!(Json::Null.get("id"), None);
    assert!(u.is_object());
    assert_eq!(Json::Str("q".to_string()).as_str(), Some("q"));
}

#[test]
fn tick_decisions() {
    let mut w = watcher_with_users();
    assert!(matches!(w.tick(true), TickPlan::Stop));
    assert!(w.start());
    assert!(matches!(w.tick(false), TickPlan::Skip));
    match w.tick(true) {
        TickPlan::Poll(targets) => {
            assert_eq!(targets.len(), 1);
            assert_eq!(targets[0].table, "users");
        }
        other => panic!("unexpected plan {:?}", other),
    }
    w.stop();
    assert!(matches!(w.tick(true), TickPlan::Stop));
}

#[test]
fn large_snapshot_diff() {
    let rows: Vec<(String, Json)> = (0..2000).map(|i| (i.to_string(), user(&i.to_string(), "x"))).collect();
    let a = Snapshot::from_rows(rows.clone());
    assert_eq!(a.len(), 2000);
    let mut changed = rows;
    changed[10].1 = user("10", "y");
    changed.remove(20);
    changed.push(("2000".to_string(), user("2000", "z")));
    let b = Snapshot::from_rows(changed);
    let d = a.diff(&b);
    let kinds: Vec<(ChangeType, String)> = d.iter().map(|c: &RowChange| (c.kind, c.pk.clone())).collect();
    assert_eq!(
        kinds,
        vec![
            (ChangeType::Update, "10".to_string()),
            (ChangeType::Insert, "2000".to_string()),
            (ChangeType::Delete, "20".to_string())
        ]
    );
}
