use tabletrace::config::SupabaseConfig;
use tabletrace::json::Json;
use tabletrace::realtime::{decode_message, feed_event, heartbeat_message, SupabaseClient, SupabaseConnectionState};
use tabletrace::schema::ChangeType;

fn s(t: &str) -> Json {
    Json::Str(t.to_string())
}

fn obj(ms: Vec<(&str, Json)>) -> Json {
    Json::Object(ms.into_iter().map(|(k, v)| (k.to_string(), v)).collect())
}

fn message(event: &str, payload: Json) -> Json {
    obj(vec![("topic", s("realtime:*")), ("event", s(event)), ("payload", payload), ("ref", Json::Null)])
}

fn client(tables: Vec<&str>, schemas: Vec<&str>) -> SupabaseClient {
    SupabaseClient::new(SupabaseConfig {
        url: "https://x.supabase.co".to_string(),
        anon_key: "k".to_string(),
        tables: tables.into_iter().map(String::from).collect(),
        schemas: schemas.into_iter().map(String::from).collect(),
    })
}

#[test]
fn decode_insert() {
    let payload = obj(vec![
        ("schema", s("public")),
        ("table", s("users")),
        ("commit_timestamp", s("2024-01-01T00:00:00Z")),
        ("eventType", s("INSERT")),
        ("new", obj(vec![("id", Json::Number("1".to_string())), ("name", s("a"))])),
        ("old", obj(vec![])),
    ]);
    let c = client(vec![], vec!["public"]);
    let e = c.parse_realtime_message(&message("postgres_changes", payload)).unwrap();
    assert_eq!(e.change_type, ChangeType::Insert);
    assert_eq!(e.schema, "public");
    assert_eq!(e.table, "users");
    assert_eq!(e.timestamp, "2024-01-01T00:00:00Z");
    assert_eq!(e.source, "supabase");
    assert_eq!(e.id.len(), 36);
    assert_eq!(e.primary_key, Some(obj(vec![("id", Json::Number("1".to_string()))])));
    assert_eq!(e.after, Some(obj(vec![("id", Json::Number("1".to_string())), ("name", s("a"))])));
    assert_eq!(e.before, Some(obj(vec![])));
}

#[test]
fn decode_defaults_and_fallbacks() {
    let payload = obj(vec![
        ("table", s("users")),
        ("eventType", s("DELETE")),
        ("old", obj(vec![("id", Json::Number("9".to_string()))])),
        ("new", Json::Null),
    ]);
    let c = decode_message(&message("postgres_changes", payload)).unwrap();
    assert_eq!(c.schema, "public");
    assert_eq!(c.change_type, ChangeType::Delete);
    assert!(c.commit_timestamp.is_none());
    assert!(c.after.is_none());
    assert_eq!(c.primary_key, Some(obj(vec![("id", Json::Number("9".to_string()))])));
    let c2 = c.clone();
    let e = feed_event(c, "id-1".to_string(), "now".to_string());
    let stamped = client(vec![], vec!["public"]).parse_realtime_message(&message(
        "postgres_changes",
        obj(vec![("table", s("users")), ("eventType", s("DELETE")), ("old", obj(vec![("id", Json::Number("9".to_string()))]))]),
    ));
    let stamped = stamped.unwrap();
    assert!(stamped.timestamp.ends_with("+00:00"));
    assert_eq!(stamped.primary_key, c2.primary_key);
    assert_eq!(e.timestamp, "now");
    assert_eq!(e.id, "id-1");
}

#[test]
fn decode_drops_other_messages() {
    let ok_payload = obj(vec![("table", s("users")), ("eventType", s("UPDATE"))]);
    assert!(decode_message(&message("postgres_changes", ok_payload)).is_some());
    assert!(decode_message(&message("phx_reply", obj(vec![("table", s("users")), ("eventType", s("UPDATE"))]))).is_none());
    assert!(decode_message(&message("postgres_changes", obj(vec![("eventType", s("UPDATE"))]))).is_none());
    assert!(decode_message(&message("postgres_changes", obj(vec![("table", s("users"))]))).is_none());
    assert!(decode_message(&message("postgres_changes", obj(vec![("table", s("users")), ("eventType", s("TRUNCATE"))]))).is_none());
    assert!(decode_message(&message("postgres_changes", obj(vec![("table", Json::Bool(true)), ("eventType", s("UPDATE"))]))).is_none());
    assert!(decode_message(&message("postgres_changes", s("text"))).is_none());
    assert!(decode_message(&obj(vec![("event", s("postgres_changes"))])).is_none());
    let bad_columns = obj(vec![("table", s("users")), ("eventType", s("UPDATE")), ("columns", Json::Array(vec![s("x")]))]);
    assert!(decode_message(&message("postgres_changes", bad_columns)).is_some());
    let good_columns = obj(vec![
        ("table", s("users")),
        ("eventType", s("UPDATE")),
        ("columns", Json::Array(vec![obj(vec![("name", s("id")), ("type", s("int4"))])])),
    ]);
    assert!(decode_message(&message("postgres_changes", good_columns)).is_some());
}

#[test]
fn subscriptions_per_schema() {
    let c = client(vec![], vec!["public", "audit"]);
    assert_eq!(
        c.build_postgres_changes_config(),
        vec![
            obj(vec![("event", s("*")), ("schema", s("public"))]),
            obj(vec![("event", s("*")), ("schema", s("audit"))])
        ]
    );
}

#[test]
fn subscriptions_per_table_and_schema() {
    let c = client(vec!["a", "b"], vec!["p", "q"]);
    let subs = c.build_postgres_changes_config();
    assert_eq!(subs.len(), 4);
    assert_eq!(subs[0], obj(vec![("event", s("*")), ("schema", s("p")), ("table", s("a"))]));
    assert_eq!(subs[1], obj(vec![("event", s("*")), ("schema", s("q")), ("table", s("a"))]));
    assert_eq!(subs[3], obj(vec![("event", s("*")), ("schema", s("q")), ("table", s("b"))]));
}

#[test]
fn join_and_heartbeat_messages() {
    let c = client(vec![], vec!["public"]);
    let join = c.join_message();
    assert_eq!(
        join,
        obj(vec![
            ("topic", s("realtime:*")),
            ("event", s("phx_join")),
            (
                "payload",
                obj(vec![(
                    "config",
                    obj(vec![("postgres_changes", Json::Array(vec![obj(vec![("event", s("*")), ("schema", s("public"))])]))])
                )])
            ),
            ("ref", s("1")),
        ])
    );
    assert_eq!(
        heartbeat_message(),
        obj(vec![("topic", s("phoenix")), ("event", s("heartbeat")), ("payload", obj(vec![])), ("ref", Json::Null)])
    );
}

#[test]
fn client_states() {
    let mut c = client(vec![], vec!["public"]);
    assert_eq!(*c.get_state(), SupabaseConnectionState::Disconnected);
    assert!(!c.is_connected());
    c.begin_connect();
    assert_eq!(*c.get_state(), SupabaseConnectionState::Connecting);
    c.opened();
    assert!(c.is_connected());
    c.closed(Some("reset".to_string()));
    assert_eq!(*c.get_state(), SupabaseConnectionState::Error { message: "reset".to_string() });
    c.opened();
    c.closed(None);
    assert_eq!(*c.get_state(), SupabaseConnectionState::Disconnected);
    let m = c.connect_failed("refused");
    assert_eq!(m, "WebSocket connection failed: refused");
    c.disconnect();
    assert!(!c.is_connected());
    assert_eq!(c.config().anon_key, "k");
}
