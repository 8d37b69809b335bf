use tabletrace::config::{default_publication_name, default_schemas, default_slot_name, PgConfig, SupabaseConfig};
use tabletrace::schema::TableInfo;

fn sample() -> PgConfig {
    PgConfig {
        host: "db.local".to_string(),
        port: 6543,
        user: "alice".to_string(),
        password: "pw".to_string(),
        database: "shop".to_string(),
        use_ssl: true,
        slot_name: default_slot_name(),
        publication_name: default_publication_name(),
    }
}

#[test]
fn connection_string_fields() {
    assert_eq!(sample().connection_string(), "host=db.local port=6543 user=alice password=pw dbname=shop");
}

#[test]
fn replication_connection_string_fields() {
    assert_eq!(
        sample().replication_connection_string(),
        "host=db.local port=6543 user=alice password=pw dbname=shop replication=database"
    );
}

#[test]
fn pg_defaults() {
    let c = PgConfig::default();
    assert_eq!(c.host, "localhost");
    assert_eq!(c.port, 5432);
    assert_eq!(c.user, "postgres");
    assert_eq!(c.password, "");
    assert_eq!(c.database, "postgres");
    assert!(!c.use_ssl);
    assert_eq!(c.slot_name, "tabletrace_slot");
    assert_eq!(c.publication_name, "tabletrace_pub");
    assert_eq!(c.connection_string(), "host=localhost port=5432 user=postgres password= dbname=postgres");
}

#[test]
fn realtime_url_from_https() {
    let c = SupabaseConfig {
        url: "https://abc.supabase.co".to_string(),
        anon_key: "key1".to_string(),
        tables: vec![],
        schemas: default_schemas(),
    };
    assert_eq!(c.realtime_url(), "wss://abc.supabase.co/realtime/v1/websocket?apikey=key1&vsn=1.0.0");
}

#[test]
fn realtime_url_from_http() {
    let c = SupabaseConfig {
        url: "http://localhost:54321".to_string(),
        anon_key: "k".to_string(),
        tables: vec![],
        schemas: vec![],
    };
    assert_eq!(c.realtime_url(), "ws://localhost:54321/realtime/v1/websocket?apikey=k&vsn=1.0.0");
}

#[test]
fn supabase_defaults() {
    let c = SupabaseConfig::default();
    assert_eq!(c.url, "");
    assert_eq!(c.anon_key, "");
    assert!(c.tables.is_empty());
    assert_eq!(c.schemas, vec!["public".to_string()]);
}

#[test]
fn table_full_name() {
    let t = TableInfo { schema: "public".to_string(), name: "users".to_string(), column_count: 2, comment: None };
    assert_eq!(t.full_name(), "public.users");
}
