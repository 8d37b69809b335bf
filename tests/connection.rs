use tabletrace::config::PgConfig;
use tabletrace::connection::{
    connect_response, disconnect_response, ensure_connected, status_response, supabase_connect_response,
    supabase_disconnect_response, supabase_status, supabase_test_response, test_connection_response, ConnectionState,
    Session,
};
use tabletrace::dto::page_bounds;

#[test]
fn status_words() {
    let r = status_response(&ConnectionState::Disconnected);
    assert_eq!(r.status, "disconnected");
    assert!(r.message.is_none());
    assert_eq!(status_response(&ConnectionState::Connecting).status, "connecting");
    assert_eq!(status_response(&ConnectionState::Connected).status, "connected");
    let r = status_response(&ConnectionState::Reconnecting { attempt: 3 });
    assert_eq!(r.status, "reconnecting");
    assert_eq!(r.message, Some("Attempt 3".to_string()));
    let r = status_response(&ConnectionState::Error { message: "bad".to_string() });
    assert_eq!(r.status, "error");
    assert_eq!(r.message, Some("bad".to_string()));
}

#[test]
fn connect_attempt_states() {
    let mut s = Session::new();
    assert_eq!(*s.state(), ConnectionState::Disconnected);
    assert!(ensure_connected(&s).is_err());
    s.begin_connect();
    assert_eq!(*s.state(), ConnectionState::Connecting);
    s.finish_connect(PgConfig::default(), Ok(()));
    assert_eq!(*s.state(), ConnectionState::Connected);
    assert!(s.is_connected());
    assert!(s.config().is_some());
    assert!(ensure_connected(&s).is_ok());
    s.begin_connect();
    assert!(s.config().is_none());
    s.finish_connect(PgConfig::default(), Err("refused".to_string()));
    assert_eq!(*s.state(), ConnectionState::Error { message: "refused".to_string() });
    assert_eq!(ensure_connected(&s), Err("Not connected to database".to_string()));
    s.disconnect();
    s.disconnect();
    assert_eq!(*s.state(), ConnectionState::Disconnected);
}

#[test]
fn responses() {
    let ok = test_connection_response(Ok(())).unwrap();
    assert_eq!(ok.status, "connected");
    assert_eq!(ok.message, Some("Connection successful".to_string()));
    assert_eq!(test_connection_response(Err("x".to_string())).unwrap_err(), "Connection failed: x");
    assert_eq!(connect_response(Ok(())).unwrap().message, Some("Connected to PostgreSQL".to_string()));
    assert_eq!(connect_response(Err("y".to_string())).unwrap_err(), "Connection failed: y");
    assert_eq!(disconnect_response().status, "disconnected");
    assert_eq!(
        supabase_test_response(Err("no".to_string()), "wss://h").unwrap_err(),
        "WebSocket connection failed: no. URL: wss://h"
    );
    assert_eq!(supabase_test_response(Ok(()), "u").unwrap().message, Some("Supabase connection successful".to_string()));
    assert_eq!(supabase_connect_response().message, Some("Connected to Supabase".to_string()));
    assert_eq!(supabase_disconnect_response().message, Some("Disconnected from Supabase".to_string()));
    assert_eq!(supabase_status(Some(true)).status, "connected");
    assert_eq!(supabase_status(Some(false)).status, "disconnected");
    assert_eq!(supabase_status(None).status, "disconnected");
}

#[test]
fn page_defaults() {
    assert_eq!(page_bounds(None, None), (100, 0));
    assert_eq!(page_bounds(Some(5), Some(10)), (5, 10));
}

