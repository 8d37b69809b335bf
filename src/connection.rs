//! The state of the database session and the answers given about it.
use vstd::prelude::*;
use vstd::string::StringExecFns;
use crate::config::PgConfig;
use crate::text::{dec, decimal, concat2};

verus! {

/// The state of a connection.
#[derive(Clone, Debug, PartialEq)]
pub enum ConnectionState {
    Disconnected,
    Connecting,
    Connected,
    Reconnecting { attempt: u32 },
    Error { message: String },
}

/// A status answer: a status word and an optional message.
#[derive(Clone, Debug)]
pub struct ConnectionStateResponse {
    pub status: String,
    pub message: Option<String>,
}

/// The status word of a state.
pub open spec fn status_word(s: ConnectionState) -> Seq<char> {
    match s {
        ConnectionState::Disconnected => "disconnected"@,
        ConnectionState::Connecting => "connecting"@,
        ConnectionState::Connected => "connected"@,
        ConnectionState::Reconnecting { .. } => "reconnecting"@,
        ConnectionState::Error { .. } => "error"@,
    }
}

/// The message that goes with a state, if any.
pub open spec fn status_message(s: ConnectionState) -> Option<Seq<char>> {
    match s {
        ConnectionState::Reconnecting { attempt } => Some("Attempt "@ + dec(attempt as nat)),
        ConnectionState::Error { message } => Some(message@),
        _ => None,
    }
}

/// The model of an optional string.
pub open spec fn opt_text(o: Option<String>) -> Option<Seq<char>> {
    match o {
        Some(s) => Some(s@),
        None => None,
    }
}

/// The status answer for a state.
pub fn status_response(state: &ConnectionState) -> (r: ConnectionStateResponse)
    ensures
        r.status@ == status_word(*state),
        opt_text(r.message) == status_message(*state),
{
    match state {
        ConnectionState::Disconnected => ConnectionStateResponse { status: String::from_str("disconnected"), message: None },
        ConnectionState::Connecting => ConnectionStateResponse { status: String::from_str("connecting"), message: None },
        ConnectionState::Connected => ConnectionStateResponse { status: String::from_str("connected"), message: None },
        ConnectionState::Reconnecting { attempt } => {
            let n = decimal(*attempt as u64);
            ConnectionStateResponse {
                status: String::from_str("reconnecting"),
                message: Some(concat2("Attempt ", n.as_str())),
            }
        },
        ConnectionState::Error { message } => ConnectionStateResponse {
            status: String::from_str("error"),
            message: Some(message.clone()),
        },
    }
}

/// A status answer with a message.
fn response(status: &str, message: &str) -> (r: ConnectionStateResponse)
    ensures
        r.status@ == status@,
        opt_text(r.message) == Some(message@),
{
    ConnectionStateResponse { status: String::from_str(status), message: Some(String::from_str(message)) }
}

/// The answer to a connection test: success, or the failure with its reason.
pub fn test_connection_response(outcome: Result<(), String>) -> (r: Result<ConnectionStateResponse, String>)
    ensures
        match (outcome, r) {
            (Ok(_), Ok(resp)) => resp.status@ == "connected"@ && opt_text(resp.message) == Some("Connection successful"@),
            (Err(e), Err(m)) => m@ == "Connection failed: "@ + e@,
            _ => false,
        },
{
    match outcome {
        Ok(_) => Ok(response("connected", "Connection successful")),
        Err(e) => Err(concat2("Connection failed: ", e.as_str())),
    }
}

/// The answer to a connect request.
pub fn connect_response(outcome: Result<(), String>) -> (r: Result<ConnectionStateResponse, String>)
    ensures
        match (outcome, r) {
            (Ok(_), Ok(resp)) => resp.status@ == "connected"@ && opt_text(resp.message) == Some("Connected to PostgreSQL"@),
            (Err(e), Err(m)) => m@ == "Connection failed: "@ + e@,
            _ => false,
        },
{
    match outcome {
        Ok(_) => Ok(response("connected", "Connected to PostgreSQL")),
        Err(e) => Err(concat2("Connection failed: ", e.as_str())),
    }
}

/// The answer to a disconnect request.
pub fn disconnect_response() -> (r: ConnectionStateResponse)
    ensures
        r.status@ == "disconnected"@,
        opt_text(r.message) == Some("Disconnected from PostgreSQL"@),
{
    response("disconnected", "Disconnected from PostgreSQL")
}

/// Fails unless the session is connected.
pub fn ensure_connected(session: &Session) -> (r: Result<(), String>)
    ensures
        match r {
            Ok(_) => session.state_of() is Connected,
            Err(m) => !(session.state_of() is Connected) && m@ == "Not connected to database"@,
        },
{
    if !session.is_connected() {
        return Err(String::from_str("Not connected to database"));
    }
    Ok(())
}

/// The answer to a realtime connection test.
pub fn supabase_test_response(outcome: Result<(), String>, url: &str) -> (r: Result<ConnectionStateResponse, String>)
    ensures
        match (outcome, r) {
            (Ok(_), Ok(resp)) => resp.status@ == "connected"@ && opt_text(resp.message) == Some("Supabase connection successful"@),
            (Err(e), Err(m)) => m@ == "WebSocket connection failed: "@ + e@ + ". URL: "@ + url@,
            _ => false,
        },
{
    match outcome {
        Ok(_) => Ok(response("connected", "Supabase connection successful")),
        Err(e) => {
            let mut m = concat2("WebSocket connection failed: ", e.as_str());
            m.append(". URL: ");
            m.append(url);
            Err(m)
        },
    }
}

/// The answer to a realtime connect request.
pub fn supabase_connect_response() -> (r: ConnectionStateResponse)
    ensures
        r.status@ == "connected"@,
        opt_text(r.message) == Some("Connected to Supabase"@),
{
    response("connected", "Connected to Supabase")
}

/// The answer to a realtime disconnect request.
pub fn supabase_disconnect_response() -> (r: ConnectionStateResponse)
    ensures
        r.status@ == "disconnected"@,
        opt_text(r.message) == Some("Disconnected from Supabase"@),
{
    response("disconnected", "Disconnected from Supabase")
}

/// The realtime status: `connected` only for a connected client, with no message.
pub fn supabase_status(client_connected: Option<bool>) -> (r: ConnectionStateResponse)
    ensures
        r.status@ == if client_connected == Some(true) { "connected"@ } else { "disconnected"@ },
        r.message is None,
{
    let connected = match client_connected {
        Some(c) => c,
        None => false,
    };
    let status = if connected { String::from_str("connected") } else { String::from_str("disconnected") };
    ConnectionStateResponse { status, message: None }
}

/// The state that a connect attempt shows first.
pub open spec fn connect_begun() -> ConnectionState {
    ConnectionState::Connecting
}

/// The state that a connect attempt ends in.
pub open spec fn connect_ended(outcome: Result<(), String>) -> ConnectionState {
    match outcome {
        Ok(_) => ConnectionState::Connected,
        Err(e) => ConnectionState::Error { message: e },
    }
}

/// The session state of the database gateway: the connection state and the
/// settings of the open session.
pub struct Session {
    state: ConnectionState,
    config: Option<PgConfig>,
}

impl Session {
    /// The connection state.
    pub closed spec fn state_of(&self) -> ConnectionState {
        self.state
    }

    /// Whether a session is open; it is exactly when the state is `Connected`.
    pub closed spec fn has_config(&self) -> bool {
        self.config is Some
    }

    /// Settings are kept exactly while connected.
    pub closed spec fn wf(&self) -> bool {
        self.config is Some <==> self.state is Connected
    }

    /// A disconnected session.
    pub fn new() -> (r: Session)
        ensures
            r.wf(),
            r.state_of() is Disconnected,
            !r.has_config(),
    {
        Session { state: ConnectionState::Disconnected, config: None }
    }

    /// The connection state.
    pub fn state(&self) -> (r: &ConnectionState)
        ensures
            *r == self.state_of(),
    {
        &self.state
    }

    /// Whether the session is connected.
    pub fn is_connected(&self) -> (r: bool)
        ensures
            r == self.state_of() is Connected,
    {
        match self.state {
            ConnectionState::Connected => true,
            _ => false,
        }
    }

    /// The settings of the open session.
    pub fn config(&self) -> (r: Option<&PgConfig>)
        ensures
            r is Some == self.has_config(),
    {
        self.config.as_ref()
    }

    /// A connect attempt begins; any earlier session is closed.
    pub fn begin_connect(&mut self)
        ensures
            final(self).wf(),
            final(self).state_of() == connect_begun(),
            !final(self).has_config(),
    {
        self.config = None;
        self.state = ConnectionState::Connecting;
    }

    /// A connect attempt ends: connected with `config`, or in error with the reason.
    pub fn finish_connect(&mut self, config: PgConfig, outcome: Result<(), String>)
        ensures
            final(self).wf(),
            final(self).state_of() == connect_ended(outcome),
            final(self).has_config() == outcome is Ok,
    {
        match outcome {
            Ok(_) => {
                self.config = Some(config);
                self.state = ConnectionState::Connected;
            },
            Err(e) => {
                self.config = None;
                self.state = ConnectionState::Error { message: e };
            },
        }
    }

    /// Closes the session; closing a closed session changes nothing.
    pub fn disconnect(&mut self)
        ensures
            final(self).wf(),
            final(self).state_of() is Disconnected,
            !final(self).has_config(),
    {
        self.config = None;
        self.state = ConnectionState::Disconnected;
    }
}

/// During one connect attempt the states observed are `Connecting` and then
/// `Connected` or `Error`, whatever the outcome.
pub proof fn lemma_connect_states(outcome: Result<(), String>)
    ensures
        connect_begun() is Connecting,
        connect_ended(outcome) is Connected || connect_ended(outcome) is Error,
        outcome is Ok ==> connect_ended(outcome) is Connected,
        outcome is Err ==> connect_ended(outcome) is Error,
{
}

} // verus!
