//! Connection settings for the database and for the realtime feed.
use vstd::prelude::*;
use vstd::string::StringExecFns;
use crate::text::{dec, decimal, replace_all, replace_str};

verus! {

/// Settings of a database connection.
#[derive(Clone, Debug)]
pub struct PgConfig {
    pub host: String,
    pub port: u16,
    pub user: String,
    pub password: String,
    pub database: String,
    pub use_ssl: bool,
    /// Reserved for logical replication.
    pub slot_name: String,
    /// Reserved for logical replication.
    pub publication_name: String,
}

/// The replication slot name used when none is given.
pub fn default_slot_name() -> (r: String)
    ensures
        r@ == "tabletrace_slot"@,
{
    String::from_str("tabletrace_slot")
}

/// The publication name used when none is given.
pub fn default_publication_name() -> (r: String)
    ensures
        r@ == "tabletrace_pub"@,
{
    String::from_str("tabletrace_pub")
}

/// The key=value connection string of a configuration, with `suffix` appended.
pub open spec fn connection_text(c: PgConfig, suffix: Seq<char>) -> Seq<char> {
    "host="@ + c.host@ + " port="@ + dec(c.port as nat) + " user="@ + c.user@ + " password="@ + c.password@
        + " dbname="@ + c.database@ + suffix
}

impl PgConfig {
    fn connection_text_with(&self, suffix: &str) -> (r: String)
        ensures
            r@ == connection_text(*self, suffix@),
    {
        let mut r = String::from_str("host=");
        r.append(self.host.as_str());
        r.append(" port=");
        let p = decimal(self.port as u64);
        r.append(p.as_str());
        r.append(" user=");
        r.append(self.user.as_str());
        r.append(" password=");
        r.append(self.password.as_str());
        r.append(" dbname=");
        r.append(self.database.as_str());
        r.append(suffix);
        r
    }

    /// `host=.. port=.. user=.. password=.. dbname=..`.
    pub fn connection_string(&self) -> (r: String)
        ensures
            r@ == connection_text(*self, ""@),
    {
        self.connection_text_with("")
    }

    /// The connection string with `replication=database` appended.
    pub fn replication_connection_string(&self) -> (r: String)
        ensures
            r@ == connection_text(*self, " replication=database"@),
    {
        self.connection_text_with(" replication=database")
    }
}

impl Default for PgConfig {
    fn default() -> (r: PgConfig)
        ensures
            r.host@ == "localhost"@,
            r.port == 5432,
            r.user@ == "postgres"@,
            r.password@ == ""@,
            r.database@ == "postgres"@,
            !r.use_ssl,
            r.slot_name@ == "tabletrace_slot"@,
            r.publication_name@ == "tabletrace_pub"@,
    {
        PgConfig {
            host: String::from_str("localhost"),
            port: 5432,
            user: String::from_str("postgres"),
            password: String::from_str(""),
            database: String::from_str("postgres"),
            use_ssl: false,
            slot_name: default_slot_name(),
            publication_name: default_publication_name(),
        }
    }
}

/// Settings of the realtime feed.
#[derive(Clone, Debug)]
pub struct SupabaseConfig {
    /// The project's base URL, `http(s)://...`.
    pub url: String,
    /// The public API key.
    pub anon_key: String,
    /// Tables to watch; empty means every table of the watched schemas.
    pub tables: Vec<String>,
    /// Schemas to watch.
    pub schemas: Vec<String>,
}

/// The schemas watched when none are given: `public` alone.
pub fn default_schemas() -> (r: Vec<String>)
    ensures
        r@.len() == 1,
        r@[0]@ == "public"@,
{
    let mut v: Vec<String> = Vec::new();
    v.push(String::from_str("public"));
    v
}

/// The WebSocket endpoint of the realtime feed for a base URL and key.
pub open spec fn realtime_endpoint(url: Seq<char>, key: Seq<char>) -> Seq<char> {
    replace_all(replace_all(url, "https://"@, "wss://"@), "http://"@, "ws://"@)
        + "/realtime/v1/websocket?apikey="@ + key + "&vsn=1.0.0"@
}

impl SupabaseConfig {
    /// The WebSocket URL: `https://` becomes `wss://`, `http://` becomes `ws://`,
    /// then the realtime path with the key and protocol version.
    pub fn realtime_url(&self) -> (r: String)
        ensures
            r@ == realtime_endpoint(self.url@, self.anon_key@),
    {
        proof {
            reveal_strlit("https://");
            reveal_strlit("http://");
        }
        let secure = replace_str(self.url.as_str(), "https://", "wss://");
        let mut base = replace_str(secure.as_str(), "http://", "ws://");
        base.append("/realtime/v1/websocket?apikey=");
        base.append(self.anon_key.as_str());
        base.append("&vsn=1.0.0");
        base
    }
}

impl Default for SupabaseConfig {
    fn default() -> (r: SupabaseConfig)
        ensures
            r.url@ == ""@,
            r.anon_key@ == ""@,
            r.tables@.len() == 0,
            r.schemas@.len() == 1,
            r.schemas@[0]@ == "public"@,
    {
        SupabaseConfig {
            url: String::from_str(""),
            anon_key: String::from_str(""),
            tables: Vec::new(),
            schemas: default_schemas(),
        }
    }
}

/// The kind of a saved connection.
#[derive(Clone, Copy, Debug, PartialEq, Eq, Structural)]
pub enum ConnectionType {
    Postgres,
    Supabase,
}

/// The settings of a saved connection.
#[derive(Clone, Debug)]
pub enum ConnectionConfig {
    Postgres(PgConfig),
    Supabase(SupabaseConfig),
}

/// A saved connection.
#[derive(Clone, Debug)]
pub struct ConnectionProfile {
    pub id: String,
    pub name: String,
    pub connection_type: ConnectionType,
    pub config: ConnectionConfig,
    pub color: Option<String>,
    pub is_default: bool,
    pub created_at: String,
    pub last_used_at: Option<String>,
}

} // verus!
