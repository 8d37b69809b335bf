//! The realtime feed: its connection state, the channel messages it sends, and
//! the decoding of the change events it receives.
use vstd::prelude::*;
use vstd::string::StringExecFns;
use crate::config::SupabaseConfig;
use crate::events::{new_event_id, now_rfc3339, utc_stamp};
use crate::json::{get_member, members_view, object, Json, JsonV};
use crate::schema::{opt_json, ChangeType, TableChange};
use crate::sql::names_view;
use crate::text::concat2;

verus! {

/// The state of the realtime connection.
#[derive(Clone, Debug, PartialEq)]
pub enum SupabaseConnectionState {
    Disconnected,
    Connecting,
    Connected,
    Reconnecting { attempt: u32 },
    Error { message: String },
}

/// A channel message: `{"topic", "event", "payload", "ref"}`.
pub open spec fn envelope(topic: Seq<char>, event: Seq<char>, payload: JsonV, reference: Option<Seq<char>>) -> JsonV {
    JsonV::Object(seq![
        ("topic"@, JsonV::Str(topic)),
        ("event"@, JsonV::Str(event)),
        ("payload"@, payload),
        ("ref"@, match reference { Some(r) => JsonV::Str(r), None => JsonV::Null }),
    ])
}

/// One subscription: every event of schema `s`, or of table `t` in it.
pub open spec fn subscription(s: Seq<char>, t: Option<Seq<char>>) -> JsonV {
    match t {
        None => JsonV::Object(seq![("event"@, JsonV::Str("*"@)), ("schema"@, JsonV::Str(s))]),
        Some(t) => JsonV::Object(seq![("event"@, JsonV::Str("*"@)), ("schema"@, JsonV::Str(s)), ("table"@, JsonV::Str(t))]),
    }
}

/// The subscriptions of one table, one per schema.
pub open spec fn table_subscriptions(schemas: Seq<Seq<char>>, t: Seq<char>) -> Seq<JsonV> {
    schemas.map_values(|s: Seq<char>| subscription(s, Some(t)))
}

/// The subscriptions of a list of tables, table by table.
pub open spec fn cross_subscriptions(schemas: Seq<Seq<char>>, tables: Seq<Seq<char>>) -> Seq<JsonV>
    decreases tables.len(),
{
    if tables.len() == 0 {
        Seq::empty()
    } else {
        cross_subscriptions(schemas, tables.drop_last()) + table_subscriptions(schemas, tables.last())
    }
}

/// Whole schemas when no table is named, every (table, schema) pair otherwise.
pub open spec fn subscriptions(schemas: Seq<Seq<char>>, tables: Seq<Seq<char>>) -> Seq<JsonV> {
    if tables.len() == 0 {
        schemas.map_values(|s: Seq<char>| subscription(s, None))
    } else {
        cross_subscriptions(schemas, tables)
    }
}

/// The models of a list of JSON values.
pub open spec fn values_view(v: Seq<Json>) -> Seq<JsonV> {
    v.map_values(|j: Json| j@)
}

fn text(s: &str) -> (r: Json)
    ensures
        r@ == JsonV::Str(s@),
{
    Json::Str(String::from_str(s))
}

fn subscription_value(schema: &String, table: Option<&String>) -> (r: Json)
    ensures
        r@ == subscription(schema@, match table { Some(t) => Some(t@), None => None }),
{
    let mut ms: Vec<(String, Json)> = Vec::new();
    ms.push((String::from_str("event"), text("*")));
    ms.push((String::from_str("schema"), Json::Str(schema.clone())));
    match table {
        Some(t) => {
            ms.push((String::from_str("table"), Json::Str(t.clone())));
        },
        None => {},
    }
    proof {
        assert(members_view(ms@) =~= subscription(schema@, match table { Some(t) => Some(t@), None => None })->Object_0);
    }
    object(ms)
}

fn envelope_value(topic: &str, event: &str, payload: Json, reference: Option<&str>) -> (r: Json)
    ensures
        r@ == envelope(topic@, event@, payload@, match reference { Some(t) => Some(t@), None => None }),
{
    let ghost p = payload@;
    let mut ms: Vec<(String, Json)> = Vec::new();
    ms.push((String::from_str("topic"), text(topic)));
    ms.push((String::from_str("event"), text(event)));
    ms.push((String::from_str("payload"), payload));
    let r_value = match reference {
        Some(t) => text(t),
        None => Json::Null,
    };
    ms.push((String::from_str("ref"), r_value));
    proof {
        assert(members_view(ms@) =~= envelope(topic@, event@, p, match reference { Some(t) => Some(t@), None => None })->Object_0);
    }
    object(ms)
}

/// The heartbeat message.
pub open spec fn heartbeat() -> JsonV {
    envelope("phoenix"@, "heartbeat"@, JsonV::Object(Seq::empty()), None)
}

/// `{"topic": "phoenix", "event": "heartbeat", "payload": {}, "ref": null}`.
pub fn heartbeat_message() -> (r: Json)
    ensures
        r@ == heartbeat(),
{
    let payload = Json::Object(Vec::new());
    proof {
        assert(payload@->Object_0 =~= Seq::<(Seq<char>, JsonV)>::empty());
    }
    envelope_value("phoenix", "heartbeat", payload, None)
}

/// The join message for a list of subscriptions.
pub open spec fn join(subs: Seq<JsonV>) -> JsonV {
    envelope(
        "realtime:*"@,
        "phx_join"@,
        JsonV::Object(seq![("config"@, JsonV::Object(seq![("postgres_changes"@, JsonV::Array(subs))]))]),
        Some("1"@),
    )
}

} // verus!

verus! {

/// A field read as an optional string: `Some(None)` when absent or null,
/// `Some(Some(s))` for a string, `None` (malformed) for anything else.
pub open spec fn optional_string(v: Option<JsonV>) -> Option<Option<Seq<char>>> {
    match v {
        None => Some(None),
        Some(JsonV::Null) => Some(None),
        Some(JsonV::Str(s)) => Some(Some(s)),
        _ => None,
    }
}

/// A field read as an optional value: absent and null read as nothing.
pub open spec fn optional_value(v: Option<JsonV>) -> Option<JsonV> {
    match v {
        None => None,
        Some(JsonV::Null) => None,
        Some(x) => Some(x),
    }
}

/// A well-formed channel message: string `topic` and `event`, some `payload`,
/// and a `ref` that is a string, null or absent.
pub open spec fn envelope_ok(msg: JsonV) -> bool {
    &&& get_member(msg, "topic"@) matches Some(JsonV::Str(_))
    &&& get_member(msg, "event"@) matches Some(JsonV::Str(_))
    &&& get_member(msg, "payload"@) is Some
    &&& optional_string(get_member(msg, "ref"@)) is Some
}

/// The change kind named by an event type.
pub open spec fn kind_named(e: Seq<char>) -> Option<ChangeType> {
    if e == "INSERT"@ {
        Some(ChangeType::Insert)
    } else if e == "UPDATE"@ {
        Some(ChangeType::Update)
    } else if e == "DELETE"@ {
        Some(ChangeType::Delete)
    } else {
        None
    }
}

/// The `id` member of an optional record.
pub open spec fn id_of(v: Option<JsonV>) -> Option<JsonV> {
    match v {
        Some(x) => get_member(x, "id"@),
        None => None,
    }
}

/// The primary key of a feed event: `{"id": ..}` from the new record, else from the old one.
pub open spec fn feed_key(new: Option<JsonV>, prev: Option<JsonV>) -> Option<JsonV> {
    match (id_of(new), id_of(prev)) {
        (Some(i), _) => Some(JsonV::Object(seq![("id"@, i)])),
        (None, Some(i)) => Some(JsonV::Object(seq![("id"@, i)])),
        (None, None) => None,
    }
}

/// A record kept only when it is an object.
pub open spec fn object_only(v: Option<JsonV>) -> Option<JsonV> {
    match v {
        Some(JsonV::Object(ms)) => Some(JsonV::Object(ms)),
        _ => None,
    }
}

/// A change decoded from the feed, before it gets an identity.
#[derive(Clone, Debug)]
pub struct FeedChange {
    pub schema: String,
    pub table: String,
    pub change_type: ChangeType,
    pub primary_key: Option<Json>,
    pub before: Option<Json>,
    pub after: Option<Json>,
    pub commit_timestamp: Option<String>,
}

/// The model of a `FeedChange`.
pub struct FeedChangeV {
    pub schema: Seq<char>,
    pub table: Seq<char>,
    pub change_type: ChangeType,
    pub primary_key: Option<JsonV>,
    pub before: Option<JsonV>,
    pub after: Option<JsonV>,
    pub commit_timestamp: Option<Seq<char>>,
}

/// The model of an optional decoded change.
pub open spec fn feed_view(c: Option<FeedChange>) -> Option<FeedChangeV> {
    match c {
        Some(c) => Some(FeedChangeV {
            schema: c.schema@,
            table: c.table@,
            change_type: c.change_type,
            primary_key: opt_json(c.primary_key),
            before: opt_json(c.before),
            after: opt_json(c.after),
            commit_timestamp: match c.commit_timestamp { Some(t) => Some(t@), None => None },
        }),
        None => None,
    }
}

/// The change carried by a payload object, if it names a table and a known event type.
pub open spec fn decode_payload(p: JsonV) -> Option<FeedChangeV> {
    let schema = optional_string(get_member(p, "schema"@));
    let table = optional_string(get_member(p, "table"@));
    let stamp = optional_string(get_member(p, "commit_timestamp"@));
    let event_type = optional_string(get_member(p, "eventType"@));
    let new = optional_value(get_member(p, "new"@));
    let prev = optional_value(get_member(p, "old"@));
    if !(p is Object) || schema is None || table is None || stamp is None || event_type is None {
        None
    } else {
        match (table.unwrap(), event_type.unwrap()) {
            (Some(t), Some(e)) => match kind_named(e) {
                Some(k) => Some(FeedChangeV {
                    schema: match schema.unwrap() { Some(s) => s, None => "public"@ },
                    table: t,
                    change_type: k,
                    primary_key: feed_key(new, prev),
                    before: object_only(prev),
                    after: object_only(new),
                    commit_timestamp: stamp.unwrap(),
                }),
                None => None,
            },
            _ => None,
        }
    }
}

/// The change carried by a channel message: only well-formed `postgres_changes`
/// messages whose payload decodes carry one.
pub open spec fn decode(msg: JsonV) -> Option<FeedChangeV> {
    if envelope_ok(msg) && get_member(msg, "event"@) == Some(JsonV::Str("postgres_changes"@)) {
        decode_payload(get_member(msg, "payload"@).unwrap())
    } else {
        None
    }
}

fn read_optional_string(v: Option<&Json>) -> (r: Option<Option<String>>)
    ensures
        match r {
            Some(Some(s)) => optional_string(match v { Some(j) => Some(j@), None => None }) == Some(Some(s@)),
            Some(None) => optional_string(match v { Some(j) => Some(j@), None => None }) == Some(None::<Seq<char>>),
            None => optional_string(match v { Some(j) => Some(j@), None => None }) is None,
        },
{
    match v {
        None => Some(None),
        Some(j) => {
            if j.is_null() {
                Some(None)
            } else {
                match j.as_str() {
                    Some(t) => Some(Some(String::from_str(t))),
                    None => None,
                }
            }
        },
    }
}

fn read_optional_value(v: Option<&Json>) -> (r: Option<&Json>)
    ensures
        match r {
            Some(j) => optional_value(match v { Some(j) => Some(j@), None => None }) == Some(j@),
            None => optional_value(match v { Some(j) => Some(j@), None => None }) is None,
        },
{
    match v {
        None => None,
        Some(j) => if j.is_null() { None } else { Some(j) },
    }
}

fn is_string_member(v: &Json, key: &str) -> (r: bool)
    ensures
        r == (get_member(v@, key@) matches Some(JsonV::Str(_))),
{
    match v.get(key) {
        Some(j) => j.as_str().is_some(),
        None => false,
    }
}

} // verus!

verus! {

fn same_text(a: &str, b: &str) -> (r: bool)
    ensures
        r == (a@ == b@),
{
    String::from_str(a) == String::from_str(b)
}

fn kind_from(e: &str) -> (r: Option<ChangeType>)
    ensures
        r == kind_named(e@),
{
    if same_text(e, "INSERT") {
        Some(ChangeType::Insert)
    } else if same_text(e, "UPDATE") {
        Some(ChangeType::Update)
    } else if same_text(e, "DELETE") {
        Some(ChangeType::Delete)
    } else {
        None
    }
}

fn id_member(v: Option<&Json>) -> (r: Option<&Json>)
    ensures
        match r {
            Some(j) => id_of(match v { Some(x) => Some(x@), None => None }) == Some(j@),
            None => id_of(match v { Some(x) => Some(x@), None => None }) is None,
        },
{
    match v {
        Some(x) => x.get("id"),
        None => None,
    }
}

fn key_object(id: &Json) -> (r: Json)
    ensures
        r@ == JsonV::Object(seq![("id"@, id@)]),
{
    let mut ms: Vec<(String, Json)> = Vec::new();
    ms.push((String::from_str("id"), id.duplicate()));
    proof {
        assert(members_view(ms@) =~= seq![("id"@, id@)]);
    }
    object(ms)
}

fn object_copy(v: Option<&Json>) -> (r: Option<Json>)
    ensures
        opt_json(r) == object_only(match v { Some(x) => Some(x@), None => None }),
{
    match v {
        Some(x) => if x.is_object() { Some(x.duplicate()) } else { None },
        None => None,
    }
}

/// Decodes the payload object of a `postgres_changes` message.
pub fn decode_payload_value(p: &Json) -> (r: Option<FeedChange>)
    ensures
        feed_view(r) == decode_payload(p@),
{
    if !p.is_object() {
        return None;
    }
    let schema = read_optional_string(p.get("schema"));
    let table = read_optional_string(p.get("table"));
    let stamp = read_optional_string(p.get("commit_timestamp"));
    let event_type = read_optional_string(p.get("eventType"));
    let new = read_optional_value(p.get("new"));
    let prev = read_optional_value(p.get("old"));
    if schema.is_none() || table.is_none() || stamp.is_none() || event_type.is_none() {
        return None;
    }
    let (table, event_type) = match (table, event_type) {
        (Some(Some(t)), Some(Some(e))) => (t, e),
        _ => {
            return None;
        },
    };
    let kind = match kind_from(event_type.as_str()) {
        Some(k) => k,
        None => {
            return None;
        },
    };
    let schema = match schema {
        Some(Some(s)) => s,
        _ => String::from_str("public"),
    };
    let primary_key = match id_member(new) {
        Some(i) => Some(key_object(i)),
        None => match id_member(prev) {
            Some(i) => Some(key_object(i)),
            None => None,
        },
    };
    let commit_timestamp = match stamp {
        Some(t) => t,
        None => None,
    };
    Some(FeedChange {
        schema,
        table,
        change_type: kind,
        primary_key,
        before: object_copy(prev),
        after: object_copy(new),
        commit_timestamp,
    })
}

/// Decodes a channel message into the change it carries, if any.
pub fn decode_message(msg: &Json) -> (r: Option<FeedChange>)
    ensures
        feed_view(r) == decode(msg@),
{
    let topic_ok = is_string_member(msg, "topic");
    let event = match msg.get("event") {
        Some(e) => e.as_str(),
        None => None,
    };
    let payload = msg.get("payload");
    let reference = read_optional_string(msg.get("ref"));
    if !topic_ok || event.is_none() || payload.is_none() || reference.is_none() {
        return None;
    }
    if !same_text(event.unwrap(), "postgres_changes") {
        return None;
    }
    decode_payload_value(payload.unwrap())
}

} // verus!

verus! {

/// The event published for a decoded feed change, with the given identity and
/// the time to use when the change carries none.
pub fn feed_event(change: FeedChange, id: String, now: String) -> (r: TableChange)
    ensures
        r.id == id,
        r.schema == change.schema,
        r.table == change.table,
        r.change_type == change.change_type,
        opt_json(r.primary_key) == opt_json(change.primary_key),
        opt_json(r.before) == opt_json(change.before),
        opt_json(r.after) == opt_json(change.after),
        r.timestamp@ == match change.commit_timestamp { Some(t) => t@, None => now@ },
        r.source@ == "supabase"@,
{
    let timestamp = match change.commit_timestamp {
        Some(t) => t,
        None => now,
    };
    TableChange {
        id,
        schema: change.schema,
        table: change.table,
        change_type: change.change_type,
        primary_key: change.primary_key,
        before: change.before,
        after: change.after,
        timestamp,
        source: String::from_str("supabase"),
    }
}

/// A client of the realtime feed.
pub struct SupabaseClient {
    config: SupabaseConfig,
    state: SupabaseConnectionState,
}

impl SupabaseClient {
    /// The settings of the client.
    pub closed spec fn config_of(&self) -> SupabaseConfig {
        self.config
    }

    /// The connection state of the client.
    pub closed spec fn state_of(&self) -> SupabaseConnectionState {
        self.state
    }

    /// A disconnected client.
    pub fn new(config: SupabaseConfig) -> (r: SupabaseClient)
        ensures
            r.config_of() == config,
            r.state_of() is Disconnected,
    {
        SupabaseClient { config, state: SupabaseConnectionState::Disconnected }
    }

    /// The settings of the client.
    pub fn config(&self) -> (r: &SupabaseConfig)
        ensures
            *r == self.config_of(),
    {
        &self.config
    }

    /// Whether the feed is connected.
    pub fn is_connected(&self) -> (r: bool)
        ensures
            r == self.state_of() is Connected,
    {
        match self.state {
            SupabaseConnectionState::Connected => true,
            _ => false,
        }
    }

    /// The connection state.
    pub fn get_state(&self) -> (r: &SupabaseConnectionState)
        ensures
            *r == self.state_of(),
    {
        &self.state
    }

    /// A connection attempt begins.
    pub fn begin_connect(&mut self)
        ensures
            final(self).state_of() is Connecting,
            final(self).config_of() == old(self).config_of(),
    {
        self.state = SupabaseConnectionState::Connecting;
    }

    /// The socket could not be opened; returns the message reported.
    pub fn connect_failed(&mut self, reason: &str) -> (r: String)
        ensures
            r@ == "WebSocket connection failed: "@ + reason@,
            final(self).state_of() == (SupabaseConnectionState::Error { message: r }),
            final(self).config_of() == old(self).config_of(),
    {
        let m = concat2("WebSocket connection failed: ", reason);
        self.state = SupabaseConnectionState::Error { message: m.clone() };
        m
    }

    /// The socket is open.
    pub fn opened(&mut self)
        ensures
            final(self).state_of() is Connected,
            final(self).config_of() == old(self).config_of(),
    {
        self.state = SupabaseConnectionState::Connected;
    }

    /// The socket ended: closed by the server, or with an error.
    pub fn closed(&mut self, error: Option<String>)
        ensures
            final(self).config_of() == old(self).config_of(),
            match error {
                Some(m) => final(self).state_of() == (SupabaseConnectionState::Error { message: m }),
                None => final(self).state_of() is Disconnected,
            },
    {
        match error {
            Some(m) => {
                self.state = SupabaseConnectionState::Error { message: m };
            },
            None => {
                self.state = SupabaseConnectionState::Disconnected;
            },
        }
    }

    /// Marks the client disconnected.
    pub fn disconnect(&mut self)
        ensures
            final(self).state_of() is Disconnected,
            final(self).config_of() == old(self).config_of(),
    {
        self.state = SupabaseConnectionState::Disconnected;
    }

    /// The subscriptions asked for when joining.
    pub fn build_postgres_changes_config(&self) -> (r: Vec<Json>)
        ensures
            values_view(r@) == subscriptions(names_view(self.config_of().schemas@), names_view(self.config_of().tables@)),
    {
        let schemas = &self.config.schemas;
        let tables = &self.config.tables;
        let ghost sv = names_view(schemas@);
        let ghost tv = names_view(tables@);
        let mut out: Vec<Json> = Vec::new();
        if tables.len() == 0 {
            let mut i: usize = 0;
            while i < schemas.len()
                invariant
                    0 <= i <= schemas.len(),
                    sv == names_view(schemas@),
                    values_view(out@) == sv.take(i as int).map_values(|s: Seq<char>| subscription(s, None)),
                decreases schemas.len() - i,
            {
                let ghost prev = out@;
                out.push(subscription_value(&schemas[i], None));
                proof {
                    assert(values_view(out@) =~= values_view(prev).push(subscription(sv[i as int], None)));
                    assert(sv.take(i + 1).map_values(|s: Seq<char>| subscription(s, None))
                        =~= sv.take(i as int).map_values(|s: Seq<char>| subscription(s, None)).push(subscription(sv[i as int], None)));
                }
                i = i + 1;
            }
            proof {
                assert(sv.take(schemas.len() as int) =~= sv);
            }
        } else {
            let mut t: usize = 0;
            proof {
                assert(values_view(out@) =~= cross_subscriptions(sv, tv.take(0)));
            }
            while t < tables.len()
                invariant
                    0 <= t <= tables.len(),
                    sv == names_view(schemas@),
                    tv == names_view(tables@),
                    values_view(out@) == cross_subscriptions(sv, tv.take(t as int)),
                decreases tables.len() - t,
            {
                let ghost base = values_view(out@);
                let mut i: usize = 0;
                while i < schemas.len()
                    invariant
                        0 <= i <= schemas.len(),
                        t < tables.len(),
                        sv == names_view(schemas@),
                        tv == names_view(tables@),
                        values_view(out@) == base + sv.take(i as int).map_values(|s: Seq<char>| subscription(s, Some(tv[t as int]))),
                    decreases schemas.len() - i,
                {
                    let ghost prev = out@;
                    out.push(subscription_value(&schemas[i], Some(&tables[t])));
                    proof {
                        assert(values_view(out@) =~= values_view(prev).push(subscription(sv[i as int], Some(tv[t as int]))));
                        assert(sv.take(i + 1).map_values(|s: Seq<char>| subscription(s, Some(tv[t as int])))
                            =~= sv.take(i as int).map_values(|s: Seq<char>| subscription(s, Some(tv[t as int])))
                                .push(subscription(sv[i as int], Some(tv[t as int]))));
                    }
                    i = i + 1;
                }
                proof {
                    assert(sv.take(schemas.len() as int) =~= sv);
                    assert(tv.take(t + 1).drop_last() =~= tv.take(t as int));
                }
                t = t + 1;
            }
            proof {
                assert(tv.take(tables.len() as int) =~= tv);
            }
        }
        out
    }

    /// The message that joins the change channel with this client's subscriptions.
    pub fn join_message(&self) -> (r: Json)
        ensures
            r@ == join(subscriptions(names_view(self.config_of().schemas@), names_view(self.config_of().tables@))),
    {
        let subs = self.build_postgres_changes_config();
        let ghost sv = values_view(subs@);
        let list = Json::Array(subs);
        proof {
            assert(list@->Array_0 =~= sv);
        }
        let mut inner: Vec<(String, Json)> = Vec::new();
        inner.push((String::from_str("postgres_changes"), list));
        proof {
            assert(members_view(inner@) =~= seq![("postgres_changes"@, JsonV::Array(sv))]);
        }
        let config = object(inner);
        let mut outer: Vec<(String, Json)> = Vec::new();
        outer.push((String::from_str("config"), config));
        proof {
            assert(members_view(outer@) =~= seq![("config"@, JsonV::Object(seq![("postgres_changes"@, JsonV::Array(sv))]))]);
        }
        let payload = object(outer);
        envelope_value("realtime:*", "phx_join", payload, Some("1"))
    }

    /// The change event carried by a channel message, if any, with a fresh
    /// identifier; a change without a commit time is stamped with the current time.
    pub fn parse_realtime_message(&self, msg: &Json) -> (r: Option<TableChange>)
        ensures
            match (r, decode(msg@)) {
                (Some(e), Some(c)) => {
                    &&& e.id@.len() == 36
                    &&& e.schema@ == c.schema
                    &&& e.table@ == c.table
                    &&& e.change_type == c.change_type
                    &&& opt_json(e.primary_key) == c.primary_key
                    &&& opt_json(e.before) == c.before
                    &&& opt_json(e.after) == c.after
                    &&& (c.commit_timestamp matches Some(t) ==> e.timestamp@ == t)
                    &&& (c.commit_timestamp is None ==> utc_stamp(e.timestamp@))
                    &&& e.source@ == "supabase"@
                },
                (None, None) => true,
                _ => false,
            },
    {
        match decode_message(msg) {
            Some(c) => {
                let id = new_event_id();
                let now = now_rfc3339();
                Some(feed_event(c, id, now))
            },
            None => None,
        }
    }
}

} // verus!
