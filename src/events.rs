//! Change events: identity and time stamps, and the events of a poll.
use vstd::prelude::*;
use crate::diff::{changes_view, RowChange, RowChangeV};
use crate::json::{Json, JsonV};
use crate::schema::{opt_json, ChangeType, TableChange};
use vstd::string::StringExecFns;

verus! {

/// Relies on `uuid::Uuid::new_v4` and its `Display`: a random identifier in the
/// hyphenated lower-case form, 36 characters long.
#[verifier::external_body]
pub(crate) fn new_event_id() -> (r: String)
    ensures
        r@.len() == 36,
{
    uuid::Uuid::new_v4().to_string()
}

/// The outline every UTC time stamp in RFC 3339 form has: at least a four-digit
/// year, date, `T`, time (25 characters), ending in the offset `+00:00`.
pub open spec fn utc_stamp(s: Seq<char>) -> bool {
    s.len() >= 25 && s.subrange(s.len() - 6, s.len() as int) == "+00:00"@
}

/// Relies on `chrono::Utc::now` and `DateTime::to_rfc3339`: the current time as an
/// RFC 3339 string; for UTC the offset is written `+00:00`.
#[verifier::external_body]
pub(crate) fn now_rfc3339() -> (r: String)
    ensures
        utc_stamp(r@),
{
    chrono::Utc::now().to_rfc3339()
}

/// The `primaryKey` value of a polled event: `{"pk": <fingerprint>}`.
pub open spec fn pk_object(pk: Seq<char>) -> JsonV {
    JsonV::Object(seq![("pk"@, JsonV::Str(pk))])
}

/// `{"pk": pk}`.
pub fn pk_value(pk: &String) -> (r: Json)
    ensures
        r@ == pk_object(pk@),
{
    let mut members: Vec<(String, Json)> = Vec::new();
    let v = Json::Str(pk.clone());
    assert(v@ == JsonV::Str(pk@));
    members.push((String::from_str("pk"), v));
    let r = Json::Object(members);
    proof {
        assert(r@->Object_0[0] == ("pk"@, JsonV::Str(pk@)));
        assert(r@->Object_0 =~= seq![("pk"@, JsonV::Str(pk@))]);
    }
    r
}

/// The event published for `change` of `schema.table`, with the given identity and time.
pub fn polling_event(schema: &String, table: &String, change: RowChange, id: String, timestamp: String) -> (r: TableChange)
    ensures
        r.id == id,
        r.timestamp == timestamp,
        r.schema@ == schema@,
        r.table@ == table@,
        r.change_type == change.kind,
        opt_json(r.primary_key) == Some(pk_object(change.pk@)),
        opt_json(r.before) == opt_json(change.before),
        opt_json(r.after) == opt_json(change.after),
        r.source@ == "polling"@,
{
    let key = pk_value(&change.pk);
    TableChange {
        id,
        schema: schema.clone(),
        table: table.clone(),
        change_type: change.kind,
        primary_key: Some(key),
        before: change.before,
        after: change.after,
        timestamp,
        source: String::from_str("polling"),
    }
}

/// The events published for the changes of one poll of `schema.table`, in the
/// same order, each with a fresh identifier and the current time.
pub fn polling_events(schema: &String, table: &String, changes: Vec<RowChange>) -> (r: Vec<TableChange>)
    ensures
        r@.len() == changes@.len(),
        forall|i: int| 0 <= i < r@.len() ==> {
            let e = #[trigger] r@[i];
            let c = changes@[i];
            &&& e.id@.len() == 36
            &&& utc_stamp(e.timestamp@)
            &&& e.schema@ == schema@
            &&& e.table@ == table@
            &&& e.change_type == c.kind
            &&& opt_json(e.primary_key) == Some(pk_object(c.pk@))
            &&& opt_json(e.before) == opt_json(c.before)
            &&& opt_json(e.after) == opt_json(c.after)
            &&& e.source@ == "polling"@
        },
{
    let ghost all = changes@;
    let n = changes.len();
    let mut pending = changes;
    let mut reversed: Vec<RowChange> = Vec::new();
    while pending.len() > 0
        invariant
            pending@.len() + reversed@.len() == n,
            n == all.len(),
            pending@ == all.take(pending@.len() as int),
            forall|j: int| 0 <= j < reversed@.len() ==> reversed@[j] == all[n - 1 - j],
        decreases pending@.len(),
    {
        let c = pending.pop().unwrap();
        reversed.push(c);
        proof {
            assert(pending@ =~= all.take(pending@.len() as int));
        }
    }
    let mut out: Vec<TableChange> = Vec::new();
    while reversed.len() > 0
        invariant
            out@.len() + reversed@.len() == n,
            n == all.len(),
            forall|j: int| 0 <= j < reversed@.len() ==> reversed@[j] == all[n - 1 - j],
            forall|i: int| 0 <= i < out@.len() ==> {
                let e = #[trigger] out@[i];
                let c = all[i];
                &&& e.id@.len() == 36
                &&& utc_stamp(e.timestamp@)
                &&& e.schema@ == schema@
                &&& e.table@ == table@
                &&& e.change_type == c.kind
                &&& opt_json(e.primary_key) == Some(pk_object(c.pk@))
                &&& opt_json(e.before) == opt_json(c.before)
                &&& opt_json(e.after) == opt_json(c.after)
                &&& e.source@ == "polling"@
            },
        decreases reversed@.len(),
    {
        let c = reversed.pop().unwrap();
        let id = new_event_id();
        let timestamp = now_rfc3339();
        let e = polling_event(schema, table, c, id, timestamp);
        out.push(e);
    }
    out
}

} // verus!
