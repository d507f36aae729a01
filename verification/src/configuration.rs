//! How a worker keeps its settings in the configuration worker: the entry it
//! registers, the trigger that reports changes, and how the stored value is
//! read back.

use vstd::prelude::*;
use crate::json::{is_json, json_get, Json, JsonValue};
use crate::otlp_json::{items_match, object, push_item, push_member, single, string_value};
use crate::text::{push_str, str_eq};

verus! {

/// A worker's entry in the configuration worker.
#[derive(Debug, Clone, Copy)]
pub struct ConfigEntry {
    /// Id of the stored value.
    pub id: &'static str,
    /// Display name.
    pub name: &'static str,
    pub description: &'static str,
    /// Function that applies a changed value.
    pub handler_fn_id: &'static str,
    /// Trigger that reports changes to the handler.
    pub trigger_id: &'static str,
}

/// The queue worker's entry.
pub fn queue_config_entry() -> (e: ConfigEntry)
    ensures
        e.id@ == "iii-queue"@,
        e.name@ == "Queue"@,
        e.description@ == "Queue worker settings — the backing adapter/transport and per-queue config (retries, concurrency, FIFO ordering, backoff)."@,
        e.handler_fn_id@ == "iii-queue::on-config-change"@,
        e.trigger_id@ == "iii-queue::config-watch"@,
{
    ConfigEntry {
        id: "iii-queue",
        name: "Queue",
        description: "Queue worker settings — the backing adapter/transport and per-queue config (retries, concurrency, FIFO ordering, backoff).",
        handler_fn_id: "iii-queue::on-config-change",
        trigger_id: "iii-queue::config-watch",
    }
}

/// The stream worker's entry.
pub fn stream_config_entry() -> (e: ConfigEntry)
    ensures
        e.id@ == "iii-stream"@,
        e.name@ == "Stream"@,
        e.description@ == "WebSocket stream server settings — host/port binding, connection auth function, and the pub/sub adapter backend."@,
        e.handler_fn_id@ == "iii-stream::on-config-change"@,
        e.trigger_id@ == "iii-stream::config-watch"@,
{
    ConfigEntry {
        id: "iii-stream",
        name: "Stream",
        description: "WebSocket stream server settings — host/port binding, connection auth function, and the pub/sub adapter backend.",
        handler_fn_id: "iii-stream::on-config-change",
        trigger_id: "iii-stream::config-watch",
    }
}

/// `r` is the registration request of `e`: an object with `id`, `name`,
/// `description` and `schema` (the given schema, unchanged), then
/// `initial_value` when one is given.
pub open spec fn is_register_payload(
    r: JsonValue,
    e: ConfigEntry,
    schema: JsonValue,
    initial_value: Option<JsonValue>,
) -> bool {
    &&& r matches JsonValue::Object(ms)
    &&& ms@.len() == if initial_value is Some { 5int } else { 4int }
    &&& ms@[0].0@ == "id"@
    &&& (ms@[0].1 matches JsonValue::String(s) && s@ == e.id@)
    &&& ms@[1].0@ == "name"@
    &&& (ms@[1].1 matches JsonValue::String(s) && s@ == e.name@)
    &&& ms@[2].0@ == "description"@
    &&& (ms@[2].1 matches JsonValue::String(s) && s@ == e.description@)
    &&& ms@[3].0@ == "schema"@ && ms@[3].1 == schema
    &&& (initial_value matches Some(v) ==> ms@[4].0@ == "initial_value"@ && ms@[4].1 == v)
}

fn text_member(key: &str, value: &str) -> (m: (String, JsonValue))
    ensures
        m.0@ == key@,
        m.1 matches JsonValue::String(s) && s@ == value@,
{
    (key.to_owned(), JsonValue::String(value.to_owned()))
}

/// Builds the registration request of `e`; the initial value is given when
/// nothing is stored yet.
pub fn register_payload(e: ConfigEntry, schema: JsonValue, initial_value: Option<JsonValue>) -> (r:
    JsonValue)
    ensures
        is_register_payload(r, e, schema, initial_value),
{
    let mut ms: Vec<(String, JsonValue)> = Vec::new();
    ms.push(text_member("id", e.id));
    ms.push(text_member("name", e.name));
    ms.push(text_member("description", e.description));
    ms.push(("schema".to_owned(), schema));
    match initial_value {
        Some(v) => {
            ms.push(("initial_value".to_owned(), v));
        },
        None => {},
    }
    JsonValue::Object(ms)
}

/// The trigger through which the configuration worker reports changes of
/// `e`'s value to its handler.
pub struct ConfigTrigger {
    pub id: String,
    pub trigger_type: String,
    pub function_id: String,
    pub config: JsonValue,
}

/// Configuration of the change trigger: the watched id and the event type.
pub open spec fn config_trigger_json(e: ConfigEntry) -> Json {
    Json::Object(
        seq![
            ("configuration_id"@, Json::Str(e.id@)),
            ("event_types"@, Json::Array(seq![Json::Str("configuration:updated"@)])),
        ],
    )
}

pub fn config_trigger(e: ConfigEntry) -> (t: ConfigTrigger)
    ensures
        t.id@ == e.trigger_id@,
        t.trigger_type@ == "configuration"@,
        t.function_id@ == e.handler_fn_id@,
        is_json(t.config, config_trigger_json(e)),
{
    let mut events: Vec<JsonValue> = Vec::new();
    push_item(
        &mut events,
        Ghost(Seq::empty()),
        string_value("configuration:updated".to_owned()),
        Ghost(Json::Str("configuration:updated"@)),
    );
    let ghost ev = seq![Json::Str("configuration:updated"@)];
    proof {
        assert(Seq::<Json>::empty().push(Json::Str("configuration:updated"@)) =~= ev);
    }
    let ghost m0 = Seq::<(Seq<char>, Json)>::empty();
    let ghost m1 = m0.push(("configuration_id"@, Json::Str(e.id@)));
    let ghost m2 = m1.push(("event_types"@, Json::Array(ev)));
    let mut ms: Vec<(String, JsonValue)> = Vec::new();
    push_member(&mut ms, Ghost(m0), "configuration_id", string_value(e.id.to_owned()), Ghost(Json::Str(e.id@)));
    push_member(&mut ms, Ghost(m1), "event_types", JsonValue::Array(events), Ghost(Json::Array(ev)));
    proof {
        assert(m2 =~= seq![
            ("configuration_id"@, Json::Str(e.id@)),
            ("event_types"@, Json::Array(ev)),
        ]);
    }
    ConfigTrigger {
        id: e.trigger_id.to_owned(),
        trigger_type: "configuration".to_owned(),
        function_id: e.handler_fn_id.to_owned(),
        config: object(ms, Ghost(m2)),
    }
}

/// The request for the stored value of `e`: `{"id": ..}`.
pub fn get_request(e: ConfigEntry) -> (r: JsonValue)
    ensures
        is_json(r, single("id"@, Json::Str(e.id@))),
{
    crate::otlp_json::single_object("id", string_value(e.id.to_owned()), Ghost(Json::Str(e.id@)))
}

/// The stored value in a response: its `value` member, unless that is
/// missing or `null`.
pub open spec fn stored_value_of(response: Option<JsonValue>) -> Option<JsonValue> {
    match response {
        Some(body) => match json_get(body, "value"@) {
            Some(v) => if v is Null {
                None
            } else {
                Some(v)
            },
            None => None,
        },
        None => None,
    }
}

/// What reading the stored value gave.
pub enum StoredValue {
    /// Nothing is stored: the caller keeps its static configuration.
    Absent,
    /// The stored value.
    Present(JsonValue),
    /// The configuration worker failed; the message says how.
    Failed(String),
}

/// Reads the answer to a `configuration::get` call: a response's `value`
/// (absent when missing or `null`); a `NOT_FOUND` error means nothing is
/// stored; any other error fails with `configuration::get failed:
/// {message} ({code})`.
pub fn read_stored_value(answer: Result<Option<JsonValue>, (String, String)>) -> (r: StoredValue)
    ensures
        match answer {
            Ok(response) => match stored_value_of(response) {
                Some(v) => r matches StoredValue::Present(x) && x == v,
                None => r is Absent,
            },
            Err((code, message)) => if code@ == "NOT_FOUND"@ {
                r is Absent
            } else {
                r matches StoredValue::Failed(m) && m@ == "configuration::get failed: "@
                    + message@ + " ("@ + code@ + ")"@
            },
        },
{
    match answer {
        Ok(response) => {
            let ghost expected = stored_value_of(response);
            match response {
            Some(body) => match body {
                JsonValue::Object(members) => {
                    let ghost orig = members@;
                    proof {
                        assert(expected == match crate::json::member_value(orig, "value"@) {
                            Some(v) => if v is Null {
                                None
                            } else {
                                Some(v)
                            },
                            None => None,
                        });
                    }
                    let mut members = members;
                    let mut i: usize = 0;
                    proof {
                        assert(orig.skip(0) =~= orig);
                    }
                    while i < members.len()
                        invariant
                            members@ == orig,
                            answer matches Ok(resp) && expected == stored_value_of(resp),
                            expected == match crate::json::member_value(orig, "value"@) {
                                Some(v) => if v is Null {
                                    None
                                } else {
                                    Some(v)
                                },
                                None => None,
                            },
                            i <= orig.len(),
                            forall|j: int| 0 <= j < i ==> (#[trigger] orig[j]).0@ != "value"@,
                            crate::json::member_value(orig, "value"@) == crate::json::member_value(
                                orig.skip(i as int),
                                "value"@,
                            ),
                        decreases orig.len() - i,
                    {
                        proof {
                            assert(orig.skip(i as int)[0] == orig[i as int]);
                            assert(orig.skip(i as int).drop_first() =~= orig.skip(i + 1));
                        }
                        if str_eq(members[i].0.as_str(), "value") {
                            let (_, v) = members.remove(i);
                            proof {
                                assert(v == orig[i as int].1);
                                assert(orig.skip(i as int)[0].0@ == "value"@);
                                assert(crate::json::member_value(orig.skip(i as int), "value"@)
                                    == Some(orig[i as int].1));
                            }
                            return match v {
                                JsonValue::Null => StoredValue::Absent,
                                other => StoredValue::Present(other),
                            };
                        }
                        i = i + 1;
                    }
                    proof {
                        assert(orig.skip(i as int).len() == 0);
                    }
                    StoredValue::Absent
                },
                _ => StoredValue::Absent,
            },
            None => StoredValue::Absent,
            }
        },
        Err((code, message)) => {
            if str_eq(code.as_str(), "NOT_FOUND") {
                StoredValue::Absent
            } else {
                let mut m = String::new();
                push_str(&mut m, "configuration::get failed: ");
                push_str(&mut m, message.as_str());
                push_str(&mut m, " (");
                push_str(&mut m, code.as_str());
                push_str(&mut m, ")");
                proof {
                    assert(Seq::<char>::empty() + "configuration::get failed: "@
                        =~= "configuration::get failed: "@);
                }
                StoredValue::Failed(m)
            }
        },
    }
}

/// The error of a stored value that is not a valid configuration.
pub fn invalid_stored_value_message(e: ConfigEntry, reason: &str) -> (m: String)
    ensures
        m@ == "stored `"@ + e.id@ + "` configuration is invalid: "@ + reason@,
{
    let mut m = String::new();
    push_str(&mut m, "stored `");
    push_str(&mut m, e.id);
    push_str(&mut m, "` configuration is invalid: ");
    push_str(&mut m, reason);
    proof {
        assert(Seq::<char>::empty() + "stored `"@ =~= "stored `"@);
    }
    m
}

/// The initial value a registration carries: the worker's seed (as JSON)
/// exactly when nothing is stored, so that a stored value is never
/// overwritten; nothing otherwise.
pub fn register_initial_value(stored: &StoredValue, seed_json: JsonValue) -> (r: Option<JsonValue>)
    ensures
        r is Some <==> stored is Absent,
        r matches Some(v) ==> v == seed_json,
{
    match stored {
        StoredValue::Absent => Some(seed_json),
        _ => None,
    }
}

/// The registration request of `e` after reading what is stored: a failed
/// read fails the registration with its message; otherwise the request
/// carries the seed as initial value exactly when nothing is stored.
pub fn register_request(e: ConfigEntry, stored: &StoredValue, schema: JsonValue, seed_json: JsonValue) -> (r:
    Result<JsonValue, String>)
    ensures
        stored matches StoredValue::Failed(m) ==> (r matches Err(x) && x == m),
        !(stored is Failed) ==> (r matches Ok(p) && is_register_payload(
            p,
            e,
            schema,
            if stored is Absent {
                Some(seed_json)
            } else {
                None
            },
        )),
{
    match stored {
        StoredValue::Failed(m) => Err(m.clone()),
        _ => {
            let initial = register_initial_value(stored, seed_json);
            Ok(register_payload(e, schema, initial))
        },
    }
}

/// The error of a refused registration.
pub fn register_failure_message(message: &str, code: &str) -> (m: String)
    ensures
        m@ == "configuration::register failed: "@ + message@ + " ("@ + code@ + ")"@,
{
    let mut m = String::new();
    push_str(&mut m, "configuration::register failed: ");
    push_str(&mut m, message);
    push_str(&mut m, " (");
    push_str(&mut m, code);
    push_str(&mut m, ")");
    proof {
        assert(Seq::<char>::empty() + "configuration::register failed: "@
            =~= "configuration::register failed: "@);
    }
    m
}

/// How long a call to the configuration worker may take, in milliseconds.
pub const CONFIG_BUS_TIMEOUT_MS: u64 = 10000;

/// How long after a timed-out application the one retry runs, in
/// milliseconds.
pub const APPLY_RETRY_DELAY_MS: u64 = 5000;

/// How applying a changed configuration ended.
#[derive(Debug, Clone, Copy, PartialEq, Eq, Structural)]
pub enum ApplyResult {
    Applied,
    /// A call to the configuration worker, or an adapter build, timed out.
    TimedOut,
    /// Any other failure; the previous configuration stays.
    Failed,
}

/// What follows an application.
#[derive(Debug, Clone, Copy, PartialEq, Eq, Structural)]
pub enum ChangeFollowUp {
    Done,
    /// Apply once more after `APPLY_RETRY_DELAY_MS`.
    RetryLater,
}

/// A timed-out first application is retried; a retry, a success and any
/// other failure end the change.
pub open spec fn follow_up(is_retry: bool, result: ApplyResult) -> ChangeFollowUp {
    if result == ApplyResult::TimedOut && !is_retry {
        ChangeFollowUp::RetryLater
    } else {
        ChangeFollowUp::Done
    }
}

/// What follows an application of a changed configuration (`is_retry`
/// for the retry itself).
pub fn on_apply_result(is_retry: bool, result: ApplyResult) -> (r: ChangeFollowUp)
    ensures
        r == follow_up(is_retry, result),
{
    match result {
        ApplyResult::TimedOut => if is_retry {
            ChangeFollowUp::Done
        } else {
            ChangeFollowUp::RetryLater
        },
        _ => ChangeFollowUp::Done,
    }
}

/// A change is retried only after a timeout, and at most once: whatever
/// the retry gives, nothing follows it.
pub proof fn law_retry_once_only_on_timeout(first: ApplyResult, retry: ApplyResult)
    ensures
        follow_up(false, first) == ChangeFollowUp::RetryLater <==> first == ApplyResult::TimedOut,
        follow_up(true, retry) == ChangeFollowUp::Done,
{
}

} // verus!
