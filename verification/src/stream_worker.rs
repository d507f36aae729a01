//! The stream worker's decisions: what a write operation answers and which
//! event it emits, which triggers an event fans out to and the status of
//! the fan-out, how the boot sequence reconciles the served configuration,
//! and the all-or-nothing application of a configuration change.

use vstd::prelude::*;
use crate::adapter::{adapter_copy, clone_adapter, same_effective_adapter};
use crate::json::{json_clone, json_eq, JsonValue};
use crate::stream_config::{
    bind_fallback, boot_adapter_outdated, default_adapter_name, same_address, seed_fallback,
    stream_apply_plan, stream_trigger_matches, trigger_fires, BindFallback, StreamApplyPlan,
    StreamModuleConfig,
};
use crate::text::push_str;

verus! {

// ---------------------------------------------------------------------------
// Write operations
// ---------------------------------------------------------------------------

/// A write on a stream item.
#[derive(Debug, Clone, Copy, PartialEq, Eq, Structural)]
pub enum StreamWriteOp {
    SetValue,
    Update,
    Delete,
}

/// What a set or an update stored: the value it replaced, if any, and the
/// value now stored.
#[derive(Debug)]
pub struct StreamSetResult {
    pub old_value: Option<JsonValue>,
    pub new_value: JsonValue,
}

/// What a delete removed, if anything.
#[derive(Debug)]
pub struct StreamDeleteResult {
    pub old_value: Option<JsonValue>,
}

/// The result of a write: `Stored` for a set or an update, `Deleted` for a
/// delete.
#[derive(Debug)]
pub enum StreamWriteResult {
    Stored(StreamSetResult),
    Deleted(StreamDeleteResult),
}

/// The kind of change an event reports; `Event` is a custom event sent to
/// the subscribers.
#[derive(Debug, Clone, Copy, PartialEq, Eq, Structural)]
pub enum StreamEventKind {
    Create,
    Update,
    Delete,
    Event,
}

/// What an event carries: its kind and the value it concerns (the new
/// value of a creation or update, the removed value of a deletion, the
/// data of a custom event), and for a custom event its type.
#[derive(Debug)]
pub struct StreamEvent {
    pub kind: StreamEventKind,
    pub data: JsonValue,
    pub event_type: Option<String>,
}

/// The message a write emits to triggers and subscribers.
#[derive(Debug)]
pub struct StreamEventMessage {
    pub event_type: String,
    pub timestamp: i64,
    pub stream_name: String,
    pub group_id: String,
    pub id: Option<String>,
    pub event: StreamEvent,
}

/// The error answered to a failed function call.
#[derive(Debug)]
pub struct ErrorBody {
    pub message: String,
    pub code: String,
    pub stacktrace: Option<String>,
}

/// What a write answers: the stored result and the event to emit, if any,
/// or the error.
#[derive(Debug)]
pub enum StreamOpOutcome {
    Success { result: StreamWriteResult, event: Option<StreamEventMessage> },
    Failure(ErrorBody),
}

/// A write result fits its operation: a delete answers `Deleted`, a set or
/// an update `Stored`.
pub open spec fn result_fits(op: StreamWriteOp, res: StreamWriteResult) -> bool {
    (op == StreamWriteOp::Delete) == (res is Deleted)
}

pub open spec fn write_error_code(op: StreamWriteOp) -> Seq<char> {
    match op {
        StreamWriteOp::SetValue => "STREAM_SET_ERROR"@,
        StreamWriteOp::Update => "STREAM_UPDATE_ERROR"@,
        StreamWriteOp::Delete => "STREAM_DELETE_ERROR"@,
    }
}

pub open spec fn write_error_prefix(op: StreamWriteOp) -> Seq<char> {
    match op {
        StreamWriteOp::SetValue => "Failed to set value: "@,
        StreamWriteOp::Update => "Failed to update value: "@,
        StreamWriteOp::Delete => "Failed to delete value: "@,
    }
}

/// The change a write reports: an update when a set or update replaced a
/// value and a creation otherwise, both with the new value; a deletion with
/// the removed value, and nothing when a delete removed nothing.
pub open spec fn reported_change(res: StreamWriteResult) -> Option<(StreamEventKind, JsonValue)> {
    match res {
        StreamWriteResult::Stored(r) => Some(
            (
                if r.old_value is Some {
                    StreamEventKind::Update
                } else {
                    StreamEventKind::Create
                },
                r.new_value,
            ),
        ),
        StreamWriteResult::Deleted(r) => match r.old_value {
            Some(v) => Some((StreamEventKind::Delete, v)),
            None => None,
        },
    }
}

/// `m` is the stream event for item `item_id` of group `group_id` in
/// stream `stream_name` at `timestamp_ms`, reporting `kind` with `data`.
pub open spec fn is_stream_event(
    m: StreamEventMessage,
    kind: StreamEventKind,
    data: JsonValue,
    stream_name: Seq<char>,
    group_id: Seq<char>,
    item_id: Seq<char>,
    timestamp_ms: i64,
) -> bool {
    &&& m.event_type@ == "stream"@
    &&& m.timestamp == timestamp_ms
    &&& m.stream_name@ == stream_name
    &&& m.group_id@ == group_id
    &&& (m.id matches Some(i) && i@ == item_id)
    &&& m.event.kind == kind
    &&& json_eq(m.event.data, data)
    &&& m.event.event_type is None
}

/// The answer to a write whose result is `r`: a failure with the
/// operation's error code and message for an error; otherwise the result
/// itself, with the event reporting its change when it made one.
pub open spec fn write_outcome(
    o: StreamOpOutcome,
    op: StreamWriteOp,
    r: Result<StreamWriteResult, String>,
    stream_name: Seq<char>,
    group_id: Seq<char>,
    item_id: Seq<char>,
    timestamp_ms: i64,
) -> bool {
    match r {
        Err(e) => {
            &&& o matches StreamOpOutcome::Failure(b)
            &&& o->Failure_0.code@ == write_error_code(op)
            &&& o->Failure_0.message@ == write_error_prefix(op) + e@
            &&& o->Failure_0.stacktrace is None
        },
        Ok(res) => {
            &&& o matches StreamOpOutcome::Success { result, event }
            &&& o->result == res
            &&& match reported_change(res) {
                None => o->event is None,
                Some((kind, data)) => (o->event matches Some(m) && is_stream_event(
                    m,
                    kind,
                    data,
                    stream_name,
                    group_id,
                    item_id,
                    timestamp_ms,
                )),
            }
        },
    }
}

fn event_message(
    kind: StreamEventKind,
    data: JsonValue,
    stream_name: &str,
    group_id: &str,
    item_id: &str,
    timestamp_ms: i64,
) -> (m: StreamEventMessage)
    ensures
        m.event_type@ == "stream"@,
        m.timestamp == timestamp_ms,
        m.stream_name@ == stream_name@,
        m.group_id@ == group_id@,
        m.id matches Some(i) && i@ == item_id@,
        m.event.kind == kind,
        m.event.data == data,
        m.event.event_type is None,
{
    StreamEventMessage {
        event_type: "stream".to_owned(),
        timestamp: timestamp_ms,
        stream_name: stream_name.to_owned(),
        group_id: group_id.to_owned(),
        id: Some(item_id.to_owned()),
        event: StreamEvent { kind, data, event_type: None },
    }
}

fn write_failure(op: StreamWriteOp, e: &str) -> (b: ErrorBody)
    ensures
        b.code@ == write_error_code(op),
        b.message@ == write_error_prefix(op) + e@,
        b.stacktrace is None,
{
    let (prefix, code) = match op {
        StreamWriteOp::SetValue => ("Failed to set value: ", "STREAM_SET_ERROR"),
        StreamWriteOp::Update => ("Failed to update value: ", "STREAM_UPDATE_ERROR"),
        StreamWriteOp::Delete => ("Failed to delete value: ", "STREAM_DELETE_ERROR"),
    };
    let mut message = prefix.to_owned();
    push_str(&mut message, e);
    ErrorBody { message, code: code.to_owned(), stacktrace: None }
}

/// The answer to a set, update or delete of item `item_id` in group
/// `group_id` of stream `stream_name`, given what the write returned (its
/// error as text) and the time of the write. A successful write answers
/// its result and emits one event for the change it made: an update or a
/// creation with the new value for a set or update, a deletion with the
/// removed value for a delete that removed one, and none otherwise. A
/// failed write answers `STREAM_SET_ERROR`, `STREAM_UPDATE_ERROR` or
/// `STREAM_DELETE_ERROR` with the error in the message, and emits nothing.
pub fn stream_op_outcome(
    op: StreamWriteOp,
    r: Result<StreamWriteResult, String>,
    stream_name: &str,
    group_id: &str,
    item_id: &str,
    timestamp_ms: i64,
) -> (o: StreamOpOutcome)
    requires
        r matches Ok(res) ==> result_fits(op, res),
    ensures
        write_outcome(o, op, r, stream_name@, group_id@, item_id@, timestamp_ms),
{
    match r {
        Err(e) => StreamOpOutcome::Failure(write_failure(op, e.as_str())),
        Ok(res) => {
            let event = match &res {
                StreamWriteResult::Stored(s) => {
                    let kind = if s.old_value.is_some() {
                        StreamEventKind::Update
                    } else {
                        StreamEventKind::Create
                    };
                    let data = json_clone(&s.new_value);
                    Some(event_message(kind, data, stream_name, group_id, item_id, timestamp_ms))
                },
                StreamWriteResult::Deleted(d) => match &d.old_value {
                    Some(old) => {
                        let data = json_clone(old);
                        Some(
                            event_message(
                                StreamEventKind::Delete,
                                data,
                                stream_name,
                                group_id,
                                item_id,
                                timestamp_ms,
                            ),
                        )
                    },
                    None => None,
                },
            };
            StreamOpOutcome::Success { result: res, event }
        },
    }
}

/// What a successful write announces depends on what it did, not on which
/// write it was: a set or update that replaced a value emits an `Update`,
/// one that stored a new item a `Create`, each with the value now stored; a
/// delete that removed a value emits a `Delete` with that value, and one
/// that removed nothing emits no event. A failed write emits nothing.
pub proof fn law_write_event_follows_result(
    o: StreamOpOutcome,
    op: StreamWriteOp,
    r: Result<StreamWriteResult, String>,
    stream_name: Seq<char>,
    group_id: Seq<char>,
    item_id: Seq<char>,
    timestamp_ms: i64,
)
    requires
        write_outcome(o, op, r, stream_name, group_id, item_id, timestamp_ms),
    ensures
        r is Err ==> o is Failure,
        r matches Ok(StreamWriteResult::Stored(sr)) ==> (o matches StreamOpOutcome::Success {
            event: Some(m),
            ..
        } && (m.event.kind == StreamEventKind::Update <==> sr.old_value is Some) && (m.event.kind
            == StreamEventKind::Create <==> sr.old_value is None) && json_eq(
            m.event.data,
            sr.new_value,
        ) && (m.id matches Some(id) && id@ == item_id)),
        r matches Ok(StreamWriteResult::Deleted(dr)) ==> (o matches StreamOpOutcome::Success {
            event,
            ..
        } && (event is Some <==> dr.old_value is Some) && (event matches Some(m) ==> (m.event.kind
            == StreamEventKind::Delete && json_eq(m.event.data, dr.old_value->0)))),
{
}

/// An error answer: `prefix` followed by the error text, under `code`.
fn error_body(prefix: &str, e: &str, code: &str) -> (b: ErrorBody)
    ensures
        b.message@ == prefix@ + e@,
        b.code@ == code@,
        b.stacktrace is None,
{
    let mut message = prefix.to_owned();
    push_str(&mut message, e);
    ErrorBody { message, code: code.to_owned(), stacktrace: None }
}

/// The answer when a write's input cannot be handed to a custom stream
/// function as JSON (`e` says why).
pub fn input_conversion_failure(e: &str) -> (b: ErrorBody)
    ensures
        b.code@ == "JSON_ERROR"@,
        b.message@ == "Failed to convert input to value: "@ + e@,
        b.stacktrace is None,
{
    error_body("Failed to convert input to value: ", e, "JSON_ERROR")
}

/// What a custom stream function's answer to a write means: its result
/// parsed as the write result (`Err` holds the parse error), no result, or
/// the call's error (as text). A result that does not parse is answered at
/// once with `JSON_ERROR` (`Err`); otherwise the write result, or the error
/// that fails the write (`Ok(Err(..))`), goes on to `stream_op_outcome`.
pub fn custom_write_result(answer: Result<Option<Result<StreamWriteResult, String>>, String>) -> (r:
    Result<Result<StreamWriteResult, String>, ErrorBody>)
    ensures
        answer matches Ok(Some(Ok(res))) ==> (r matches Ok(Ok(x)) && x == res),
        answer matches Ok(Some(Err(e))) ==> (r matches Err(b) && b.code@ == "JSON_ERROR"@
            && b.message@ == "Failed to convert result to value: "@ + e@ && b.stacktrace is None),
        answer matches Ok(None) ==> (r matches Ok(Err(m)) && m@ == "Function returned no result"@),
        answer matches Err(d) ==> (r matches Ok(Err(m)) && m@ == "Failed to invoke function: "@
            + d@),
{
    match answer {
        Ok(Some(Ok(res))) => Ok(Ok(res)),
        Ok(Some(Err(e))) => Err(
            error_body("Failed to convert result to value: ", e.as_str(), "JSON_ERROR"),
        ),
        Ok(None) => Ok(Err("Function returned no result".to_owned())),
        Err(d) => {
            let mut m = "Failed to invoke function: ".to_owned();
            push_str(&mut m, d.as_str());
            Ok(Err(m))
        },
    }
}

// ---------------------------------------------------------------------------
// Reads and custom events
// ---------------------------------------------------------------------------

/// A read served by the stream's adapter.
#[derive(Debug, Clone, Copy, PartialEq, Eq, Structural)]
pub enum StreamReadOp {
    Get,
    List,
    ListGroups,
}

pub open spec fn read_error_code(op: StreamReadOp) -> Seq<char> {
    match op {
        StreamReadOp::Get => "STREAM_GET_ERROR"@,
        StreamReadOp::List => "STREAM_GET_GROUP_ERROR"@,
        StreamReadOp::ListGroups => "STREAM_LIST_GROUPS_ERROR"@,
    }
}

pub open spec fn read_error_prefix(op: StreamReadOp) -> Seq<char> {
    match op {
        StreamReadOp::Get => "Failed to get value: "@,
        StreamReadOp::List => "Failed to get group: "@,
        StreamReadOp::ListGroups => "Failed to list groups: "@,
    }
}

/// The answer to a read from the adapter, given what it returned (the
/// value, the group's items or the group names as JSON, or its error as
/// text): the value itself, or the read's error code with the error in the
/// message.
pub fn stream_read_outcome(op: StreamReadOp, r: Result<Option<JsonValue>, String>) -> (o: Result<
    Option<JsonValue>,
    ErrorBody,
>)
    ensures
        r matches Ok(v) ==> (o matches Ok(x) && x == v),
        r matches Err(e) ==> (o matches Err(b) && b.code@ == read_error_code(op) && b.message@
            == read_error_prefix(op) + e@ && b.stacktrace is None),
{
    match r {
        Ok(v) => Ok(v),
        Err(e) => {
            let (prefix, code) = match op {
                StreamReadOp::Get => ("Failed to get value: ", "STREAM_GET_ERROR"),
                StreamReadOp::List => ("Failed to get group: ", "STREAM_GET_GROUP_ERROR"),
                StreamReadOp::ListGroups => ("Failed to list groups: ", "STREAM_LIST_GROUPS_ERROR"),
            };
            Err(error_body(prefix, e.as_str(), code))
        },
    }
}

/// The streams the adapter knows, with their number.
#[derive(Debug)]
pub struct StreamListAllResult<T> {
    pub stream: Vec<T>,
    pub count: usize,
}

/// The answer to listing every stream: the streams with their count, or
/// `STREAM_LIST_ALL_ERROR` with the error in the message.
pub fn stream_list_all_outcome<T>(r: Result<Vec<T>, String>) -> (o: Result<StreamListAllResult<T>, ErrorBody>)
    ensures
        r matches Ok(v) ==> (o matches Ok(x) && x.stream@ == v@ && x.count == v@.len()),
        r matches Err(e) ==> (o matches Err(b) && b.code@ == "STREAM_LIST_ALL_ERROR"@ && b.message@
            == "Failed to list stream: "@ + e@ && b.stacktrace is None),
{
    match r {
        Ok(stream) => {
            let count = stream.len();
            Ok(StreamListAllResult { stream, count })
        },
        Err(e) => Err(error_body("Failed to list stream: ", e.as_str(), "STREAM_LIST_ALL_ERROR")),
    }
}

/// The message of a custom event of type `event_type` sent to the
/// subscribers of group `group_id` in stream `stream_name` (about item
/// `id`, if any) at `timestamp_ms`.
pub fn send_event_message(
    stream_name: &str,
    group_id: &str,
    id: Option<String>,
    event_type: String,
    data: JsonValue,
    timestamp_ms: i64,
) -> (m: StreamEventMessage)
    ensures
        m.event_type@ == "stream"@,
        m.timestamp == timestamp_ms,
        m.stream_name@ == stream_name@,
        m.group_id@ == group_id@,
        m.id == id,
        m.event.kind == StreamEventKind::Event,
        m.event.data == data,
        m.event.event_type == Some(event_type),
{
    StreamEventMessage {
        event_type: "stream".to_owned(),
        timestamp: timestamp_ms,
        stream_name: stream_name.to_owned(),
        group_id: group_id.to_owned(),
        id,
        event: StreamEvent { kind: StreamEventKind::Event, data, event_type: Some(event_type) },
    }
}

/// The answer to sending a custom event, given whether emitting it to the
/// subscribers succeeded: nothing, or `STREAM_SEND_ERROR` with the error in
/// the message.
pub fn send_outcome(emitted: Result<(), String>) -> (o: Result<(), ErrorBody>)
    ensures
        emitted is Ok ==> o is Ok,
        emitted matches Err(e) ==> (o matches Err(b) && b.code@ == "STREAM_SEND_ERROR"@
            && b.message@ == "Failed to send event: "@ + e@ && b.stacktrace is None),
{
    match emitted {
        Ok(()) => Ok(()),
        Err(e) => Err(error_body("Failed to send event: ", e.as_str(), "STREAM_SEND_ERROR")),
    }
}

// ---------------------------------------------------------------------------
// Trigger fan-out
// ---------------------------------------------------------------------------

/// A trigger's condition lets its handler run when there is none or it
/// held.
pub open spec fn condition_admits(c: Option<Result<bool, String>>) -> bool {
    match c {
        None => true,
        Some(Ok(held)) => held,
        Some(Err(_)) => false,
    }
}

/// Evaluating the trigger's condition failed.
pub open spec fn condition_failed(c: Option<Result<bool, String>>) -> bool {
    c matches Some(Err(_))
}

/// Trigger `j` fires for the event and its condition lets its handler run.
pub open spec fn fanout_calls(
    filters: Seq<(Option<String>, Option<String>)>,
    conditions: Seq<Option<Result<bool, String>>>,
    group: Seq<char>,
    item: Option<String>,
    j: int,
) -> bool {
    trigger_fires(filters[j].0, filters[j].1, group, item) && condition_admits(conditions[j])
}

/// One trigger of a fan-out: whether its handler is called (it fires and
/// its condition is absent or held) and whether its condition failed to
/// evaluate (only read when it fires).
pub fn trigger_admits(
    filter: &(Option<String>, Option<String>),
    group: &str,
    item: &Option<String>,
    condition: &Option<Result<bool, String>>,
) -> (r: (bool, bool))
    ensures
        r.0 == (trigger_fires(filter.0, filter.1, group@, *item) && condition_admits(*condition)),
        r.1 == (trigger_fires(filter.0, filter.1, group@, *item) && condition_failed(*condition)),
{
    let fires = stream_trigger_matches(&filter.0, &filter.1, group, item);
    let admits = match condition {
        None => true,
        Some(Ok(held)) => *held,
        Some(Err(_)) => false,
    };
    let errs = match condition {
        Some(Err(_)) => true,
        _ => false,
    };
    (fires && admits, fires && errs)
}

/// The fan-out of an event to the triggers of its stream, given each
/// trigger's group and item filters and the outcome of its condition
/// (`None` for a trigger without one; only the outcomes of triggers that
/// fire are read). Answers the positions, in order, whose handler is
/// called (the trigger fires and its condition is absent or held) and
/// whether a condition failed to evaluate.
pub fn trigger_fanout(
    filters: &[(Option<String>, Option<String>)],
    group: &str,
    item: &Option<String>,
    conditions: &[Option<Result<bool, String>>],
) -> (r: (Vec<usize>, bool))
    requires
        conditions@.len() == filters@.len(),
    ensures
        forall|k: int| 0 <= k < r.0@.len() ==> (#[trigger] r.0@[k]) < filters@.len(),
        forall|k: int, l: int| 0 <= k < l < r.0@.len() ==> r.0@[k] < r.0@[l],
        forall|j: int|
            0 <= j < filters@.len() ==> (r.0@.contains(j as usize) <==> #[trigger] fanout_calls(
                filters@,
                conditions@,
                group@,
                *item,
                j,
            )),
        r.1 <==> exists|j: int|
            0 <= j < filters@.len() && trigger_fires(
                #[trigger] filters@[j].0,
                filters@[j].1,
                group@,
                *item,
            ) && condition_failed(conditions@[j]),
{
    let mut calls: Vec<usize> = Vec::new();
    let mut failed = false;
    let mut i: usize = 0;
    while i < filters.len()
        invariant
            conditions@.len() == filters@.len(),
            i <= filters@.len(),
            forall|k: int| 0 <= k < calls@.len() ==> (#[trigger] calls@[k]) < i,
            forall|k: int, l: int| 0 <= k < l < calls@.len() ==> calls@[k] < calls@[l],
            forall|j: int|
                0 <= j < i ==> (calls@.contains(j as usize) <==> #[trigger] fanout_calls(
                    filters@,
                    conditions@,
                    group@,
                    *item,
                    j,
                )),
            failed <==> exists|j: int|
                0 <= j < i && trigger_fires(
                    #[trigger] filters@[j].0,
                    filters@[j].1,
                    group@,
                    *item,
                ) && condition_failed(conditions@[j]),
        decreases filters@.len() - i,
    {
        let ghost before = calls@;
        let ghost failed_before = failed;
        let (calls_it, errs) = trigger_admits(&filters[i], group, item, &conditions[i]);
        if errs {
            failed = true;
        }
        if calls_it {
            calls.push(i);
        }
        proof {
            assert(fanout_calls(filters@, conditions@, group@, *item, i as int) == calls_it);
            assert forall|j: int| 0 <= j < i + 1 implies (calls@.contains(j as usize)
                <==> #[trigger] fanout_calls(filters@, conditions@, group@, *item, j)) by {
                if j < i {
                    if before.contains(j as usize) {
                        let k = choose|k: int| 0 <= k < before.len() && before[k] == j as usize;
                        assert(calls@[k] == j as usize);
                    }
                    if calls@.contains(j as usize) {
                        let k = choose|k: int| 0 <= k < calls@.len() && calls@[k] == j as usize;
                        if k < before.len() {
                            assert(before[k] == j as usize);
                        }
                    }
                } else {
                    if calls_it {
                        assert(calls@[calls@.len() - 1] == j as usize);
                    } else if calls@.contains(j as usize) {
                        let k = choose|k: int| 0 <= k < calls@.len() && calls@[k] == j as usize;
                        assert(calls@[k] < i);
                    }
                }
            }
            if failed {
                if !failed_before {
                    assert(trigger_fires(filters@[i as int].0, filters@[i as int].1, group@, *item)
                        && condition_failed(conditions@[i as int]));
                }
            }
            if !failed {
                assert forall|j: int| 0 <= j < i + 1 implies !(trigger_fires(
                    #[trigger] filters@[j].0,
                    filters@[j].1,
                    group@,
                    *item,
                ) && condition_failed(conditions@[j])) by {
                    if j == i {
                        assert(!errs);
                    }
                }
            }
        }
        i = i + 1;
    }
    (calls, failed)
}

/// How a fan-out ended, recorded as the status of its span.
#[derive(Debug, Clone, Copy, PartialEq, Eq, Structural)]
pub enum FanoutStatus {
    Succeeded,
    Failed,
}

/// The status of a fan-out: failed exactly when a condition failed to
/// evaluate or a handler call failed (`call_ok` holds each call's success).
pub fn fanout_status(condition_failed: bool, call_ok: &[bool]) -> (s: FanoutStatus)
    ensures
        (s == FanoutStatus::Failed) <==> (condition_failed || exists|k: int|
            0 <= k < call_ok@.len() && !#[trigger] call_ok@[k]),
{
    let mut failed = condition_failed;
    let mut i: usize = 0;
    while i < call_ok.len()
        invariant
            i <= call_ok@.len(),
            failed <==> (condition_failed || exists|k: int|
                0 <= k < i && !#[trigger] call_ok@[k]),
        decreases call_ok@.len() - i,
    {
        if !call_ok[i] {
            failed = true;
        }
        i = i + 1;
    }
    if failed {
        FanoutStatus::Failed
    } else {
        FanoutStatus::Succeeded
    }
}

/// The `otel.status_code` recorded for a fan-out status.
pub fn fanout_status_code(s: FanoutStatus) -> (code: &'static str)
    ensures
        code@ == match s {
            FanoutStatus::Succeeded => "OK"@,
            FanoutStatus::Failed => "ERROR"@,
        },
{
    match s {
        FanoutStatus::Succeeded => "OK",
        FanoutStatus::Failed => "ERROR",
    }
}

// ---------------------------------------------------------------------------
// Boot
// ---------------------------------------------------------------------------

/// The stream configuration read from the configuration worker: the stored
/// one as parsed, or `fallback` when nothing is stored. A failed read keeps
/// its error; a stored value that does not parse (`reason` says why) is
/// reported as an invalid stored `iii-stream` configuration.
pub fn fetched_stream_config(
    read: Result<Option<Result<StreamModuleConfig, String>>, String>,
    fallback: StreamModuleConfig,
) -> (r: Result<StreamModuleConfig, String>)
    ensures
        read matches Err(e) ==> (r matches Err(m) && m == e),
        read matches Ok(None) ==> (r matches Ok(c) && c == fallback),
        read matches Ok(Some(Err(reason))) ==> (r matches Err(m) && m@
            == "stored `iii-stream` configuration is invalid: "@ + reason@),
        read matches Ok(Some(Ok(parsed))) ==> (r matches Ok(c) && c == parsed),
{
    match read {
        Err(e) => Err(e),
        Ok(None) => Ok(fallback),
        Ok(Some(Err(reason))) => {
            let m = crate::configuration::invalid_stored_value_message(
                crate::configuration::stream_config_entry(),
                reason.as_str(),
            );
            proof {
                reveal_strlit("stored `");
                reveal_strlit("iii-stream");
                reveal_strlit("` configuration is invalid: ");
                reveal_strlit("stored `iii-stream` configuration is invalid: ");
                assert("stored `"@ + "iii-stream"@ + "` configuration is invalid: "@
                    =~= "stored `iii-stream` configuration is invalid: "@);
            }
            Err(m)
        },
        Ok(Some(Ok(parsed))) => Ok(parsed),
    }
}

/// The configuration served from boot on: the one the configuration worker
/// returned, or the static one when reading it failed.
pub fn boot_config(fetched: Result<StreamModuleConfig, String>, static_config: StreamModuleConfig) -> (c:
    StreamModuleConfig)
    ensures
        c == match fetched {
            Ok(f) => f,
            Err(_) => static_config,
        },
{
    match fetched {
        Ok(f) => f,
        Err(_) => static_config,
    }
}

/// The served configuration after the adapter it selects could not be
/// built at boot: the served address and authentication with the adapter
/// of the seed, which keeps running (none without a seed).
pub fn boot_reconcile(served: &StreamModuleConfig, seed: Option<&StreamModuleConfig>) -> (c:
    StreamModuleConfig)
    ensures
        c.port == served.port,
        c.host == served.host,
        c.auth_function == served.auth_function,
        adapter_copy(
            match seed {
                Some(s) => s.adapter,
                None => None,
            },
            c.adapter,
        ),
{
    let auth_function = match &served.auth_function {
        Some(f) => Some(f.clone()),
        None => None,
    };
    let adapter = match seed {
        Some(s) => clone_adapter(&s.adapter),
        None => None,
    };
    StreamModuleConfig { port: served.port, host: served.host.clone(), auth_function, adapter }
}

/// `b` is a copy of `a`: the same address and authentication, and a copy
/// of its adapter selection.
pub open spec fn config_copy(a: StreamModuleConfig, b: StreamModuleConfig) -> bool {
    &&& b.port == a.port
    &&& b.host == a.host
    &&& b.auth_function == a.auth_function
    &&& adapter_copy(a.adapter, b.adapter)
}

/// A copy of a stream configuration.
pub fn clone_stream_config(c: &StreamModuleConfig) -> (r: StreamModuleConfig)
    ensures
        config_copy(*c, r),
{
    let auth_function = match &c.auth_function {
        Some(f) => Some(f.clone()),
        None => None,
    };
    StreamModuleConfig {
        port: c.port,
        host: c.host.clone(),
        auth_function,
        adapter: clone_adapter(&c.adapter),
    }
}

// ---------------------------------------------------------------------------
// Boot sequence
// ---------------------------------------------------------------------------

/// Where the stream worker's boot stands.
#[derive(Debug, Clone, Copy, PartialEq, Eq, Structural)]
pub enum BootPhase {
    /// Registering the worker's entry with the configuration worker.
    Registering,
    /// Reading the stored configuration.
    Fetching,
    /// Binding the served configuration's address.
    Binding,
    /// Binding the seed's address after the stored one could not be bound.
    BindingSeed,
    /// Building the adapter the served configuration selects.
    Resolving,
    /// Spawning the server and the adapter's event pump.
    Starting,
    /// Subscribing to configuration changes.
    Watching,
    /// Booted.
    Ready,
    /// The boot failed.
    Failed,
}

/// The boot's state: the configuration served, the seed from the static
/// configuration, the adapter backend serving (first the one built from
/// the seed), and whether the server is live.
#[derive(Debug)]
pub struct StreamBootState {
    pub config: StreamModuleConfig,
    pub seed: Option<StreamModuleConfig>,
    pub backend: u64,
    pub started: bool,
    pub phase: BootPhase,
}

/// A failed bind: the error, and whether the served host and the seed's
/// host restrict the listener to the local machine.
#[derive(Debug)]
pub struct BindFailure {
    pub message: String,
    pub stored_is_loopback: bool,
    pub seed_is_loopback: bool,
}

/// What an outside boot step gave.
#[derive(Debug)]
pub enum StreamBootEvent {
    /// Registration ended; a failure is only reported.
    Registered(Result<(), String>),
    Fetched(Result<StreamModuleConfig, String>),
    Bound(Result<(), BindFailure>),
    /// Building the served configuration's adapter ended with the new
    /// backend's id, or an error.
    Resolved(Result<u64, String>),
    /// The server and the event pump are live.
    ServerStarted,
    /// Subscribing to configuration changes ended.
    WatchRegistered(Result<(), String>),
}

/// What the worker does next.
#[derive(Debug)]
pub enum StreamBootAction {
    Nothing,
    Register,
    Fetch,
    /// Bind the served configuration's address.
    Bind,
    /// Build the adapter the served configuration selects.
    ResolveAdapter,
    /// Spawn the server on the bound listener and the event pump on the
    /// backend.
    StartServer,
    /// Subscribe to configuration changes.
    WatchConfig,
    /// Apply any change that landed during the boot.
    CatchUp,
    Fail(String),
}

pub open spec fn in_boot_phase(s: StreamBootState, phase: BootPhase) -> StreamBootState {
    StreamBootState {
        config: s.config,
        seed: s.seed,
        backend: s.backend,
        started: s.started,
        phase,
    }
}

/// The adapter built from the seed is not the one the served configuration
/// selects (always, without a seed).
pub open spec fn boot_outdated(s: StreamBootState) -> bool {
    match s.seed {
        None => true,
        Some(sd) => !same_effective_adapter(sd.adapter, s.config.adapter, default_adapter_name()),
    }
}

/// The fallback after the served address could not be bound.
pub open spec fn boot_fallback(s: StreamBootState, f: BindFailure) -> BindFallback {
    match s.seed {
        None => BindFallback::Fail,
        Some(sd) => seed_fallback(s.config, sd, f.stored_is_loopback, f.seed_is_loopback),
    }
}

/// The next step of adopting the adapter once an address is bound.
pub open spec fn adopt(s: StreamBootState, t: StreamBootState, a: StreamBootAction) -> bool {
    if boot_outdated(s) {
        t == in_boot_phase(s, BootPhase::Resolving) && a == StreamBootAction::ResolveAdapter
    } else {
        t == in_boot_phase(s, BootPhase::Starting) && a == StreamBootAction::StartServer
    }
}

/// One boot step: register; read the stored configuration (keeping the
/// static one if that fails); bind its address, falling back to the seed's
/// (guarded, see `seed_fallback`) or failing; only then build the adapter
/// the configuration actually served selects, when it differs from the
/// seed's (a failed build keeps the seed's adapter in the served
/// configuration); only then start the server, which counts as started
/// once it is live; then watch for changes and catch up. An event that
/// does not answer the step under way changes nothing.
pub open spec fn boot_next(
    s: StreamBootState,
    ev: StreamBootEvent,
    t: StreamBootState,
    a: StreamBootAction,
) -> bool {
    match ev {
        StreamBootEvent::Registered(_) => if s.phase == BootPhase::Registering {
            t == in_boot_phase(s, BootPhase::Fetching) && a == StreamBootAction::Fetch
        } else {
            t == s && a == StreamBootAction::Nothing
        },
        StreamBootEvent::Fetched(res) => if s.phase == BootPhase::Fetching {
            &&& t == StreamBootState {
                config: match res {
                    Ok(c) => c,
                    Err(_) => s.config,
                },
                seed: s.seed,
                backend: s.backend,
                started: s.started,
                phase: BootPhase::Binding,
            }
            &&& a == StreamBootAction::Bind
        } else {
            t == s && a == StreamBootAction::Nothing
        },
        StreamBootEvent::Bound(res) => if s.phase == BootPhase::Binding || s.phase
            == BootPhase::BindingSeed {
            match res {
                Ok(_) => adopt(s, t, a),
                Err(f) => if s.phase == BootPhase::Binding && boot_fallback(s, f)
                    == BindFallback::ServeSeed {
                    &&& config_copy(s.seed->0, t.config)
                    &&& t.seed == s.seed
                    &&& t.backend == s.backend
                    &&& t.started == s.started
                    &&& t.phase == BootPhase::BindingSeed
                    &&& a == StreamBootAction::Bind
                } else {
                    t == in_boot_phase(s, BootPhase::Failed) && a == StreamBootAction::Fail(
                        f.message,
                    )
                },
            }
        } else {
            t == s && a == StreamBootAction::Nothing
        },
        StreamBootEvent::Resolved(res) => if s.phase == BootPhase::Resolving {
            &&& a == StreamBootAction::StartServer
            &&& t.phase == BootPhase::Starting
            &&& t.seed == s.seed
            &&& t.started == s.started
            &&& match res {
                Ok(b) => t.config == s.config && t.backend == b,
                Err(_) => {
                    &&& t.backend == s.backend
                    &&& t.config.port == s.config.port
                    &&& t.config.host == s.config.host
                    &&& t.config.auth_function == s.config.auth_function
                    &&& adapter_copy(
                        match s.seed {
                            Some(sd) => sd.adapter,
                            None => None,
                        },
                        t.config.adapter,
                    )
                },
            }
        } else {
            t == s && a == StreamBootAction::Nothing
        },
        StreamBootEvent::ServerStarted => if s.phase == BootPhase::Starting {
            &&& t == StreamBootState {
                config: s.config,
                seed: s.seed,
                backend: s.backend,
                started: true,
                phase: BootPhase::Watching,
            }
            &&& a == StreamBootAction::WatchConfig
        } else {
            t == s && a == StreamBootAction::Nothing
        },
        StreamBootEvent::WatchRegistered(res) => if s.phase == BootPhase::Watching {
            &&& t == in_boot_phase(s, BootPhase::Ready)
            &&& a == if res is Ok {
                StreamBootAction::CatchUp
            } else {
                StreamBootAction::Nothing
            }
        } else {
            t == s && a == StreamBootAction::Nothing
        },
    }
}

/// The boot of a worker built from `config` (its seed, when the static
/// configuration has one) with the adapter `backend` built from it: first
/// register.
pub fn stream_boot_start(
    config: StreamModuleConfig,
    seed: Option<StreamModuleConfig>,
    backend: u64,
) -> (r: (StreamBootState, StreamBootAction))
    ensures
        r.0 == (StreamBootState {
            config,
            seed,
            backend,
            started: false,
            phase: BootPhase::Registering,
        }),
        r.1 == StreamBootAction::Register,
{
    (
        StreamBootState { config, seed, backend, started: false, phase: BootPhase::Registering },
        StreamBootAction::Register,
    )
}

fn adopt_step(s: StreamBootState) -> (r: (StreamBootState, StreamBootAction))
    ensures
        adopt(s, r.0, r.1),
{
    let outdated = boot_adapter_outdated(s.seed.as_ref(), &s.config);
    let StreamBootState { config, seed, backend, started, phase: _ } = s;
    if outdated {
        (
            StreamBootState { config, seed, backend, started, phase: BootPhase::Resolving },
            StreamBootAction::ResolveAdapter,
        )
    } else {
        (
            StreamBootState { config, seed, backend, started, phase: BootPhase::Starting },
            StreamBootAction::StartServer,
        )
    }
}

/// One step of the stream worker's boot (see `boot_next`).
pub fn stream_boot_step(s: StreamBootState, ev: StreamBootEvent) -> (r: (
    StreamBootState,
    StreamBootAction,
))
    ensures
        boot_next(s, ev, r.0, r.1),
{
    match ev {
        StreamBootEvent::Registered(_) => if s.phase == BootPhase::Registering {
            let StreamBootState { config, seed, backend, started, phase: _ } = s;
            (
                StreamBootState { config, seed, backend, started, phase: BootPhase::Fetching },
                StreamBootAction::Fetch,
            )
        } else {
            (s, StreamBootAction::Nothing)
        },
        StreamBootEvent::Fetched(res) => if s.phase == BootPhase::Fetching {
            let StreamBootState { config, seed, backend, started, phase: _ } = s;
            let served = boot_config(res, config);
            (
                StreamBootState { config: served, seed, backend, started, phase: BootPhase::Binding },
                StreamBootAction::Bind,
            )
        } else {
            (s, StreamBootAction::Nothing)
        },
        StreamBootEvent::Bound(res) => if s.phase == BootPhase::Binding || s.phase
            == BootPhase::BindingSeed {
            match res {
                Ok(_) => adopt_step(s),
                Err(f) => {
                    let fallback = if s.phase == BootPhase::Binding {
                        bind_fallback(
                            &s.config,
                            s.seed.as_ref(),
                            f.stored_is_loopback,
                            f.seed_is_loopback,
                        )
                    } else {
                        BindFallback::Fail
                    };
                    let StreamBootState { config, seed, backend, started, phase: _ } = s;
                    match fallback {
                        BindFallback::ServeSeed => {
                            let served = match &seed {
                                Some(sd) => clone_stream_config(sd),
                                None => config,
                            };
                            (
                                StreamBootState {
                                    config: served,
                                    seed,
                                    backend,
                                    started,
                                    phase: BootPhase::BindingSeed,
                                },
                                StreamBootAction::Bind,
                            )
                        },
                        BindFallback::Fail => (
                            StreamBootState {
                                config,
                                seed,
                                backend,
                                started,
                                phase: BootPhase::Failed,
                            },
                            StreamBootAction::Fail(f.message),
                        ),
                    }
                },
            }
        } else {
            (s, StreamBootAction::Nothing)
        },
        StreamBootEvent::Resolved(res) => if s.phase == BootPhase::Resolving {
            match res {
                Ok(b) => {
                    let StreamBootState { config, seed, backend: _, started, phase: _ } = s;
                    (
                        StreamBootState {
                            config,
                            seed,
                            backend: b,
                            started,
                            phase: BootPhase::Starting,
                        },
                        StreamBootAction::StartServer,
                    )
                },
                Err(_) => {
                    let reconciled = boot_reconcile(&s.config, s.seed.as_ref());
                    let StreamBootState { config: _, seed, backend, started, phase: _ } = s;
                    (
                        StreamBootState {
                            config: reconciled,
                            seed,
                            backend,
                            started,
                            phase: BootPhase::Starting,
                        },
                        StreamBootAction::StartServer,
                    )
                },
            }
        } else {
            (s, StreamBootAction::Nothing)
        },
        StreamBootEvent::ServerStarted => if s.phase == BootPhase::Starting {
            let StreamBootState { config, seed, backend, started: _, phase: _ } = s;
            (
                StreamBootState { config, seed, backend, started: true, phase: BootPhase::Watching },
                StreamBootAction::WatchConfig,
            )
        } else {
            (s, StreamBootAction::Nothing)
        },
        StreamBootEvent::WatchRegistered(res) => if s.phase == BootPhase::Watching {
            let StreamBootState { config, seed, backend, started, phase: _ } = s;
            (
                StreamBootState { config, seed, backend, started, phase: BootPhase::Ready },
                if res.is_ok() {
                    StreamBootAction::CatchUp
                } else {
                    StreamBootAction::Nothing
                },
            )
        } else {
            (s, StreamBootAction::Nothing)
        },
    }
}

/// The boot's consistency: the server counts as started exactly once it is
/// live (from the watch step on), and a fallback to the seed's address
/// happens only with a seed.
pub open spec fn boot_wf(s: StreamBootState) -> bool {
    &&& s.started <==> (s.phase == BootPhase::Watching || s.phase == BootPhase::Ready)
    &&& s.phase == BootPhase::BindingSeed ==> s.seed is Some
}

/// A boot starts consistent.
pub proof fn law_boot_starts_wf(
    config: StreamModuleConfig,
    seed: Option<StreamModuleConfig>,
    backend: u64,
)
    ensures
        boot_wf(
            StreamBootState {
                config,
                seed,
                backend,
                started: false,
                phase: BootPhase::Registering,
            },
        ),
{
}

/// Every boot step keeps the boot consistent.
pub proof fn law_boot_step_keeps_wf(
    s: StreamBootState,
    ev: StreamBootEvent,
    t: StreamBootState,
    a: StreamBootAction,
)
    requires
        boot_wf(s),
        boot_next(s, ev, t, a),
    ensures
        boot_wf(t),
{
}

/// The boot order: the adapter is adopted only after an address was bound
/// and against the configuration being served there; the server starts
/// only after adoption; the worker counts as started only once the server
/// is live.
pub proof fn law_boot_order(
    s: StreamBootState,
    ev: StreamBootEvent,
    t: StreamBootState,
    a: StreamBootAction,
)
    requires
        boot_wf(s),
        boot_next(s, ev, t, a),
    ensures
        a == StreamBootAction::ResolveAdapter ==> (ev matches StreamBootEvent::Bound(Ok(_))) && (
        s.phase == BootPhase::Binding || s.phase == BootPhase::BindingSeed) && t.config == s.config
            && boot_outdated(s),
        a == StreamBootAction::StartServer ==> (ev is Resolved && s.phase == BootPhase::Resolving)
            || ((ev matches StreamBootEvent::Bound(Ok(_))) && !boot_outdated(s)),
        (t.started && !s.started) ==> ev is ServerStarted && s.phase == BootPhase::Starting,
        a == StreamBootAction::CatchUp ==> t.started || s.started,
{
}

/// A failed read of the stored configuration keeps the static one, and a
/// failed adapter build keeps the served address and authentication with
/// the seed's adapter.
pub proof fn law_boot_failures_degrade(
    s: StreamBootState,
    ev: StreamBootEvent,
    t: StreamBootState,
    a: StreamBootAction,
)
    requires
        boot_next(s, ev, t, a),
    ensures
        (ev matches StreamBootEvent::Fetched(Err(_))) && s.phase == BootPhase::Fetching ==> t.config
            == s.config && a == StreamBootAction::Bind,
        (ev matches StreamBootEvent::Resolved(Err(_))) && s.phase == BootPhase::Resolving ==> (
        t.config.host == s.config.host && t.config.port == s.config.port && t.backend == s.backend
            && adapter_copy(s.seed->0.adapter, t.config.adapter)) || s.seed is None,
{
}

/// The state the application of changes continues from once booted: the
/// served configuration and backend, started or not.
pub fn booted_apply_state(s: StreamBootState) -> (r: StreamApplyState)
    ensures
        r.config == s.config,
        r.backend == s.backend,
        r.started == s.started,
        !r.destroyed,
        r.phase is Idle,
{
    StreamApplyState {
        config: s.config,
        backend: s.backend,
        started: s.started,
        destroyed: false,
        phase: ApplyPhase::Idle,
    }
}

// ---------------------------------------------------------------------------
// Applying a configuration change
// ---------------------------------------------------------------------------

/// Where the application of a configuration change stands.
#[derive(Debug)]
pub enum ApplyPhase {
    /// No change is being applied.
    Idle,
    /// The authoritative configuration is being read.
    Fetching,
    /// The adapter `pending` selects is being built.
    Resolving { pending: StreamModuleConfig, plan: StreamApplyPlan },
    /// The address of `pending` is being bound; `backend` is the adapter
    /// already built for it, when the change swaps adapters.
    Binding { pending: StreamModuleConfig, plan: StreamApplyPlan, backend: Option<u64> },
}

/// The stream worker's live state as the application of changes sees it:
/// the served configuration, the adapter backend serving it (by the id the
/// worker gave it), whether the server was started and whether the worker
/// was destroyed.
#[derive(Debug)]
pub struct StreamApplyState {
    pub config: StreamModuleConfig,
    pub backend: u64,
    pub started: bool,
    pub destroyed: bool,
    pub phase: ApplyPhase,
}

/// What happened: a change was announced, or an outside step finished.
#[derive(Debug)]
pub enum StreamApplyEvent {
    /// A configuration change was announced.
    Requested,
    /// Reading the configuration ended (its error as text).
    Fetched(Result<StreamModuleConfig, String>),
    /// Building the adapter ended with the new backend's id, or an error.
    Resolved(Result<u64, String>),
    /// Binding the new address ended.
    Bound(Result<(), String>),
    /// The server was started.
    Started,
    /// The worker was destroyed.
    Destroyed,
}

/// Why an application failed; the live state is left as it was.
#[derive(Debug)]
pub enum ApplyFailure {
    Fetch(String),
    Resolve(String),
    Bind(String),
    /// The change needs the server, which was never started.
    NotStarted,
}

impl ApplyFailure {
    /// The failure as text: the step's own error, or that the server was
    /// never started.
    pub fn message(&self) -> (m: String)
        ensures
            m@ == match *self {
                ApplyFailure::Fetch(e) => e@,
                ApplyFailure::Resolve(e) => e@,
                ApplyFailure::Bind(e) => e@,
                ApplyFailure::NotStarted => "stream server was never started; cannot apply"@,
            },
    {
        match self {
            ApplyFailure::Fetch(e) => e.clone(),
            ApplyFailure::Resolve(e) => e.clone(),
            ApplyFailure::Bind(e) => e.clone(),
            ApplyFailure::NotStarted => "stream server was never started; cannot apply".to_owned(),
        }
    }
}

/// What the worker does next.
#[derive(Debug)]
pub enum StreamApplyAction {
    Nothing,
    /// Read the authoritative configuration.
    Fetch,
    /// Build the adapter the pending configuration selects.
    ResolveAdapter,
    /// Bind the pending configuration's address.
    Bind,
    /// The new configuration is live: with `plan.swap_adapter`, move event
    /// delivery to the new backend; with `plan.rebind`, move the server to
    /// the new listener. With neither, only the snapshot was replaced.
    Commit { plan: StreamApplyPlan },
    Fail(ApplyFailure),
}

/// The plan that replacing `old` by `new` needs.
pub open spec fn plan_of(old: StreamModuleConfig, new: StreamModuleConfig) -> StreamApplyPlan {
    StreamApplyPlan {
        rebind: !same_address(old, new),
        swap_adapter: !same_effective_adapter(old.adapter, new.adapter, default_adapter_name()),
    }
}

/// The state with another phase.
pub open spec fn in_phase(s: StreamApplyState, phase: ApplyPhase) -> StreamApplyState {
    StreamApplyState {
        config: s.config,
        backend: s.backend,
        started: s.started,
        destroyed: s.destroyed,
        phase,
    }
}

/// The state with `config` served by `backend`, no change pending.
pub open spec fn committed(
    s: StreamApplyState,
    config: StreamModuleConfig,
    backend: u64,
) -> StreamApplyState {
    StreamApplyState {
        config,
        backend,
        started: s.started,
        destroyed: s.destroyed,
        phase: ApplyPhase::Idle,
    }
}

/// One step of applying configuration changes. A destroyed worker does
/// nothing. An announced change is read; a change of neither address nor
/// adapter only replaces the snapshot; otherwise the new adapter is built
/// (when it changes), the server must have been started, and the new
/// address is bound (when it changes), and only then is the new
/// configuration committed. Any failure on the way ends the application
/// and leaves configuration and adapter as they were. An event that does
/// not answer the step under way changes nothing.
pub open spec fn next_state(s: StreamApplyState, ev: StreamApplyEvent) -> (
    StreamApplyState,
    StreamApplyAction,
) {
    if s.destroyed {
        (s, StreamApplyAction::Nothing)
    } else {
        match ev {
            StreamApplyEvent::Destroyed => (
                StreamApplyState {
                    config: s.config,
                    backend: s.backend,
                    started: false,
                    destroyed: true,
                    phase: ApplyPhase::Idle,
                },
                StreamApplyAction::Nothing,
            ),
            StreamApplyEvent::Started => (
                StreamApplyState {
                    config: s.config,
                    backend: s.backend,
                    started: true,
                    destroyed: s.destroyed,
                    phase: s.phase,
                },
                StreamApplyAction::Nothing,
            ),
            StreamApplyEvent::Requested => match s.phase {
                ApplyPhase::Idle => (in_phase(s, ApplyPhase::Fetching), StreamApplyAction::Fetch),
                _ => (s, StreamApplyAction::Nothing),
            },
            StreamApplyEvent::Fetched(res) => match s.phase {
                ApplyPhase::Fetching => match res {
                    Err(e) => (
                        in_phase(s, ApplyPhase::Idle),
                        StreamApplyAction::Fail(ApplyFailure::Fetch(e)),
                    ),
                    Ok(new) => {
                        let plan = plan_of(s.config, new);
                        if !plan.rebind && !plan.swap_adapter {
                            (committed(s, new, s.backend), StreamApplyAction::Commit { plan })
                        } else if plan.swap_adapter {
                            (
                                in_phase(s, ApplyPhase::Resolving { pending: new, plan }),
                                StreamApplyAction::ResolveAdapter,
                            )
                        } else if !s.started {
                            (
                                in_phase(s, ApplyPhase::Idle),
                                StreamApplyAction::Fail(ApplyFailure::NotStarted),
                            )
                        } else {
                            (
                                in_phase(
                                    s,
                                    ApplyPhase::Binding { pending: new, plan, backend: None },
                                ),
                                StreamApplyAction::Bind,
                            )
                        }
                    },
                },
                _ => (s, StreamApplyAction::Nothing),
            },
            StreamApplyEvent::Resolved(res) => match s.phase {
                ApplyPhase::Resolving { pending, plan } => match res {
                    Err(e) => (
                        in_phase(s, ApplyPhase::Idle),
                        StreamApplyAction::Fail(ApplyFailure::Resolve(e)),
                    ),
                    Ok(b) => if !s.started {
                        (
                            in_phase(s, ApplyPhase::Idle),
                            StreamApplyAction::Fail(ApplyFailure::NotStarted),
                        )
                    } else if plan.rebind {
                        (
                            in_phase(s, ApplyPhase::Binding { pending, plan, backend: Some(b) }),
                            StreamApplyAction::Bind,
                        )
                    } else {
                        (committed(s, pending, b), StreamApplyAction::Commit { plan })
                    },
                },
                _ => (s, StreamApplyAction::Nothing),
            },
            StreamApplyEvent::Bound(res) => match s.phase {
                ApplyPhase::Binding { pending, plan, backend } => match res {
                    Err(e) => (
                        in_phase(s, ApplyPhase::Idle),
                        StreamApplyAction::Fail(ApplyFailure::Bind(e)),
                    ),
                    Ok(_) => (
                        committed(
                            s,
                            pending,
                            match backend {
                                Some(b) => b,
                                None => s.backend,
                            },
                        ),
                        StreamApplyAction::Commit { plan },
                    ),
                },
                _ => (s, StreamApplyAction::Nothing),
            },
        }
    }
}

/// A worker that has not applied anything yet: serving `config` with
/// `backend`, not started.
pub fn stream_apply_initial(config: StreamModuleConfig, backend: u64) -> (s: StreamApplyState)
    ensures
        s.config == config,
        s.backend == backend,
        !s.started,
        !s.destroyed,
        s.phase is Idle,
{
    StreamApplyState { config, backend, started: false, destroyed: false, phase: ApplyPhase::Idle }
}

/// One step of applying configuration changes: the next state and what
/// the worker does next (see `next_state`).
pub fn stream_apply_step(s: StreamApplyState, ev: StreamApplyEvent) -> (r: (
    StreamApplyState,
    StreamApplyAction,
))
    ensures
        r == next_state(s, ev),
{
    if s.destroyed {
        return (s, StreamApplyAction::Nothing);
    }
    let StreamApplyState { config, backend, started, destroyed, phase } = s;
    match ev {
        StreamApplyEvent::Destroyed => (
            StreamApplyState {
                config,
                backend,
                started: false,
                destroyed: true,
                phase: ApplyPhase::Idle,
            },
            StreamApplyAction::Nothing,
        ),
        StreamApplyEvent::Started => (
            StreamApplyState { config, backend, started: true, destroyed, phase },
            StreamApplyAction::Nothing,
        ),
        StreamApplyEvent::Requested => match phase {
            ApplyPhase::Idle => (
                StreamApplyState {
                    config,
                    backend,
                    started,
                    destroyed,
                    phase: ApplyPhase::Fetching,
                },
                StreamApplyAction::Fetch,
            ),
            other => (
                StreamApplyState { config, backend, started, destroyed, phase: other },
                StreamApplyAction::Nothing,
            ),
        },
        StreamApplyEvent::Fetched(res) => match phase {
            ApplyPhase::Fetching => match res {
                Err(e) => (
                    StreamApplyState {
                        config,
                        backend,
                        started,
                        destroyed,
                        phase: ApplyPhase::Idle,
                    },
                    StreamApplyAction::Fail(ApplyFailure::Fetch(e)),
                ),
                Ok(new) => {
                    let plan = stream_apply_plan(&config, &new);
                    if !plan.rebind && !plan.swap_adapter {
                        (
                            StreamApplyState {
                                config: new,
                                backend,
                                started,
                                destroyed,
                                phase: ApplyPhase::Idle,
                            },
                            StreamApplyAction::Commit { plan },
                        )
                    } else if plan.swap_adapter {
                        (
                            StreamApplyState {
                                config,
                                backend,
                                started,
                                destroyed,
                                phase: ApplyPhase::Resolving { pending: new, plan },
                            },
                            StreamApplyAction::ResolveAdapter,
                        )
                    } else if !started {
                        (
                            StreamApplyState {
                                config,
                                backend,
                                started,
                                destroyed,
                                phase: ApplyPhase::Idle,
                            },
                            StreamApplyAction::Fail(ApplyFailure::NotStarted),
                        )
                    } else {
                        (
                            StreamApplyState {
                                config,
                                backend,
                                started,
                                destroyed,
                                phase: ApplyPhase::Binding { pending: new, plan, backend: None },
                            },
                            StreamApplyAction::Bind,
                        )
                    }
                },
            },
            other => (
                StreamApplyState { config, backend, started, destroyed, phase: other },
                StreamApplyAction::Nothing,
            ),
        },
        StreamApplyEvent::Resolved(res) => match phase {
            ApplyPhase::Resolving { pending, plan } => match res {
                Err(e) => (
                    StreamApplyState {
                        config,
                        backend,
                        started,
                        destroyed,
                        phase: ApplyPhase::Idle,
                    },
                    StreamApplyAction::Fail(ApplyFailure::Resolve(e)),
                ),
                Ok(b) => if !started {
                    (
                        StreamApplyState {
                            config,
                            backend,
                            started,
                            destroyed,
                            phase: ApplyPhase::Idle,
                        },
                        StreamApplyAction::Fail(ApplyFailure::NotStarted),
                    )
                } else if plan.rebind {
                    (
                        StreamApplyState {
                            config,
                            backend,
                            started,
                            destroyed,
                            phase: ApplyPhase::Binding { pending, plan, backend: Some(b) },
                        },
                        StreamApplyAction::Bind,
                    )
                } else {
                    (
                        StreamApplyState {
                            config: pending,
                            backend: b,
                            started,
                            destroyed,
                            phase: ApplyPhase::Idle,
                        },
                        StreamApplyAction::Commit { plan },
                    )
                },
            },
            other => (
                StreamApplyState { config, backend, started, destroyed, phase: other },
                StreamApplyAction::Nothing,
            ),
        },
        StreamApplyEvent::Bound(res) => match phase {
            ApplyPhase::Binding { pending, plan, backend: resolved } => match res {
                Err(e) => (
                    StreamApplyState {
                        config,
                        backend,
                        started,
                        destroyed,
                        phase: ApplyPhase::Idle,
                    },
                    StreamApplyAction::Fail(ApplyFailure::Bind(e)),
                ),
                Ok(_) => {
                    let live = match resolved {
                        Some(b) => b,
                        None => backend,
                    };
                    (
                        StreamApplyState {
                            config: pending,
                            backend: live,
                            started,
                            destroyed,
                            phase: ApplyPhase::Idle,
                        },
                        StreamApplyAction::Commit { plan },
                    )
                },
            },
            other => (
                StreamApplyState { config, backend, started, destroyed, phase: other },
                StreamApplyAction::Nothing,
            ),
        },
    }
}

/// The state's consistency: a pending change carries the plan it needs
/// against the served configuration; a build is pending only for an
/// adapter swap, and a bind only for a rebind of a started server, with a
/// built backend exactly when the adapter swaps; a destroyed worker is
/// stopped with nothing pending.
pub open spec fn apply_wf(s: StreamApplyState) -> bool {
    &&& s.destroyed ==> !s.started && s.phase is Idle
    &&& match s.phase {
        ApplyPhase::Resolving { pending, plan } => plan == plan_of(s.config, pending)
            && plan.swap_adapter,
        ApplyPhase::Binding { pending, plan, backend } => plan == plan_of(s.config, pending)
            && plan.rebind && s.started && (backend is Some <==> plan.swap_adapter),
        _ => true,
    }
}

/// Every step keeps the state consistent.
pub proof fn law_apply_step_keeps_wf(s: StreamApplyState, ev: StreamApplyEvent)
    requires
        apply_wf(s),
    ensures
        apply_wf(next_state(s, ev).0),
{
}

/// A worker starts consistent.
pub proof fn law_initial_wf(config: StreamModuleConfig, backend: u64)
    ensures
        apply_wf(
            StreamApplyState {
                config,
                backend,
                started: false,
                destroyed: false,
                phase: ApplyPhase::Idle,
            },
        ),
{
}

/// A destroyed worker applies nothing: every event leaves its state as it
/// is and asks for nothing.
pub proof fn law_destroyed_applies_nothing(s: StreamApplyState, ev: StreamApplyEvent)
    requires
        s.destroyed,
    ensures
        next_state(s, ev) == (s, StreamApplyAction::Nothing),
{
}

/// All or nothing: a failed fetch, build or bind (or a server never
/// started) leaves the served configuration and adapter as they were, and
/// only a commit changes them.
pub proof fn law_apply_all_or_nothing(s: StreamApplyState, ev: StreamApplyEvent)
    ensures
        next_state(s, ev).1 is Fail ==> next_state(s, ev).0.config == s.config
            && next_state(s, ev).0.backend == s.backend,
        (next_state(s, ev).0.config != s.config || next_state(s, ev).0.backend != s.backend)
            ==> next_state(s, ev).1 is Commit,
{
}

/// A commit comes only after every prerequisite of the change succeeded:
/// it carries the change's own plan; an adapter swap installs the backend
/// that was built for it; a rebind follows a successful bind; either needs
/// a started server; and without a swap the adapter stays.
pub proof fn law_commit_after_prerequisites(s: StreamApplyState, ev: StreamApplyEvent)
    requires
        apply_wf(s),
        next_state(s, ev).1 is Commit,
    ensures
        ({
            let (t, a) = next_state(s, ev);
            let plan = a->plan;
            &&& plan == plan_of(s.config, t.config)
            &&& t.phase is Idle
            &&& plan.swap_adapter ==> ((ev matches StreamApplyEvent::Resolved(Ok(b)) && t.backend
                == b) || (ev matches StreamApplyEvent::Bound(Ok(_)) && s.phase matches ApplyPhase::Binding {
                backend: Some(b),
                ..
            } && t.backend == b))
            &&& plan.rebind ==> (ev matches StreamApplyEvent::Bound(Ok(_)))
            &&& (plan.rebind || plan.swap_adapter) ==> s.started
            &&& !plan.swap_adapter ==> t.backend == s.backend
        }),
{
}

/// A change of neither address nor adapter (such as one of the
/// authentication function alone) only swaps the configuration snapshot:
/// the adapter stays and nothing is built or bound.
pub proof fn law_auth_only_change_is_snapshot_swap(s: StreamApplyState, new: StreamModuleConfig)
    requires
        !s.destroyed,
        s.phase is Fetching,
        same_address(s.config, new),
        same_effective_adapter(s.config.adapter, new.adapter, default_adapter_name()),
    ensures
        next_state(s, StreamApplyEvent::Fetched(Ok(new))) == (
            committed(s, new, s.backend),
            StreamApplyAction::Commit {
                plan: StreamApplyPlan { rebind: false, swap_adapter: false },
            },
        ),
{
}

} // verus!
