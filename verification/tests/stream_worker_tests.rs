use iii_core::adapter::AdapterEntry;
use iii_core::json::{JsonNumber, JsonValue};
use iii_core::stream_config::StreamModuleConfig;
use iii_core::stream_worker::{
    boot_config, boot_reconcile, custom_write_result, fanout_status, fanout_status_code,
    fetched_stream_config, input_conversion_failure, send_event_message, send_outcome,
    stream_apply_initial, stream_apply_step, stream_boot_start, stream_boot_step,
    stream_list_all_outcome, stream_op_outcome, stream_read_outcome, trigger_admits,
    trigger_fanout, ApplyFailure, ApplyPhase, BindFailure, BootPhase, FanoutStatus,
    StreamApplyAction, StreamApplyEvent, StreamApplyState, StreamBootAction, StreamBootEvent,
    StreamBootState, StreamDeleteResult, StreamEventKind, StreamOpOutcome, StreamReadOp,
    StreamSetResult, StreamWriteOp, StreamWriteResult,
};

fn obj(key: &str, value: JsonValue) -> JsonValue {
    JsonValue::Object(vec![(key.to_string(), value)])
}

fn text(s: &str) -> JsonValue {
    JsonValue::String(s.to_string())
}

fn config(host: &str, port: u16, auth: Option<&str>, adapter: Option<&str>) -> StreamModuleConfig {
    StreamModuleConfig {
        port,
        host: host.to_string(),
        auth_function: auth.map(|a| a.to_string()),
        adapter: adapter.map(|name| AdapterEntry { name: name.to_string(), config: None }),
    }
}

fn is_key_value(v: &JsonValue, key: &str, value: &str) -> bool {
    match v {
        JsonValue::Object(members) => {
            members.len() == 1
                && members[0].0 == key
                && matches!(&members[0].1, JsonValue::String(s) if s == value)
        }
        _ => false,
    }
}

#[test]
fn failed_writes_answer_their_error_codes() {
    let o = stream_op_outcome(StreamWriteOp::SetValue, Err("set failed".to_string()), "s", "g", "i", 1);
    match o {
        StreamOpOutcome::Failure(b) => {
            assert_eq!(b.code, "STREAM_SET_ERROR");
            assert_eq!(b.message, "Failed to set value: set failed");
            assert!(b.stacktrace.is_none());
        }
        _ => panic!("expected a failure"),
    }
    let o = stream_op_outcome(StreamWriteOp::Update, Err("update failed".to_string()), "s", "g", "i", 1);
    match o {
        StreamOpOutcome::Failure(b) => {
            assert_eq!(b.code, "STREAM_UPDATE_ERROR");
            assert_eq!(b.message, "Failed to update value: update failed");
        }
        _ => panic!("expected a failure"),
    }
    let o = stream_op_outcome(StreamWriteOp::Delete, Err("delete failed".to_string()), "s", "g", "i", 1);
    match o {
        StreamOpOutcome::Failure(b) => {
            assert_eq!(b.code, "STREAM_DELETE_ERROR");
            assert_eq!(b.message, "Failed to delete value: delete failed");
        }
        _ => panic!("expected a failure"),
    }
}

#[test]
fn set_of_a_new_item_emits_create() {
    let res = StreamWriteResult::Stored(StreamSetResult {
        old_value: None,
        new_value: obj("key", text("value1")),
    });
    let o = stream_op_outcome(StreamWriteOp::SetValue, Ok(res), "test_stream", "test_group", "item1", 42);
    match o {
        StreamOpOutcome::Success { result, event } => {
            assert!(matches!(result, StreamWriteResult::Stored(ref r) if r.old_value.is_none()));
            let m = event.expect("a set emits an event");
            assert_eq!(m.event_type, "stream");
            assert_eq!(m.timestamp, 42);
            assert_eq!(m.stream_name, "test_stream");
            assert_eq!(m.group_id, "test_group");
            assert_eq!(m.id.as_deref(), Some("item1"));
            assert_eq!(m.event.kind, StreamEventKind::Create);
            assert!(is_key_value(&m.event.data, "key", "value1"));
        }
        _ => panic!("expected success"),
    }
}

#[test]
fn update_of_an_existing_item_emits_update_with_new_value() {
    let res = StreamWriteResult::Stored(StreamSetResult {
        old_value: Some(obj("key", text("value1"))),
        new_value: obj("key", text("value2")),
    });
    let o = stream_op_outcome(StreamWriteOp::Update, Ok(res), "test_stream", "test_group", "item1", 7);
    match o {
        StreamOpOutcome::Success { event, .. } => {
            let m = event.expect("an update emits an event");
            assert_eq!(m.event.kind, StreamEventKind::Update);
            assert!(is_key_value(&m.event.data, "key", "value2"));
        }
        _ => panic!("expected success"),
    }
}

#[test]
fn delete_emits_only_when_a_value_was_removed() {
    let res = StreamWriteResult::Deleted(StreamDeleteResult {
        old_value: Some(JsonValue::Number(JsonNumber::PosInt(5))),
    });
    match stream_op_outcome(StreamWriteOp::Delete, Ok(res), "s", "g", "i", 3) {
        StreamOpOutcome::Success { event, .. } => {
            let m = event.expect("removing a value emits a delete");
            assert_eq!(m.event.kind, StreamEventKind::Delete);
            assert!(matches!(m.event.data, JsonValue::Number(JsonNumber::PosInt(5))));
        }
        _ => panic!("expected success"),
    }
    let res = StreamWriteResult::Deleted(StreamDeleteResult { old_value: None });
    match stream_op_outcome(StreamWriteOp::Delete, Ok(res), "s", "g", "i", 3) {
        StreamOpOutcome::Success { result, event } => {
            assert!(event.is_none());
            assert!(matches!(result, StreamWriteResult::Deleted(ref d) if d.old_value.is_none()));
        }
        _ => panic!("expected success"),
    }
}

#[test]
fn fanout_calls_admitted_handlers_and_reports_errors() {
    // ok, skip-false, condition without answer (passes), skip-error, handler-error
    let filters: Vec<(Option<String>, Option<String>)> = vec![(None, None); 5];
    let conditions = vec![
        None,
        Some(Ok(false)),
        Some(Ok(true)),
        Some(Err("condition failed".to_string())),
        None,
    ];
    let (calls, condition_failed) = trigger_fanout(&filters, "g", &None, &conditions);
    assert_eq!(calls, vec![0, 2, 4]);
    assert!(condition_failed);
    let status = fanout_status(condition_failed, &[true, true, false]);
    assert_eq!(status, FanoutStatus::Failed);
    assert_eq!(fanout_status_code(status), "ERROR");
    assert_eq!(fanout_status(false, &[true, true]), FanoutStatus::Succeeded);
    assert_eq!(fanout_status_code(FanoutStatus::Succeeded), "OK");
    assert_eq!(fanout_status(false, &[true, false]), FanoutStatus::Failed);
}

#[test]
fn fanout_skips_triggers_whose_filters_do_not_match() {
    let filters = vec![
        (Some("other".to_string()), None),
        (Some("g".to_string()), Some("item1".to_string())),
        (None, Some("item2".to_string())),
    ];
    // The failing condition belongs to a trigger that does not fire.
    let conditions = vec![Some(Err("boom".to_string())), None, None];
    let (calls, condition_failed) = trigger_fanout(&filters, "g", &Some("item1".to_string()), &conditions);
    assert_eq!(calls, vec![1]);
    assert!(!condition_failed);
}

#[test]
fn boot_keeps_static_config_when_reading_fails() {
    let fetched = boot_config(Ok(config("127.0.0.1", 4000, None, None)), config("0.0.0.0", 3112, None, None));
    assert_eq!(fetched.port, 4000);
    let kept = boot_config(Err("configuration::get timed out".to_string()), config("0.0.0.0", 3112, None, None));
    assert_eq!(kept.port, 3112);
    assert_eq!(kept.host, "0.0.0.0");
}

#[test]
fn boot_resolve_failure_reconciles_to_seed_adapter() {
    let served = config("127.0.0.1", 4000, Some("auth::live"), Some("redis"));
    let seed = config("0.0.0.0", 3112, None, Some("kv"));
    let c = boot_reconcile(&served, Some(&seed));
    assert_eq!(c.port, 4000);
    assert_eq!(c.host, "127.0.0.1");
    assert_eq!(c.auth_function.as_deref(), Some("auth::live"));
    assert_eq!(c.adapter.as_ref().map(|a| a.name.as_str()), Some("kv"));
    let c = boot_reconcile(&served, None);
    assert!(c.adapter.is_none());
}

fn started(c: StreamModuleConfig) -> StreamApplyState {
    let s = stream_apply_initial(c, 1);
    let (s, a) = stream_apply_step(s, StreamApplyEvent::Started);
    assert!(matches!(a, StreamApplyAction::Nothing));
    s
}

fn request(s: StreamApplyState) -> StreamApplyState {
    let (s, a) = stream_apply_step(s, StreamApplyEvent::Requested);
    assert!(matches!(a, StreamApplyAction::Fetch));
    assert!(matches!(s.phase, ApplyPhase::Fetching));
    s
}

#[test]
fn auth_function_change_only_swaps_the_snapshot() {
    let s = request(started(config("127.0.0.1", 4000, Some("auth::seeded"), None)));
    let (s, a) = stream_apply_step(s, StreamApplyEvent::Fetched(Ok(config("127.0.0.1", 4000, Some("auth::live"), Some("kv")))));
    match a {
        StreamApplyAction::Commit { plan } => {
            assert!(!plan.rebind);
            assert!(!plan.swap_adapter);
        }
        _ => panic!("expected a commit"),
    }
    assert_eq!(s.config.auth_function.as_deref(), Some("auth::live"));
    assert_eq!(s.backend, 1);
    assert!(matches!(s.phase, ApplyPhase::Idle));
}

#[test]
fn port_change_rebinds_after_a_successful_bind() {
    let s = request(started(config("127.0.0.1", 4000, None, None)));
    let (s, a) = stream_apply_step(s, StreamApplyEvent::Fetched(Ok(config("127.0.0.1", 4001, None, None))));
    assert!(matches!(a, StreamApplyAction::Bind));
    assert_eq!(s.config.port, 4000);
    let (s, a) = stream_apply_step(s, StreamApplyEvent::Bound(Ok(())));
    assert!(matches!(a, StreamApplyAction::Commit { plan } if plan.rebind && !plan.swap_adapter));
    assert_eq!(s.config.port, 4001);
    assert_eq!(s.backend, 1);
}

#[test]
fn failed_rebind_keeps_previous_config() {
    let s = request(started(config("127.0.0.1", 4000, None, None)));
    let (s, _) = stream_apply_step(s, StreamApplyEvent::Fetched(Ok(config("127.0.0.1", 4001, None, None))));
    let (s, a) = stream_apply_step(s, StreamApplyEvent::Bound(Err("address in use".to_string())));
    match a {
        StreamApplyAction::Fail(f) => assert_eq!(f.message(), "address in use"),
        _ => panic!("expected a failure"),
    }
    assert_eq!(s.config.port, 4000);
    assert!(matches!(s.phase, ApplyPhase::Idle));
}

#[test]
fn adapter_swap_installs_the_built_backend() {
    let s = request(started(config("127.0.0.1", 4000, None, None)));
    let (s, a) = stream_apply_step(s, StreamApplyEvent::Fetched(Ok(config("127.0.0.1", 4000, None, Some("redis")))));
    assert!(matches!(a, StreamApplyAction::ResolveAdapter));
    let (s, a) = stream_apply_step(s, StreamApplyEvent::Resolved(Ok(2)));
    assert!(matches!(a, StreamApplyAction::Commit { plan } if plan.swap_adapter && !plan.rebind));
    assert_eq!(s.backend, 2);
    assert_eq!(s.config.adapter.as_ref().map(|a| a.name.as_str()), Some("redis"));
}

#[test]
fn adapter_and_address_change_commits_both_after_bind() {
    let s = request(started(config("127.0.0.1", 4000, None, None)));
    let (s, _) = stream_apply_step(s, StreamApplyEvent::Fetched(Ok(config("127.0.0.1", 4002, None, Some("redis")))));
    let (s, a) = stream_apply_step(s, StreamApplyEvent::Resolved(Ok(9)));
    assert!(matches!(a, StreamApplyAction::Bind));
    assert_eq!(s.backend, 1);
    let (s, a) = stream_apply_step(s, StreamApplyEvent::Bound(Ok(())));
    assert!(matches!(a, StreamApplyAction::Commit { plan } if plan.swap_adapter && plan.rebind));
    assert_eq!(s.backend, 9);
    assert_eq!(s.config.port, 4002);
}

#[test]
fn unresolvable_adapter_keeps_previous_config() {
    let s = request(started(config("127.0.0.1", 4000, None, None)));
    let (s, _) = stream_apply_step(s, StreamApplyEvent::Fetched(Ok(config("127.0.0.1", 4000, None, Some("does-not-exist")))));
    let (s, a) = stream_apply_step(s, StreamApplyEvent::Resolved(Err("stream adapter factory 'does-not-exist' not found".to_string())));
    assert!(matches!(a, StreamApplyAction::Fail(ApplyFailure::Resolve(_))));
    assert!(s.config.adapter.is_none());
    assert_eq!(s.backend, 1);
}

#[test]
fn malformed_value_keeps_previous_config() {
    let s = request(started(config("127.0.0.1", 4242, None, None)));
    let (s, a) = stream_apply_step(s, StreamApplyEvent::Fetched(Err("invalid type".to_string())));
    assert!(matches!(a, StreamApplyAction::Fail(ApplyFailure::Fetch(_))));
    assert_eq!(s.config.port, 4242);
}

#[test]
fn change_before_start_is_refused() {
    let s = stream_apply_initial(config("127.0.0.1", 4000, None, None), 1);
    let s = request(s);
    let (s, a) = stream_apply_step(s, StreamApplyEvent::Fetched(Ok(config("127.0.0.1", 4001, None, None))));
    match a {
        StreamApplyAction::Fail(f) => {
            assert!(matches!(f, ApplyFailure::NotStarted));
            assert_eq!(f.message(), "stream server was never started; cannot apply");
        }
        _ => panic!("expected a failure"),
    }
    assert_eq!(s.config.port, 4000);
}

#[test]
fn destroyed_worker_applies_nothing() {
    let s = started(config("127.0.0.1", 4000, None, None));
    let (s, a) = stream_apply_step(s, StreamApplyEvent::Destroyed);
    assert!(matches!(a, StreamApplyAction::Nothing));
    assert!(s.destroyed && !s.started);
    let (s, a) = stream_apply_step(s, StreamApplyEvent::Requested);
    assert!(matches!(a, StreamApplyAction::Nothing));
    assert!(matches!(s.phase, ApplyPhase::Idle));
    let (s, a) = stream_apply_step(s, StreamApplyEvent::Fetched(Ok(config("127.0.0.1", 4001, None, None))));
    assert!(matches!(a, StreamApplyAction::Nothing));
    assert_eq!(s.config.port, 4000);
}

#[test]
fn custom_function_answers_map_to_write_results() {
    let parsed = StreamWriteResult::Stored(StreamSetResult { old_value: None, new_value: text("v") });
    assert!(matches!(custom_write_result(Ok(Some(Ok(parsed)))), Ok(Ok(StreamWriteResult::Stored(_)))));
    match custom_write_result(Ok(Some(Err("missing field `new_value`".to_string())))) {
        Err(b) => {
            assert_eq!(b.code, "JSON_ERROR");
            assert_eq!(b.message, "Failed to convert result to value: missing field `new_value`");
        }
        _ => panic!("expected a JSON_ERROR answer"),
    }
    let none = custom_write_result(Ok(None));
    assert!(matches!(&none, Ok(Err(m)) if m == "Function returned no result"));
    // The failure then becomes the write's own error.
    let Ok(r) = none else { panic!("expected a write error") };
    match stream_op_outcome(StreamWriteOp::SetValue, r, "s", "g", "i", 1) {
        StreamOpOutcome::Failure(b) => {
            assert_eq!(b.code, "STREAM_SET_ERROR");
            assert_eq!(b.message, "Failed to set value: Function returned no result");
        }
        _ => panic!("expected a failure"),
    }
    let invoked = custom_write_result(Err("ErrorBody { code: \"X\" }".to_string()));
    assert!(matches!(&invoked, Ok(Err(m)) if m == "Failed to invoke function: ErrorBody { code: \"X\" }"));
    let b = input_conversion_failure("bad input");
    assert_eq!(b.code, "JSON_ERROR");
    assert_eq!(b.message, "Failed to convert input to value: bad input");
}

#[test]
fn read_failures_answer_their_error_codes() {
    let e = stream_read_outcome(StreamReadOp::Get, Err("get failed".to_string())).unwrap_err();
    assert_eq!((e.code.as_str(), e.message.as_str()), ("STREAM_GET_ERROR", "Failed to get value: get failed"));
    let e = stream_read_outcome(StreamReadOp::List, Err("group failed".to_string())).unwrap_err();
    assert_eq!((e.code.as_str(), e.message.as_str()), ("STREAM_GET_GROUP_ERROR", "Failed to get group: group failed"));
    let e = stream_read_outcome(StreamReadOp::ListGroups, Err("list groups failed".to_string())).unwrap_err();
    assert_eq!(
        (e.code.as_str(), e.message.as_str()),
        ("STREAM_LIST_GROUPS_ERROR", "Failed to list groups: list groups failed")
    );
    let ok = stream_read_outcome(StreamReadOp::Get, Ok(Some(text("x")))).unwrap();
    assert!(matches!(ok, Some(JsonValue::String(ref s)) if s == "x"));
    assert!(stream_read_outcome(StreamReadOp::Get, Ok(None)).unwrap().is_none());

    let all = stream_list_all_outcome(Ok(vec!["a", "b", "c"])).unwrap();
    assert_eq!(all.count, 3);
    assert_eq!(all.stream, vec!["a", "b", "c"]);
    let e = stream_list_all_outcome::<&str>(Err("list all failed".to_string())).unwrap_err();
    assert_eq!((e.code.as_str(), e.message.as_str()), ("STREAM_LIST_ALL_ERROR", "Failed to list stream: list all failed"));
}

#[test]
fn send_builds_a_custom_event_and_reports_emit_failures() {
    let m = send_event_message("s", "g", None, "typing".to_string(), text("x"), 9);
    assert_eq!(m.event_type, "stream");
    assert_eq!(m.event.kind, StreamEventKind::Event);
    assert_eq!(m.event.event_type.as_deref(), Some("typing"));
    assert!(m.id.is_none());
    assert!(send_outcome(Ok(())).is_ok());
    let e = send_outcome(Err("emit failed".to_string())).unwrap_err();
    assert_eq!((e.code.as_str(), e.message.as_str()), ("STREAM_SEND_ERROR", "Failed to send event: emit failed"));
}

#[test]
fn trigger_admits_checks_filter_then_condition() {
    let f = (Some("g".to_string()), None);
    assert_eq!(trigger_admits(&f, "g", &None, &None), (true, false));
    assert_eq!(trigger_admits(&f, "g", &None, &Some(Ok(false))), (false, false));
    assert_eq!(trigger_admits(&f, "g", &None, &Some(Err("x".to_string()))), (false, true));
    assert_eq!(trigger_admits(&f, "other", &None, &Some(Err("x".to_string()))), (false, false));
}

#[test]
fn fetched_stream_config_reads_or_falls_back() {
    let c = fetched_stream_config(Ok(None), config("0.0.0.0", 3112, None, None)).unwrap();
    assert_eq!(c.port, 3112);
    let c = fetched_stream_config(Ok(Some(Ok(config("127.0.0.1", 4000, None, None)))), config("0.0.0.0", 3112, None, None)).unwrap();
    assert_eq!(c.port, 4000);
    let e = fetched_stream_config(Ok(Some(Err("invalid port".to_string()))), config("0.0.0.0", 3112, None, None)).unwrap_err();
    assert_eq!(e, "stored `iii-stream` configuration is invalid: invalid port");
    let e = fetched_stream_config(Err("configuration::get failed: x (E)".to_string()), config("0.0.0.0", 3112, None, None)).unwrap_err();
    assert_eq!(e, "configuration::get failed: x (E)");
}

fn boot_to_binding(stored: StreamModuleConfig) -> StreamBootState {
    let (s, a) = stream_boot_start(config("127.0.0.1", 3112, None, None), Some(config("127.0.0.1", 3112, None, None)), 1);
    assert!(matches!(a, StreamBootAction::Register));
    let (s, a) = stream_boot_step(s, StreamBootEvent::Registered(Err("register timed out".to_string())));
    assert!(matches!(a, StreamBootAction::Fetch));
    let (s, a) = stream_boot_step(s, StreamBootEvent::Fetched(Ok(stored)));
    assert!(matches!(a, StreamBootAction::Bind));
    assert_eq!(s.phase, BootPhase::Binding);
    s
}

fn bind_error(stored_is_loopback: bool, seed_is_loopback: bool) -> BindFailure {
    BindFailure { message: "address in use".to_string(), stored_is_loopback, seed_is_loopback }
}

#[test]
fn boot_adopts_adapter_after_bind_and_starts_once_live() {
    let s = boot_to_binding(config("127.0.0.1", 4000, None, Some("redis")));
    assert!(!s.started);
    let (s, a) = stream_boot_step(s, StreamBootEvent::Bound(Ok(())));
    assert!(matches!(a, StreamBootAction::ResolveAdapter));
    assert_eq!(s.config.port, 4000);
    let (s, a) = stream_boot_step(s, StreamBootEvent::Resolved(Ok(7)));
    assert!(matches!(a, StreamBootAction::StartServer));
    assert_eq!(s.backend, 7);
    assert!(!s.started);
    let (s, a) = stream_boot_step(s, StreamBootEvent::ServerStarted);
    assert!(matches!(a, StreamBootAction::WatchConfig));
    assert!(s.started);
    let (s, a) = stream_boot_step(s, StreamBootEvent::WatchRegistered(Ok(())));
    assert!(matches!(a, StreamBootAction::CatchUp));
    assert_eq!(s.phase, BootPhase::Ready);
}

#[test]
fn boot_with_seed_adapter_starts_without_building() {
    let s = boot_to_binding(config("127.0.0.1", 4000, Some("auth::live"), None));
    let (s, a) = stream_boot_step(s, StreamBootEvent::Bound(Ok(())));
    assert!(matches!(a, StreamBootAction::StartServer));
    assert_eq!(s.backend, 1);
    // A build result while starting answers no step: nothing changes.
    let (s, a) = stream_boot_step(s, StreamBootEvent::Resolved(Ok(9)));
    assert!(matches!(a, StreamBootAction::Nothing));
    assert_eq!(s.backend, 1);
    assert_eq!(s.phase, BootPhase::Starting);
}

#[test]
fn boot_falls_back_to_seed_address_and_keeps_it() {
    let s = boot_to_binding(config("127.0.0.1", 4000, None, None));
    let (s, a) = stream_boot_step(s, StreamBootEvent::Bound(Err(bind_error(true, true))));
    assert!(matches!(a, StreamBootAction::Bind));
    assert_eq!(s.phase, BootPhase::BindingSeed);
    assert_eq!(s.config.port, 3112);
    // A second failure, on the seed's address, fails the boot.
    let (s, a) = stream_boot_step(s, StreamBootEvent::Bound(Err(bind_error(true, true))));
    assert!(matches!(a, StreamBootAction::Fail(ref m) if m == "address in use"));
    assert_eq!(s.phase, BootPhase::Failed);
    assert!(!s.started);
}

#[test]
fn boot_refuses_fallback_that_widens_loopback() {
    let s = boot_to_binding(config("127.0.0.1", 4000, None, None));
    let (s, a) = stream_boot_step(s, StreamBootEvent::Bound(Err(bind_error(true, false))));
    assert!(matches!(a, StreamBootAction::Fail(_)));
    assert_eq!(s.config.port, 4000);
}

#[test]
fn boot_resolve_failure_serves_seed_adapter_and_failed_watch_skips_catch_up() {
    let s = boot_to_binding(config("127.0.0.1", 4000, Some("auth"), Some("redis")));
    let (s, _) = stream_boot_step(s, StreamBootEvent::Bound(Ok(())));
    let (s, a) = stream_boot_step(s, StreamBootEvent::Resolved(Err("redis down".to_string())));
    assert!(matches!(a, StreamBootAction::StartServer));
    assert_eq!(s.config.port, 4000);
    assert_eq!(s.config.auth_function.as_deref(), Some("auth"));
    assert!(s.config.adapter.is_none());
    assert_eq!(s.backend, 1);
    let (s, _) = stream_boot_step(s, StreamBootEvent::ServerStarted);
    let (s, a) = stream_boot_step(s, StreamBootEvent::WatchRegistered(Err("no trigger".to_string())));
    assert!(matches!(a, StreamBootAction::Nothing));
    assert_eq!(s.phase, BootPhase::Ready);
}

#[test]
fn boot_keeps_static_config_when_fetch_fails() {
    let (s, _) = stream_boot_start(config("0.0.0.0", 3112, None, None), None, 1);
    let (s, _) = stream_boot_step(s, StreamBootEvent::Registered(Ok(())));
    let (s, a) = stream_boot_step(s, StreamBootEvent::Fetched(Err("timed out".to_string())));
    assert!(matches!(a, StreamBootAction::Bind));
    assert_eq!(s.config.port, 3112);
    // Without a seed a failed bind fails the boot.
    let (_, a) = stream_boot_step(s, StreamBootEvent::Bound(Err(bind_error(false, false))));
    assert!(matches!(a, StreamBootAction::Fail(_)));
}
