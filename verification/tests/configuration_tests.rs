use iii_core::configuration::{
    config_trigger, get_request, invalid_stored_value_message, on_apply_result, queue_config_entry,
    read_stored_value, register_failure_message, register_initial_value, register_payload,
    register_request, stream_config_entry, ApplyResult, ChangeFollowUp, StoredValue,
};
use iii_core::json::{JsonNumber, JsonValue};

fn keys(v: &JsonValue) -> Vec<String> {
    match v {
        JsonValue::Object(ms) => ms.iter().map(|(k, _)| k.clone()).collect(),
        _ => vec![],
    }
}

#[test]
fn registration_payload_includes_initial_value_only_when_given() {
    let e = queue_config_entry();
    assert_eq!(e.id, "iii-queue");
    let with = register_payload(e, JsonValue::Object(vec![]), Some(JsonValue::Null));
    assert_eq!(keys(&with), vec!["id", "name", "description", "schema", "initial_value"]);
    let without = register_payload(stream_config_entry(), JsonValue::Bool(true), None);
    assert_eq!(keys(&without), vec!["id", "name", "description", "schema"]);
    match &without {
        JsonValue::Object(ms) => {
            assert!(matches!(&ms[0].1, JsonValue::String(s) if s == "iii-stream"));
            assert!(matches!(&ms[1].1, JsonValue::String(s) if s == "Stream"));
        }
        _ => panic!("object expected"),
    }
}

#[test]
fn change_trigger_watches_the_entry() {
    let t = config_trigger(queue_config_entry());
    assert_eq!(t.id, "iii-queue::config-watch");
    assert_eq!(t.trigger_type, "configuration");
    assert_eq!(t.function_id, "iii-queue::on-config-change");
    assert_eq!(keys(&t.config), vec!["configuration_id", "event_types"]);
    assert_eq!(keys(&get_request(stream_config_entry())), vec!["id"]);
}

#[test]
fn stored_value_reading() {
    let body = |v: JsonValue| Ok(Some(JsonValue::Object(vec![("id".to_string(), JsonValue::Null), ("value".to_string(), v)])));
    assert!(matches!(read_stored_value(body(JsonValue::Number(JsonNumber::PosInt(1)))), StoredValue::Present(JsonValue::Number(JsonNumber::PosInt(1)))));
    assert!(matches!(read_stored_value(body(JsonValue::Null)), StoredValue::Absent));
    assert!(matches!(read_stored_value(Ok(Some(JsonValue::Object(vec![])))), StoredValue::Absent));
    assert!(matches!(read_stored_value(Ok(None)), StoredValue::Absent));
    assert!(matches!(read_stored_value(Err(("NOT_FOUND".to_string(), "x".to_string()))), StoredValue::Absent));
    match read_stored_value(Err(("TIMEOUT".to_string(), "slow".to_string()))) {
        StoredValue::Failed(m) => assert_eq!(m, "configuration::get failed: slow (TIMEOUT)"),
        _ => panic!("failure expected"),
    }
    assert_eq!(
        invalid_stored_value_message(queue_config_entry(), "bad"),
        "stored `iii-queue` configuration is invalid: bad"
    );
}

fn seed_json() -> JsonValue {
    JsonValue::Object(vec![("port".to_string(), JsonValue::Number(JsonNumber::PosInt(4242)))])
}

#[test]
fn register_seeds_initial_value_only_when_nothing_stored() {
    assert!(register_initial_value(&StoredValue::Absent, seed_json()).is_some());
    let stored = StoredValue::Present(JsonValue::Number(JsonNumber::PosInt(9999)));
    assert!(register_initial_value(&stored, seed_json()).is_none());

    let e = queue_config_entry();
    let seeded = register_request(e, &StoredValue::Absent, JsonValue::Bool(true), seed_json()).unwrap();
    assert_eq!(keys(&seeded), vec!["id", "name", "description", "schema", "initial_value"]);
    match &seeded {
        JsonValue::Object(ms) => {
            assert!(matches!(&ms[0].1, JsonValue::String(id) if id == "iii-queue"));
            assert!(matches!(&ms[4].1, JsonValue::Object(m) if m[0].0 == "port"));
        }
        _ => panic!("expected an object"),
    }
    // A stored value is never overwritten.
    let kept = register_request(e, &stored, JsonValue::Bool(true), seed_json()).unwrap();
    assert_eq!(keys(&kept), vec!["id", "name", "description", "schema"]);
    // A failed read fails the registration.
    let failed = StoredValue::Failed("configuration::get failed: down (E)".to_string());
    assert_eq!(
        register_request(e, &failed, JsonValue::Bool(true), seed_json()).unwrap_err(),
        "configuration::get failed: down (E)"
    );
    assert_eq!(register_failure_message("nope", "E42"), "configuration::register failed: nope (E42)");
}

#[test]
fn timed_out_apply_is_retried_once() {
    assert_eq!(on_apply_result(false, ApplyResult::TimedOut), ChangeFollowUp::RetryLater);
    assert_eq!(on_apply_result(true, ApplyResult::TimedOut), ChangeFollowUp::Done);
    assert_eq!(on_apply_result(false, ApplyResult::Failed), ChangeFollowUp::Done);
    assert_eq!(on_apply_result(false, ApplyResult::Applied), ChangeFollowUp::Done);
}
