use iii_core::json::JsonValue;
use iii_core::trigger_config::{check_publish_topic, cron_trigger_spec, pubsub_topic, CronTriggerError};

fn obj(members: Vec<(&str, JsonValue)>) -> JsonValue {
    JsonValue::Object(members.into_iter().map(|(k, v)| (k.to_string(), v)).collect())
}

fn s(x: &str) -> JsonValue {
    JsonValue::String(x.to_string())
}

#[test]
fn register_trigger_without_topic_skips_subscription() {
    assert_eq!(pubsub_topic(&obj(vec![])), "");
    assert_eq!(pubsub_topic(&obj(vec![("topic", JsonValue::Bool(true))])), "");
    assert_eq!(pubsub_topic(&obj(vec![("topic", s("orders"))])), "orders");
    assert_eq!(pubsub_topic(&JsonValue::Null), "");
}

#[test]
fn publish_requires_a_topic() {
    let r = check_publish_topic("").unwrap();
    assert_eq!(r.code, "topic_not_set");
    assert_eq!(r.message, "Topic is not set");
    assert!(check_publish_topic("t").is_none());
}

#[test]
fn cron_trigger_requires_expression() {
    assert_eq!(cron_trigger_spec(&obj(vec![])).unwrap_err(), CronTriggerError::MissingExpression);
    assert_eq!(cron_trigger_spec(&obj(vec![("expression", s(""))])).unwrap_err(), CronTriggerError::MissingExpression);
    assert_eq!(CronTriggerError::MissingExpression.message(), "Cron expression is required");
    let spec = cron_trigger_spec(&obj(vec![("expression", s("*/5 * * * * *")), ("condition_function_id", s("cond"))])).unwrap();
    assert_eq!(spec.expression, "*/5 * * * * *");
    assert_eq!(spec.condition_function_id.as_deref(), Some("cond"));
    let spec = cron_trigger_spec(&obj(vec![("expression", s("0 * * * * *")), ("condition_function_id", JsonValue::Null)])).unwrap();
    assert!(spec.condition_function_id.is_none());
}
