use iii_core::adapter::{effective_adapter, same_adapter, AdapterEntry};
use iii_core::cron_config::{cron_needs_adapter_swap, CronModuleConfig};
use iii_core::json::{JsonNumber, JsonValue};
use iii_core::queue_config::{
    default_backoff_ms, default_concurrency, default_max_retries, default_poll_interval_ms,
    default_queue_type, default_redis_url, FunctionQueueConfig, QueueConfigError,
    fetched_queue_config, QueueModuleConfig, DEFAULT_QUEUE_NAME,
};
use iii_core::rest_api_config::{CorsConfig, MiddlewareConfig, RestApiConfig};
use iii_core::stream_config::{
    custom_stream_ops, matching_triggers, stream_trigger_matches, stream_function_id, StreamOp,
    bind_fallback, boot_adapter_outdated, stream_apply_plan, BindFallback, StreamApplyPlan,
    StreamModuleConfig,
};

fn entry(name: &str, config: Option<JsonValue>) -> Option<AdapterEntry> {
    Some(AdapterEntry { name: name.to_string(), config })
}

fn queue(name: &str, config: FunctionQueueConfig) -> QueueModuleConfig {
    QueueModuleConfig::new(None, vec![(name.to_string(), config)])
}

#[test]
fn config_default_config() {
    let config = CronModuleConfig::default();
    assert!(config.adapter.is_none());

    let config = QueueModuleConfig::default();
    assert!(config.adapter().is_none());
    assert!(config.queue_configs().is_empty());
}

#[test]
fn ensure_default_queue_provisions_standard_queue_when_absent() {
    let mut config = QueueModuleConfig::default();
    config.ensure_default_queue();

    let default = config.queue(DEFAULT_QUEUE_NAME).expect("default queue should be provisioned");
    assert_eq!(default.queue_type, "standard");
    assert_eq!(default.concurrency, default_concurrency());
    assert_eq!(default.max_retries, default_max_retries());
    assert!(default.message_group_field.is_none());
    assert!(config.validate().is_ok());
}

#[test]
fn ensure_default_queue_preserves_explicit_user_config() {
    let mut config = queue(
        DEFAULT_QUEUE_NAME,
        FunctionQueueConfig {
            queue_type: "fifo".to_string(),
            message_group_field: Some("session_id".to_string()),
            max_retries: 9,
            concurrency: 1,
            ..Default::default()
        },
    );

    config.ensure_default_queue();

    let default = config.queue(DEFAULT_QUEUE_NAME).unwrap();
    assert_eq!(default.queue_type, "fifo");
    assert_eq!(default.max_retries, 9);
    assert_eq!(default.concurrency, 1);
    assert_eq!(default.message_group_field.as_deref(), Some("session_id"));
    assert_eq!(config.queue_configs().len(), 1);
}

#[test]
fn ensure_default_queue_is_idempotent() {
    let mut config = QueueModuleConfig::default();
    config.ensure_default_queue();
    config.ensure_default_queue();
    assert_eq!(config.queue_configs().len(), 1);
}

#[test]
fn default_redis_url_value() {
    assert_eq!(default_redis_url(), "redis://localhost:6379");
}

#[test]
fn function_queue_config_defaults() {
    let config = FunctionQueueConfig::default();
    assert_eq!(config.max_retries, 3);
    assert_eq!(config.concurrency, 10);
    assert_eq!(config.queue_type, "standard");
    assert!(config.message_group_field.is_none());
    assert_eq!(config.backoff_ms, 1000);
    assert_eq!(config.poll_interval_ms, 100);
}

#[test]
fn validate_fifo_without_group_field_fails() {
    let config = queue(
        "orders",
        FunctionQueueConfig {
            queue_type: "fifo".to_string(),
            message_group_field: None,
            ..Default::default()
        },
    );
    let result = config.validate();
    assert!(result.is_err());
    let err = result.unwrap_err().message();
    assert!(err.contains("orders"));
    assert!(err.contains("fifo"));
    assert!(err.contains("message_group_field"));
}

#[test]
fn validate_fifo_with_group_field_ok() {
    let config = queue(
        "orders",
        FunctionQueueConfig {
            queue_type: "fifo".to_string(),
            message_group_field: Some("order_id".to_string()),
            ..Default::default()
        },
    );
    assert!(config.validate().is_ok());
}

#[test]
fn validate_invalid_queue_type_fails() {
    let config = queue(
        "orders",
        FunctionQueueConfig { queue_type: "invalid_type".to_string(), ..Default::default() },
    );
    let result = config.validate();
    assert!(result.is_err());
    let err = result.unwrap_err().message();
    assert!(err.contains("invalid_type"));
}

#[test]
fn validate_zero_concurrency_fails() {
    let config = queue("orders", FunctionQueueConfig { concurrency: 0, ..Default::default() });
    let result = config.validate();
    assert!(result.is_err());
    let err = result.unwrap_err().message();
    assert!(err.contains("orders"));
    assert!(err.contains("concurrency"));
}

#[test]
fn validate_reports_first_invalid_queue_with_exact_messages() {
    let config = QueueModuleConfig::new(
        None,
        vec![
            ("a".to_string(), FunctionQueueConfig::default()),
            ("b".to_string(), FunctionQueueConfig { concurrency: 0, ..Default::default() }),
            ("c".to_string(), FunctionQueueConfig { queue_type: "x".to_string(), ..Default::default() }),
        ],
    );
    match config.validate() {
        Err(QueueConfigError::ZeroConcurrency { queue }) => assert_eq!(queue, "b"),
        other => panic!("unexpected {other:?}"),
    }
    let e = QueueConfigError::InvalidType { queue: "c".to_string(), queue_type: "x".to_string() };
    assert_eq!(e.message(), "Queue 'c' has invalid type 'x'. Must be 'standard' or 'fifo'");
    let e = QueueConfigError::FifoWithoutGroupField { queue: "o".to_string() };
    assert_eq!(e.message(), "Queue 'o' is of type 'fifo' but 'message_group_field' is not set");
    let e = QueueConfigError::ZeroConcurrency { queue: "b".to_string() };
    assert_eq!(e.message(), "Queue 'b' has 'concurrency' 0; it must be at least 1");
    // A type check comes before the fifo and concurrency checks.
    let bad = queue("q", FunctionQueueConfig { queue_type: "FIFO".to_string(), concurrency: 0, ..Default::default() });
    assert!(matches!(bad.validate(), Err(QueueConfigError::InvalidType { .. })));
}

#[test]
fn queue_defaults_and_lookup() {
    assert_eq!(default_queue_type(), "standard");
    assert_eq!(default_backoff_ms(), 1000);
    assert_eq!(default_poll_interval_ms(), 100);
    // A name listed again replaces its earlier settings, as in a map.
    let config = QueueModuleConfig::new(
        None,
        vec![
            ("x".to_string(), FunctionQueueConfig { max_retries: 1, ..Default::default() }),
            ("z".to_string(), FunctionQueueConfig { max_retries: 5, ..Default::default() }),
            ("x".to_string(), FunctionQueueConfig { max_retries: 2, ..Default::default() }),
        ],
    );
    assert_eq!(config.queue_configs().len(), 2);
    assert_eq!(config.queue("x").unwrap().max_retries, 2);
    assert_eq!(config.queue("z").unwrap().max_retries, 5);
    assert!(config.queue("y").is_none());
}

#[test]
fn rest_api_config_default_values() {
    let config = RestApiConfig::default();
    assert_eq!(config.port, 3111);
    assert_eq!(config.host, "0.0.0.0");
    assert_eq!(config.default_timeout, 30000);
    assert!(config.cors.is_none());
    assert_eq!(config.concurrency_request_limit, 1024);
}

#[test]
fn cors_config_default() {
    let cors = CorsConfig::default();
    assert!(cors.allowed_origins.is_empty());
    assert!(cors.allowed_methods.is_empty());
}

fn mw(id: &str, priority: i64) -> MiddlewareConfig {
    MiddlewareConfig { function_id: id.to_string(), phase: "preHandler".to_string(), priority }
}

#[test]
fn normalized_clamps_zero_concurrency_limit() {
    let config = RestApiConfig { concurrency_request_limit: 0, ..RestApiConfig::default() };
    assert_eq!(config.normalized().concurrency_request_limit, 1);
}

#[test]
fn rest_api_config_middleware_pre_sorted() {
    let config = RestApiConfig {
        middleware: vec![mw("fn::c", 30), mw("fn::a", 10), mw("fn::b", 20)],
        ..RestApiConfig::default()
    };
    let config = config.normalized();
    assert_eq!(config.middleware[0].function_id, "fn::a");
    assert_eq!(config.middleware[1].function_id, "fn::b");
    assert_eq!(config.middleware[2].function_id, "fn::c");
}

#[test]
fn middleware_config_defaults_phase_and_priority() {
    assert_eq!(iii_core::rest_api_config::default_phase(), "preHandler");
}

#[test]
fn normalized_sort_is_stable_and_idempotent() {
    let config = RestApiConfig {
        middleware: vec![mw("b1", 5), mw("a", -3), mw("b2", 5), mw("c", 0), mw("b3", 5)],
        concurrency_request_limit: 7,
        ..RestApiConfig::default()
    };
    let once = config.normalized();
    let ids: Vec<&str> = once.middleware.iter().map(|m| m.function_id.as_str()).collect();
    assert_eq!(ids, vec!["a", "c", "b1", "b2", "b3"]);
    assert_eq!(once.concurrency_request_limit, 7);
    let twice = once.clone().normalized();
    let ids2: Vec<&str> = twice.middleware.iter().map(|m| m.function_id.as_str()).collect();
    assert_eq!(ids2, vec!["a", "c", "b1", "b2", "b3"]);
}

#[test]
fn default_values() {
    let config = StreamModuleConfig::default();
    assert_eq!(config.port, 3112);
    assert_eq!(config.host, "0.0.0.0");
    assert!(config.auth_function.is_none());
    assert!(config.adapter.is_none());
}

#[test]
fn stream_effective_adapter_treats_none_as_default() {
    let none = StreamModuleConfig::default();
    let explicit = StreamModuleConfig {
        adapter: entry(iii_core::stream_config::DEFAULT_ADAPTER_NAME, None),
        ..StreamModuleConfig::default()
    };
    assert!(same_adapter(&none.adapter, &explicit.adapter, iii_core::stream_config::DEFAULT_ADAPTER_NAME));
    let other = StreamModuleConfig { adapter: entry("redis", None), ..StreamModuleConfig::default() };
    assert!(!same_adapter(&none.adapter, &other.adapter, iii_core::stream_config::DEFAULT_ADAPTER_NAME));
}

#[test]
fn pubsub_effective_adapter_treats_none_as_default() {
    let none: Option<AdapterEntry> = None;
    let local = entry("local", None);
    assert!(same_adapter(&none, &local, "local"));
    let redis = entry("redis", None);
    assert!(!same_adapter(&none, &redis, "local"));
}

#[test]
fn effective_adapter_fills_default_name() {
    let config = CronModuleConfig::default();
    assert_eq!(effective_adapter(&config.adapter, iii_core::cron_config::DEFAULT_ADAPTER_NAME).0, "kv");
}

#[test]
fn default_adapter_name() {
    assert_eq!(iii_core::cron_config::DEFAULT_ADAPTER_NAME, "kv");
    assert_eq!(iii_core::stream_config::DEFAULT_ADAPTER_NAME, "kv");
}

#[test]
fn adapter_config_changes_are_detected() {
    let a = entry("kv", Some(JsonValue::Object(vec![("interval".to_string(), JsonValue::Number(JsonNumber::PosInt(60)))])));
    let b = entry("kv", Some(JsonValue::Object(vec![("interval".to_string(), JsonValue::Number(JsonNumber::PosInt(60)))])));
    let c = entry("kv", Some(JsonValue::Object(vec![("interval".to_string(), JsonValue::Number(JsonNumber::PosInt(61)))])));
    assert!(same_adapter(&a, &b, "kv"));
    assert!(!same_adapter(&a, &c, "kv"));
    assert!(!same_adapter(&a, &None, "kv"));
    let (name, config) = effective_adapter(&a, "kv");
    assert_eq!(name, "kv");
    assert!(config.is_some());
    let zero = entry("kv", Some(JsonValue::Number(JsonNumber::Float(0))));
    let neg_zero = entry("kv", Some(JsonValue::Number(JsonNumber::Float(0x8000_0000_0000_0000))));
    assert!(same_adapter(&zero, &neg_zero, "kv"));
    let cron_old = CronModuleConfig::default();
    let cron_new = CronModuleConfig { adapter: entry("redis", None) };
    assert!(cron_needs_adapter_swap(&cron_old, &cron_new));
    assert!(!cron_needs_adapter_swap(&cron_old, &CronModuleConfig { adapter: entry("kv", None) }));
}

#[test]
fn stream_apply_plan_and_boot_decisions() {
    let old = StreamModuleConfig::default();
    let auth_only = StreamModuleConfig { auth_function: Some("auth".to_string()), ..StreamModuleConfig::default() };
    assert_eq!(stream_apply_plan(&old, &auth_only), StreamApplyPlan { rebind: false, swap_adapter: false });
    let moved = StreamModuleConfig { port: 4000, ..StreamModuleConfig::default() };
    assert_eq!(stream_apply_plan(&old, &moved), StreamApplyPlan { rebind: true, swap_adapter: false });
    let redis = StreamModuleConfig { adapter: entry("redis", None), host: "127.0.0.1".to_string(), ..StreamModuleConfig::default() };
    assert_eq!(stream_apply_plan(&old, &redis), StreamApplyPlan { rebind: true, swap_adapter: true });

    let stored = StreamModuleConfig { host: "127.0.0.1".to_string(), port: 9000, ..StreamModuleConfig::default() };
    let seed = StreamModuleConfig::default();
    assert_eq!(bind_fallback(&stored, None, true, false), BindFallback::Fail);
    assert_eq!(bind_fallback(&stored, Some(&seed), true, false), BindFallback::Fail);
    assert_eq!(bind_fallback(&stored, Some(&seed), false, false), BindFallback::ServeSeed);
    assert_eq!(bind_fallback(&seed, Some(&seed), false, false), BindFallback::Fail);
    let local_seed = StreamModuleConfig { host: "localhost".to_string(), ..StreamModuleConfig::default() };
    assert_eq!(bind_fallback(&stored, Some(&local_seed), true, true), BindFallback::ServeSeed);

    assert!(boot_adapter_outdated(None, &seed));
    assert!(!boot_adapter_outdated(Some(&seed), &StreamModuleConfig::default()));
    assert!(boot_adapter_outdated(Some(&seed), &redis));
}

#[test]
fn stream_function_ids_for_custom_streams() {
    let ids: Vec<String> = custom_stream_ops().into_iter().map(|op| stream_function_id(op, "chat")).collect();
    assert_eq!(
        ids,
        vec!["stream::get(chat)", "stream::set(chat)", "stream::delete(chat)", "stream::list(chat)", "stream::list_groups(chat)"]
    );
    assert_eq!(stream_function_id(StreamOp::SetValue, ""), "stream::set()");
}

#[test]
fn stream_triggers_filter_by_group_and_item() {
    let some = |s: &str| Some(s.to_string());
    assert!(stream_trigger_matches(&None, &None, "g", &None));
    assert!(stream_trigger_matches(&some(""), &some(""), "g", &some("i")));
    assert!(stream_trigger_matches(&some("g"), &None, "g", &some("i")));
    assert!(!stream_trigger_matches(&some("h"), &None, "g", &some("i")));
    assert!(stream_trigger_matches(&None, &some("i"), "g", &some("i")));
    assert!(!stream_trigger_matches(&None, &some("i"), "g", &None));
    assert!(!stream_trigger_matches(&some("g"), &some("x"), "g", &some("i")));
    let filters = vec![(None, None), (some("h"), None), (some("g"), some("i")), (None, some("j"))];
    assert_eq!(matching_triggers(&filters, "g", &some("i")), vec![0, 2]);
    assert!(matching_triggers(&[], "g", &None).is_empty());
}

#[test]
fn fetched_queue_config_provisions_default_and_reports_invalid_values() {
    // Nothing stored: the static configuration, with the default queue.
    let fallback = queue("orders", FunctionQueueConfig::default());
    let c = fetched_queue_config(Ok(None), fallback).unwrap();
    assert!(c.queue("orders").is_some());
    assert!(c.queue(DEFAULT_QUEUE_NAME).is_some());
    assert_eq!(c.queue_configs().len(), 2);
    // A stored value: it replaces the static one, with the default queue.
    let stored = queue("payments", FunctionQueueConfig { max_retries: 7, ..Default::default() });
    let c = fetched_queue_config(Ok(Some(Ok(stored))), QueueModuleConfig::default()).unwrap();
    assert_eq!(c.queue("payments").unwrap().max_retries, 7);
    assert!(c.queue(DEFAULT_QUEUE_NAME).is_some());
    // A stored value that does not parse.
    let err = fetched_queue_config(Ok(Some(Err("invalid type: string".to_string()))), QueueModuleConfig::default())
        .unwrap_err();
    assert_eq!(err, "stored `iii-queue` configuration is invalid: invalid type: string");
    // A failed read keeps its error.
    let err = fetched_queue_config(Err("configuration::get failed: boom (E)".to_string()), QueueModuleConfig::default())
        .unwrap_err();
    assert_eq!(err, "configuration::get failed: boom (E)");
}
