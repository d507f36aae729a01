use iii_core::digits::{decimal_string, signed_decimal_string};
use iii_core::json::{JsonNumber, JsonValue};
use iii_core::otlp_json::{
    anyvalue_to_json, attr_value_to_json, attrs_to_json, bytes_to_hex, bytes_to_hex_str,
    log_record_to_json, logs_payload_json, nanos_string, opt_time_nanos,
    system_time_nanos, system_time_to_nanos_string, AnyValue, AttrValue, Attribute, LogRecordData,
};
use iii_core::otlp_metrics::{
    metrics_payload_json, serialize_metric, temporality_value, HistogramPoint, MetricData,
    MetricRecord, NumberPoint, NumberValue, ScopeMetricsData, Temporality,
};
use iii_core::ws_connection::{
    effective_initial_delay_ms, collect_pending, frame_message, jitter_seed, xorshift64, ConnectOutcome, ConnectionState,
    OtelMessage, ReconnectLoop,
};
use std::time::{Duration, UNIX_EPOCH};

fn render(v: &JsonValue) -> String {
    match v {
        JsonValue::Null => "null".to_string(),
        JsonValue::Bool(b) => b.to_string(),
        JsonValue::Number(JsonNumber::PosInt(n)) => n.to_string(),
        JsonValue::Number(JsonNumber::NegInt(n)) => n.to_string(),
        JsonValue::Number(JsonNumber::Float(bits)) => format!("{:?}", f64::from_bits(*bits)),
        JsonValue::String(s) => format!("\"{s}\""),
        JsonValue::Array(xs) => {
            format!("[{}]", xs.iter().map(render).collect::<Vec<_>>().join(","))
        }
        JsonValue::Object(ms) => format!(
            "{{{}}}",
            ms.iter().map(|(k, v)| format!("\"{k}\":{}", render(v))).collect::<Vec<_>>().join(",")
        ),
    }
}

fn attr(key: &str, value: AttrValue) -> Attribute {
    Attribute { key: key.to_string(), value }
}

#[test]
fn decimal_rendering() {
    assert_eq!(decimal_string(0), "0");
    assert_eq!(decimal_string(1_500_000_000), "1500000000");
    assert_eq!(decimal_string(u128::MAX), u128::MAX.to_string());
    assert_eq!(signed_decimal_string(-42), "-42");
    assert_eq!(signed_decimal_string(i64::MIN), i64::MIN.to_string());
    assert_eq!(signed_decimal_string(i64::MAX), i64::MAX.to_string());
}

#[test]
fn hex_rendering_is_lowercase_two_digits_per_byte() {
    assert_eq!(bytes_to_hex(&[0x00, 0x0f, 0xab, 0xff]), "000fabff");
    assert_eq!(bytes_to_hex_str(&[0x10, 0x9a]), "109a");
    assert_eq!(bytes_to_hex(&[]), "");
}

#[test]
fn timestamps_in_nanoseconds() {
    assert_eq!(system_time_to_nanos_string(UNIX_EPOCH + Duration::from_millis(1500)), "1500000000");
    assert_eq!(system_time_to_nanos_string(UNIX_EPOCH - Duration::from_secs(1)), "0");
    assert_eq!(opt_time_nanos(None), "0");
    assert_eq!(opt_time_nanos(Some(UNIX_EPOCH + Duration::from_nanos(7))), "7");
    assert_eq!(nanos_string(Some(12)), "12");
    assert_eq!(nanos_string(None), "0");
}

#[test]
fn attribute_values_keep_integers_as_numbers() {
    assert_eq!(render(&attr_value_to_json(&AttrValue::I64(-5))), "{\"intValue\":-5}");
    assert_eq!(render(&attr_value_to_json(&AttrValue::I64(7))), "{\"intValue\":7}");
    assert_eq!(render(&attr_value_to_json(&AttrValue::Bool(true))), "{\"boolValue\":true}");
    assert_eq!(
        render(&attr_value_to_json(&AttrValue::F64(1.5f64.to_bits()))),
        "{\"doubleValue\":1.5}"
    );
    assert_eq!(
        render(&attr_value_to_json(&AttrValue::F64(f64::NAN.to_bits()))),
        "{\"doubleValue\":null}"
    );
    assert_eq!(
        render(&attr_value_to_json(&AttrValue::String("x".to_string()))),
        "{\"stringValue\":\"x\"}"
    );
    assert_eq!(
        render(&attr_value_to_json(&AttrValue::I64Array(vec![1, -2]))),
        "{\"arrayValue\":{\"values\":[{\"intValue\":1},{\"intValue\":-2}]}}"
    );
    assert_eq!(
        render(&attr_value_to_json(&AttrValue::OtherArray)),
        "{\"arrayValue\":{\"values\":[]}}"
    );
    assert_eq!(
        render(&attr_value_to_json(&AttrValue::Other("V(1)".to_string()))),
        "{\"stringValue\":\"V(1)\"}"
    );
    let list = attrs_to_json(&[attr("a", AttrValue::Bool(false)), attr("b", AttrValue::StringArray(vec!["p".to_string()]))]);
    assert_eq!(
        list.iter().map(render).collect::<Vec<_>>(),
        vec![
            "{\"key\":\"a\",\"value\":{\"boolValue\":false}}".to_string(),
            "{\"key\":\"b\",\"value\":{\"arrayValue\":{\"values\":[{\"stringValue\":\"p\"}]}}}".to_string(),
        ]
    );
}

#[test]
fn log_values_nest_lists_maps_and_bytes() {
    let v = AnyValue::KvList(vec![
        ("k".to_string(), AnyValue::ListAny(vec![AnyValue::Int(1), AnyValue::Bytes(vec![0xde, 0xad])])),
        ("d".to_string(), AnyValue::Double(2.0f64.to_bits())),
    ]);
    assert_eq!(
        render(&anyvalue_to_json(&v)),
        "{\"kvlistValue\":{\"values\":[{\"key\":\"k\",\"value\":{\"arrayValue\":{\"values\":[{\"intValue\":1},{\"bytesValue\":\"dead\"}]}}},{\"key\":\"d\",\"value\":{\"doubleValue\":2.0}}]}}"
    );
}

fn record(scope: &str, trace: Option<Vec<u8>>, span: Option<Vec<u8>>, body: Option<AnyValue>) -> LogRecordData {
    LogRecordData {
        scope_name: scope.to_string(),
        scope_version: None,
        trace_id: trace,
        span_id: span,
        timestamp_nanos: Some(5),
        observed_timestamp_nanos: None,
        severity_number: Some(9),
        severity_text: Some("INFO".to_string()),
        body,
        attributes: vec![("k".to_string(), AnyValue::String("v".to_string()))],
    }
}

#[test]
fn log_record_ids_are_written_only_when_set() {
    let with_ids = record("s", Some(vec![0; 15].into_iter().chain([1u8]).collect()), Some(vec![0xab; 8]), Some(AnyValue::String("hi".to_string())));
    assert_eq!(
        render(&log_record_to_json(&with_ids)),
        "{\"timeUnixNano\":\"5\",\"observedTimeUnixNano\":\"0\",\"severityNumber\":9,\"severityText\":\"INFO\",\"body\":{\"stringValue\":\"hi\"},\"attributes\":[{\"key\":\"k\",\"value\":{\"stringValue\":\"v\"}}],\"traceId\":\"00000000000000000000000000000001\",\"spanId\":\"abababababababab\"}"
    );
    let zero_ids = record("s", Some(vec![0; 16]), Some(vec![0; 8]), None);
    assert_eq!(
        render(&log_record_to_json(&zero_ids)),
        "{\"timeUnixNano\":\"5\",\"observedTimeUnixNano\":\"0\",\"severityNumber\":9,\"severityText\":\"INFO\",\"body\":{\"stringValue\":\"\"},\"attributes\":[{\"key\":\"k\",\"value\":{\"stringValue\":\"v\"}}]}"
    );
}

#[test]
fn log_batches_group_by_scope_in_order() {
    assert!(logs_payload_json(&[], &[]).is_none());
    let rs = vec![
        record("a", None, None, Some(AnyValue::Int(1))),
        record("b", None, None, Some(AnyValue::Int(2))),
        record("a", None, None, Some(AnyValue::Int(3))),
    ];
    let payload = logs_payload_json(&[attr("service.name", AttrValue::String("svc".to_string()))], &rs).unwrap();
    let text = render(&payload);
    assert!(text.starts_with("{\"resourceLogs\":[{\"resource\":{\"attributes\":[{\"key\":\"service.name\",\"value\":{\"stringValue\":\"svc\"}}]},\"scopeLogs\":[{\"scope\":{\"name\":\"a\",\"version\":\"\"},\"logRecords\":["));
    let a_pos = text.find("\"name\":\"a\"").unwrap();
    let b_pos = text.find("\"name\":\"b\"").unwrap();
    assert!(a_pos < b_pos);
    assert_eq!(text.matches("\"scope\":").count(), 2);
    let first_group = &text[a_pos..b_pos];
    assert!(first_group.contains("{\"intValue\":1}") && first_group.contains("{\"intValue\":3}"));
    assert!(!first_group.contains("{\"intValue\":2}"));
}

fn point(value: NumberValue, exemplars: usize) -> NumberPoint {
    NumberPoint { attributes: vec![attr("k", AttrValue::I64(1))], value, exemplar_count: exemplars }
}

#[test]
fn metrics_serialize_sums_gauges_histograms() {
    assert_eq!(temporality_value(Temporality::Delta), 1);
    assert_eq!(temporality_value(Temporality::Cumulative), 2);
    assert_eq!(temporality_value(Temporality::Other), 1);

    let sum = MetricRecord {
        name: "requests".to_string(),
        description: "d".to_string(),
        unit: "1".to_string(),
        data: MetricData::Sum {
            points: vec![point(NumberValue::F64(2.5f64.to_bits()), 2), point(NumberValue::I64(-3), 1)],
            start_nanos: Some(1),
            time_nanos: None,
            temporality: Temporality::Cumulative,
            is_monotonic: true,
        },
    };
    assert_eq!(
        render(&serialize_metric(&sum)),
        "{\"name\":\"requests\",\"description\":\"d\",\"unit\":\"1\",\"sum\":{\"dataPoints\":[{\"attributes\":[{\"key\":\"k\",\"value\":{\"intValue\":1}}],\"startTimeUnixNano\":\"1\",\"timeUnixNano\":\"0\",\"asDouble\":2.5,\"exemplars\":[{},{}]},{\"attributes\":[{\"key\":\"k\",\"value\":{\"intValue\":1}}],\"startTimeUnixNano\":\"1\",\"timeUnixNano\":\"0\",\"asInt\":\"-3\"}],\"aggregationTemporality\":2,\"isMonotonic\":true}}"
    );

    let gauge = MetricRecord {
        name: "g".to_string(),
        description: String::new(),
        unit: "By".to_string(),
        data: MetricData::Gauge { points: vec![point(NumberValue::U64(u64::MAX), 3)], start_nanos: None, time_nanos: Some(9) },
    };
    assert_eq!(
        render(&serialize_metric(&gauge)),
        "{\"name\":\"g\",\"description\":\"\",\"unit\":\"By\",\"gauge\":{\"dataPoints\":[{\"attributes\":[{\"key\":\"k\",\"value\":{\"intValue\":1}}],\"startTimeUnixNano\":\"0\",\"timeUnixNano\":\"9\",\"asInt\":\"18446744073709551615\"}]}}"
    );

    let hist = MetricRecord {
        name: "h".to_string(),
        description: String::new(),
        unit: "s".to_string(),
        data: MetricData::Histogram {
            points: vec![HistogramPoint {
                attributes: vec![],
                count: 3,
                sum: 0.75f64.to_bits(),
                bucket_counts: vec![1, 2],
                bounds: vec![0.5f64.to_bits()],
                min: Some(0.125f64.to_bits()),
                max: None,
            }],
            start_nanos: Some(2),
            time_nanos: Some(3),
            temporality: Temporality::Delta,
        },
    };
    assert_eq!(
        render(&serialize_metric(&hist)),
        "{\"name\":\"h\",\"description\":\"\",\"unit\":\"s\",\"histogram\":{\"dataPoints\":[{\"attributes\":[],\"startTimeUnixNano\":\"2\",\"timeUnixNano\":\"3\",\"count\":\"3\",\"sum\":0.75,\"bucketCounts\":[\"1\",\"2\"],\"explicitBounds\":[0.5],\"min\":0.125,\"max\":null}],\"aggregationTemporality\":1}}"
    );

    let other = MetricRecord { name: "o".to_string(), description: "x".to_string(), unit: String::new(), data: MetricData::Other };
    assert_eq!(render(&serialize_metric(&other)), "{\"name\":\"o\",\"description\":\"x\",\"unit\":\"\"}");

    let payload = metrics_payload_json(
        &[],
        &[ScopeMetricsData { scope_name: "lib".to_string(), scope_version: Some("1.0".to_string()), metrics: vec![other] }],
    );
    assert_eq!(
        render(&payload),
        "{\"resourceMetrics\":[{\"resource\":{\"attributes\":[]},\"scopeMetrics\":[{\"scope\":{\"name\":\"lib\",\"version\":\"1.0\"},\"metrics\":[{\"name\":\"o\",\"description\":\"x\",\"unit\":\"\"}]}]}]}"
    );
}

fn msg(prefix: &'static [u8], byte: u8) -> OtelMessage {
    OtelMessage { prefix, data: vec![byte] }
}

#[test]
fn frames_and_bounded_backlog() {
    let m = OtelMessage { prefix: b"LOGS", data: vec![1, 2] };
    assert_eq!(frame_message(&m), b"LOGS\x01\x02".to_vec());

    let mut pending = vec![msg(b"OTLP", 0)];
    let dropped = collect_pending(&mut pending, vec![msg(b"MTRC", 1), msg(b"MTRC", 2), msg(b"MTRC", 3)], 3);
    assert_eq!(dropped, 1);
    assert_eq!(pending.iter().map(|m| m.data[0]).collect::<Vec<_>>(), vec![0, 1, 2]);
    let dropped = collect_pending(&mut pending, vec![msg(b"LOGS", 4)], 3);
    assert_eq!(dropped, 1);
    assert_eq!(pending.len(), 3);
    let mut empty_cap = Vec::new();
    assert_eq!(collect_pending(&mut empty_cap, vec![msg(b"LOGS", 5)], 0), 1);
    assert!(empty_cap.is_empty());
}

#[test]
fn reconnect_loop_states_and_budget() {
    let mut l = ReconnectLoop::new(Some(2));
    assert_eq!(l.attempt_state(), ConnectionState::Connecting);
    assert_eq!(l.backoff_exponent(), 0);
    l.record(ConnectOutcome::Failed);
    assert_eq!(l.attempt_state(), ConnectionState::Reconnecting);
    assert!(!l.gives_up());
    assert_eq!(l.backoff_exponent(), 0);
    l.record(ConnectOutcome::Failed);
    assert!(l.gives_up());
    assert_eq!(l.backoff_exponent(), 1);
    l.record(ConnectOutcome::Connected);
    assert_eq!(l.retry_count, 0);
    assert_eq!(l.attempt_state(), ConnectionState::Connecting);
    let forever = ReconnectLoop { retry_count: 1000, max_retries: None };
    assert!(!forever.gives_up());
    assert_eq!(forever.backoff_exponent(), 63);
}

#[test]
fn jitter_generator_matches_xorshift64() {
    let mut s: u64 = 0x0123_4567_89ab_cdef;
    let expected = {
        s ^= s << 13;
        s ^= s >> 7;
        s ^= s << 17;
        s
    };
    assert_eq!(xorshift64(0x0123_4567_89ab_cdef), expected);
    assert_eq!(jitter_seed(None, 0), 0x517cc1b727220a95 ^ 0x6a09e667f3bcc908);
    assert_eq!(jitter_seed(Some(5), 3), 5 ^ 3 ^ 0x6a09e667f3bcc908);
}

#[test]
fn reconnection_zero_delay_clamped() {
    assert_eq!(effective_initial_delay_ms(0), 1);
    assert_eq!(effective_initial_delay_ms(1000), 1000);
}

#[test]
fn system_time_nanos_counts_from_the_epoch() {
    let epoch = std::time::UNIX_EPOCH;
    assert_eq!(system_time_nanos(&(epoch + std::time::Duration::from_nanos(42))), Some(42));
    assert_eq!(system_time_nanos(&(epoch - std::time::Duration::from_secs(1))), None);
}
