use iii_core::otlp::{
    endpoint_uses_https, exporter_plan, http_endpoint_for_signal, protocol_from_settings,
    protocol_from_value, signal_http_path, signal_protocol_var, strip_otlp_signal_path,
    ExporterPlan, OtlpProtocol, OtlpSignal,
};

#[test]
fn unknown_protocol_falls_back_to_grpc() {
    assert_eq!(protocol_from_value("http/json"), OtlpProtocol::Grpc);
    assert_eq!(protocol_from_value("bad-value"), OtlpProtocol::Grpc);
}

#[test]
fn http_endpoint_appends_trace_path_to_base_endpoint() {
    assert_eq!(
        http_endpoint_for_signal("https://collector.example.com", OtlpSignal::Traces),
        "https://collector.example.com/v1/traces"
    );
}

#[test]
fn http_endpoint_appends_metric_path_to_base_endpoint() {
    assert_eq!(
        http_endpoint_for_signal("https://collector.example.com/", OtlpSignal::Metrics),
        "https://collector.example.com/v1/metrics"
    );
}

#[test]
fn http_endpoint_does_not_double_append_signal_path() {
    assert_eq!(
        http_endpoint_for_signal("https://collector.example.com/v1/traces", OtlpSignal::Traces),
        "https://collector.example.com/v1/traces"
    );
    assert_eq!(
        http_endpoint_for_signal("https://collector.example.com/v1/metrics", OtlpSignal::Metrics),
        "https://collector.example.com/v1/metrics"
    );
}

#[test]
fn http_endpoint_replaces_existing_other_signal_path() {
    assert_eq!(
        http_endpoint_for_signal("https://collector.example.com/v1/traces", OtlpSignal::Metrics),
        "https://collector.example.com/v1/metrics"
    );
    assert_eq!(
        http_endpoint_for_signal("https://collector.example.com/v1/metrics", OtlpSignal::Traces),
        "https://collector.example.com/v1/traces"
    );
    assert_eq!(
        http_endpoint_for_signal("https://collector.example.com/v1/logs", OtlpSignal::Traces),
        "https://collector.example.com/v1/traces"
    );
}

#[test]
fn protocol_defaults_to_grpc() {
    assert_eq!(protocol_from_settings(None, None), OtlpProtocol::Grpc);
}

#[test]
fn protocol_uses_global_http_protobuf() {
    assert_eq!(protocol_from_settings(None, Some("http/protobuf")), OtlpProtocol::HttpProtobuf);
}

#[test]
fn signal_protocol_overrides_global_protocol() {
    assert_eq!(
        protocol_from_settings(Some("http/protobuf"), Some("grpc")),
        OtlpProtocol::HttpProtobuf
    );
    assert_eq!(protocol_from_settings(None, Some("grpc")), OtlpProtocol::Grpc);
}

#[test]
fn trace_exporter_builder_honors_http_protobuf_protocol_env() {
    let protocol = protocol_from_settings(None, Some("http/protobuf"));
    assert_eq!(
        exporter_plan(protocol, "http://127.0.0.1:4318", OtlpSignal::Traces),
        ExporterPlan::HttpProtobuf { endpoint: "http://127.0.0.1:4318/v1/traces".to_string() }
    );
}

#[test]
fn metric_exporter_builder_honors_http_protobuf_protocol_env() {
    let protocol = protocol_from_settings(None, Some("http/protobuf"));
    assert_eq!(
        exporter_plan(protocol, "http://127.0.0.1:4318", OtlpSignal::Metrics),
        ExporterPlan::HttpProtobuf { endpoint: "http://127.0.0.1:4318/v1/metrics".to_string() }
    );
}

#[test]
fn protocol_value_is_trimmed_and_case_insensitive() {
    assert_eq!(protocol_from_value("  HTTP/Protobuf\n"), OtlpProtocol::HttpProtobuf);
    assert_eq!(protocol_from_value("GRPC"), OtlpProtocol::Grpc);
    assert_eq!(protocol_from_value(""), OtlpProtocol::Grpc);
}

#[test]
fn grpc_plan_enables_tls_for_https_only() {
    assert_eq!(
        exporter_plan(OtlpProtocol::Grpc, "  HTTPS://collector:4317", OtlpSignal::Traces),
        ExporterPlan::Grpc { tls: true }
    );
    assert_eq!(
        exporter_plan(OtlpProtocol::Grpc, "http://collector:4317", OtlpSignal::Metrics),
        ExporterPlan::Grpc { tls: false }
    );
    assert!(!endpoint_uses_https("https:/"));
    assert!(endpoint_uses_https("https://x"));
    assert!(!endpoint_uses_https("\u{e9}ttps://x"));
}

#[test]
fn signal_paths_and_setting_names() {
    assert_eq!(signal_http_path(OtlpSignal::Traces), "/v1/traces");
    assert_eq!(signal_http_path(OtlpSignal::Metrics), "/v1/metrics");
    assert_eq!(signal_protocol_var(OtlpSignal::Traces), "OTEL_EXPORTER_OTLP_TRACES_PROTOCOL");
    assert_eq!(signal_protocol_var(OtlpSignal::Metrics), "OTEL_EXPORTER_OTLP_METRICS_PROTOCOL");
}

#[test]
fn strip_signal_path_removes_one_known_suffix() {
    assert_eq!(strip_otlp_signal_path("http://c/v1/logs"), "http://c");
    assert_eq!(strip_otlp_signal_path("http://c/v1/traces/"), "http://c/v1/traces/");
    assert_eq!(strip_otlp_signal_path("http://c/v1/traces/v1/metrics"), "http://c/v1/traces");
    assert_eq!(strip_otlp_signal_path("http://c/v2/traces"), "http://c/v2/traces");
}

#[test]
fn derived_endpoint_is_stable_under_rederivation() {
    for base in ["http://c", "http://c///", "http://c/v1/logs", "http://c/v1/metrics/"] {
        for first in [OtlpSignal::Traces, OtlpSignal::Metrics] {
            for second in [OtlpSignal::Traces, OtlpSignal::Metrics] {
                let once = http_endpoint_for_signal(base, first);
                assert_eq!(
                    http_endpoint_for_signal(&once, second),
                    http_endpoint_for_signal(base, second)
                );
                assert!(once.ends_with(signal_http_path(first)));
            }
        }
    }
}
