use iii_core::sdk_error::{Error, InvocationError, Trigger};
use iii_core::sdk_types::{default_http_method, worker_gauge_attributes, worker_gauge_specs, HttpMethod, WorkerGaugesOptions};
use iii_core::otlp_json::AttrValue;
use iii_core::text::{str_eq, to_ascii_lowercase};
use std::sync::atomic::{AtomicBool, Ordering};
use std::sync::Arc;

#[test]
fn remote_error_yields_invocation_error() {
    let err = Error::Remote {
        code: "FORBIDDEN".into(),
        message: "nope".into(),
        stacktrace: Some("trace".into()),
    };
    let inv = err.invocation_error().expect("remote -> invocation");
    assert_eq!(inv.code, "FORBIDDEN");
    assert_eq!(inv.message, "nope");
    assert_eq!(inv.stacktrace.as_deref(), Some("trace"));
    assert_eq!(inv.message(), "FORBIDDEN: nope");
}

#[test]
fn non_remote_error_yields_none() {
    assert!(Error::Timeout.invocation_error().is_none());
}

#[test]
fn trigger_unregister_calls_closure() {
    let called = Arc::new(AtomicBool::new(false));
    let called_ref = called.clone();
    let trigger = Trigger::new(Arc::new(move || {
        called_ref.store(true, Ordering::SeqCst);
    }));

    trigger.unregister();

    assert!(called.load(Ordering::SeqCst));
}

#[test]
fn error_messages() {
    assert_eq!(Error::NotConnected.message(), "iii is not connected");
    assert_eq!(Error::Timeout.message(), "invocation timed out");
    assert_eq!(Error::Runtime("x".into()).message(), "runtime error: x");
    assert_eq!(
        Error::Remote { code: "C".into(), message: "m".into(), stacktrace: None }.message(),
        "remote error (C): m"
    );
    assert_eq!(Error::Handler("h".into()).message(), "handler error: h");
    assert_eq!(Error::Serde("s".into()).message(), "serialization error: s");
    assert_eq!(Error::WebSocket("w".into()).message(), "websocket error: w");
    let from: Error = String::from("boom").into();
    assert!(matches!(from, Error::Handler(ref m) if m == "boom"));
    let inv = InvocationError { code: "A".into(), message: "b".into(), function_id: Some("f".into()), stacktrace: None };
    assert_eq!(inv.message(), "A: b");
    let none_trace = Error::Remote { code: "C".into(), message: "m".into(), stacktrace: None };
    let inv = none_trace.invocation_error().unwrap();
    assert!(inv.stacktrace.is_none() && inv.function_id.is_none());
}

#[test]
fn worker_gauges() {
    assert!(matches!(default_http_method(), HttpMethod::Post));
    let attrs = worker_gauge_attributes(&WorkerGaugesOptions { worker_id: "w1".into(), worker_name: Some("n".into()) });
    assert_eq!(attrs.len(), 2);
    assert_eq!(attrs[0].key, "worker.id");
    assert!(matches!(&attrs[1].value, AttrValue::String(s) if s == "n"));
    let attrs = worker_gauge_attributes(&WorkerGaugesOptions { worker_id: "w1".into(), worker_name: None });
    assert_eq!(attrs.len(), 1);
    let specs = worker_gauge_specs();
    let names: Vec<&str> = specs.iter().map(|s| s.name).collect();
    assert_eq!(names, vec!["iii.worker.memory.rss", "iii.worker.memory.virtual", "iii.worker.cpu.percent", "iii.worker.uptime_seconds"]);
    assert_eq!(specs[2].unit, "%");
}

#[test]
fn text_helpers() {
    assert_eq!(to_ascii_lowercase("AbC-\u{c9}"), "abc-\u{c9}");
    assert!(str_eq("x", "x"));
    assert!(!str_eq("x", "X"));
}
