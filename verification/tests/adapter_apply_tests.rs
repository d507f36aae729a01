use iii_core::adapter::AdapterEntry;
use iii_core::adapter_apply::{
    adapter_apply_step, AdapterApplyAction, AdapterApplyEvent, AdapterApplyFailure,
    AdapterApplyPhase, AdapterApplyState,
};

fn entry(name: &str) -> Option<AdapterEntry> {
    Some(AdapterEntry { name: name.to_string(), config: None })
}

fn active(adapter: Option<AdapterEntry>) -> AdapterApplyState {
    AdapterApplyState { adapter, backend: 1, active: true, phase: AdapterApplyPhase::Idle }
}

fn fetching(adapter: Option<AdapterEntry>) -> AdapterApplyState {
    let (s, a) = adapter_apply_step(active(adapter), AdapterApplyEvent::Requested, "kv");
    assert!(matches!(a, AdapterApplyAction::Fetch));
    s
}

#[test]
fn unchanged_adapter_only_replaces_snapshot() {
    // An explicit `kv` with no config is the default: no rebuild.
    let (s, a) = adapter_apply_step(fetching(None), AdapterApplyEvent::Fetched(Ok(entry("kv"))), "kv");
    assert!(matches!(a, AdapterApplyAction::Commit { swapped: false }));
    assert_eq!(s.backend, 1);
    assert_eq!(s.adapter.as_ref().map(|e| e.name.as_str()), Some("kv"));
}

#[test]
fn changed_adapter_is_built_then_swapped() {
    let (s, a) = adapter_apply_step(fetching(None), AdapterApplyEvent::Fetched(Ok(entry("redis"))), "kv");
    assert!(matches!(a, AdapterApplyAction::ResolveAdapter));
    assert!(s.adapter.is_none());
    let (s, a) = adapter_apply_step(s, AdapterApplyEvent::Resolved(Ok(5)), "kv");
    assert!(matches!(a, AdapterApplyAction::Commit { swapped: true }));
    assert_eq!(s.backend, 5);
    assert_eq!(s.adapter.as_ref().map(|e| e.name.as_str()), Some("redis"));
}

#[test]
fn failed_build_keeps_previous_adapter() {
    let (s, _) = adapter_apply_step(fetching(None), AdapterApplyEvent::Fetched(Ok(entry("does-not-exist"))), "kv");
    let (s, a) = adapter_apply_step(s, AdapterApplyEvent::Resolved(Err("factory not found".to_string())), "kv");
    assert!(matches!(a, AdapterApplyAction::Fail(AdapterApplyFailure::Resolve(ref e)) if e == "factory not found"));
    assert!(s.adapter.is_none());
    assert_eq!(s.backend, 1);
    assert!(matches!(s.phase, AdapterApplyPhase::Idle));
}

#[test]
fn failed_read_keeps_previous_adapter() {
    let (s, a) = adapter_apply_step(fetching(entry("redis")), AdapterApplyEvent::Fetched(Err("malformed".to_string())), "kv");
    assert!(matches!(a, AdapterApplyAction::Fail(AdapterApplyFailure::Fetch(_))));
    assert_eq!(s.adapter.as_ref().map(|e| e.name.as_str()), Some("redis"));
}

#[test]
fn inactive_worker_applies_nothing() {
    let s = AdapterApplyState { adapter: None, backend: 1, active: false, phase: AdapterApplyPhase::Idle };
    let (s, a) = adapter_apply_step(s, AdapterApplyEvent::Requested, "local");
    assert!(matches!(a, AdapterApplyAction::Nothing));
    assert!(matches!(s.phase, AdapterApplyPhase::Idle));
    let (s, a) = adapter_apply_step(s, AdapterApplyEvent::Activated, "local");
    assert!(matches!(a, AdapterApplyAction::Nothing));
    assert!(s.active);
    let (s, _) = adapter_apply_step(s, AdapterApplyEvent::Requested, "local");
    let (s, a) = adapter_apply_step(s, AdapterApplyEvent::Deactivated, "local");
    assert!(matches!(a, AdapterApplyAction::Nothing));
    assert!(!s.active && matches!(s.phase, AdapterApplyPhase::Idle));
    let (s, a) = adapter_apply_step(s, AdapterApplyEvent::Fetched(Ok(entry("redis"))), "local");
    assert!(matches!(a, AdapterApplyAction::Nothing));
    assert!(s.adapter.is_none());
}
