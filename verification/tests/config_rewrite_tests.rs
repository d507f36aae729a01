use iii_core::config_rewrite::{seed_comment, strip_worker_config_block};

const COMMENT: &str = "# moved";

fn sample() -> String {
    "\
workers:
  - name: iii-stream
    config:
      port: ${STREAM_PORT:3112}
      adapter:
        name: redis
        config:
          redis_url: redis://localhost:6379
  - name: iii-state
    config:
      adapter:
        name: kv
  # a standalone comment
  - name: configuration
    config:
      ttl_seconds: 0
rootfs: overlay
"
    .to_string()
}

#[test]
fn strips_block_and_inserts_comment_keeping_entry() {
    let out = strip_worker_config_block(&sample(), "iii-state", COMMENT).unwrap();
    assert!(out.contains("  - name: iii-state\n    # moved\n"));
    assert!(!out.contains("name: kv"));
    assert!(out.contains("redis_url: redis://localhost:6379"));
    assert!(out.contains("  # a standalone comment"));
    assert!(out.contains("  - name: configuration"));
    assert!(out.contains("rootfs: overlay"));
}

#[test]
fn preserves_env_placeholders_in_other_blocks() {
    let out = strip_worker_config_block(&sample(), "iii-state", COMMENT).unwrap();
    assert!(out.contains("port: ${STREAM_PORT:3112}"));
}

#[test]
fn strips_nested_config_wholesale() {
    let out = strip_worker_config_block(&sample(), "iii-stream", COMMENT).unwrap();
    assert!(out.contains("  - name: iii-stream\n    # moved\n"));
    assert!(!out.contains("redis_url"));
    assert!(out.contains("  - name: iii-state\n    config:"));
}

#[test]
fn idempotent_second_call_is_noop() {
    let once = strip_worker_config_block(&sample(), "iii-state", COMMENT).unwrap();
    assert!(strip_worker_config_block(&once, "iii-state", COMMENT).is_none());
}

#[test]
fn absent_entry_is_noop() {
    assert!(strip_worker_config_block(&sample(), "iii-missing", COMMENT).is_none());
}

#[test]
fn entry_without_config_block_is_noop() {
    let content = "\
workers:
  - name: iii-stream
    image: foo:latest
  - name: iii-state
    config:
      adapter:
        name: kv
";
    assert!(strip_worker_config_block(content, "iii-stream", COMMENT).is_none());
}

#[test]
fn matches_entry_after_image_field() {
    let content = "\
workers:
  - name: iii-stream
    image: foo:latest
    config:
      port: 3112
  - name: iii-state
    config:
      adapter:
        name: kv
";
    let out = strip_worker_config_block(content, "iii-stream", COMMENT).unwrap();
    assert!(out.contains("    image: foo:latest\n    # moved\n"));
    assert!(!out.contains("port: 3112"));
    assert!(out.contains("name: kv"));
}

#[test]
fn only_first_duplicate_entry_is_stripped() {
    let content = "\
workers:
  - name: iii-stream
    config:
      port: 1
modules:
  - name: iii-stream
    config:
      port: 2
";
    let out = strip_worker_config_block(content, "iii-stream", COMMENT).unwrap();
    assert!(out.contains("    # moved\n"));
    assert!(!out.contains("port: 1"));
    assert!(out.contains("port: 2"));
}

#[test]
fn strip_produces_exact_text() {
    let out = strip_worker_config_block(&sample(), "iii-state", COMMENT).unwrap();
    let expected = "\
workers:
  - name: iii-stream
    config:
      port: ${STREAM_PORT:3112}
      adapter:
        name: redis
        config:
          redis_url: redis://localhost:6379
  - name: iii-state
    # moved
  # a standalone comment
  - name: configuration
    config:
      ttl_seconds: 0
rootfs: overlay
";
    assert_eq!(out, expected);
}

#[test]
fn seed_comment_names_entry_and_location() {
    let c = seed_comment("iii-state", "id 'iii-state'");
    assert_eq!(
        c,
        "# 'iii-state': value now lives in the configuration worker at id 'iii-state'. \
         Edit at runtime via 'iii config set iii-state' (or 'configuration::set'); \
         this block is no longer read."
    );
    let out = strip_worker_config_block(&sample(), "iii-state", &c).unwrap();
    assert!(out.contains(&format!("  - name: iii-state\n    {c}\n")));
}
