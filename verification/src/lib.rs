//! Configuration, rendering and telemetry logic of the iii engine and its
//! worker SDK, with contracts proved by Verus.
//!
//! - `text`, `digits`, `json`: strings as character sequences, decimal and
//!   hex renderings, and a plain JSON value with its equality.
//! - `config_rewrite`: removing a worker's `config:` block from the YAML
//!   configuration once the value lives elsewhere.
//! - `terminal`, `cli_help`: sanitizing worker-supplied text for the
//!   terminal and the sections of `iii trigger <fn> --help`.
//! - `adapter`, `queue_config`, `rest_api_config`, `stream_config`,
//!   `cron_config`: worker settings, their defaults, validation and
//!   normalization, and what a configuration change requires;
//!   `trigger_config`: what triggers declare; `configuration`: the entry a
//!   worker keeps in the configuration worker, its registration (which
//!   never overwrites a stored value) and the retry of a timed-out change.
//! - `otlp`, `otlp_json`, `otlp_metrics`, `ws_connection`, `http_trace`:
//!   exporter selection, OTLP JSON for logs and metrics, the telemetry
//!   connection's decisions, and HTTP request tracing.
//! - `stream_worker`: what stream reads and writes answer and the events
//!   they emit, the trigger fan-out, the boot sequence and the
//!   all-or-nothing application of a stream configuration change; `adapter_apply`: the same for workers
//!   whose configuration is their adapter alone; `pubsub_subscriptions`:
//!   the pub/sub worker's table of live subscriptions.
//! - `sdk_error`, `sdk_types`: SDK errors and plain SDK types.

pub mod text;
pub mod digits;
pub mod json;
pub mod config_rewrite;
pub mod terminal;
pub mod cli_help;
pub mod adapter;
pub mod queue_config;
pub mod rest_api_config;
pub mod stream_config;
pub mod cron_config;
pub mod otlp;
pub mod otlp_json;
pub mod otlp_metrics;
pub mod ws_connection;
pub mod http_trace;
pub mod sdk_error;
pub mod sdk_types;
pub mod trigger_config;
pub mod configuration;
pub mod stream_worker;
pub mod adapter_apply;
pub mod pubsub_subscriptions;
