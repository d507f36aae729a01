//! Plain SDK types: HTTP invocation settings, the enqueue receipt, and the
//! worker gauges a worker reports.

use vstd::prelude::*;
use crate::http_trace::is_str_attr;
use crate::otlp_json::{AttrValue, Attribute};

verus! {

/// HTTP method of an HTTP-invoked function.
#[derive(Debug, Clone, Copy, PartialEq, Eq, Structural)]
pub enum HttpMethod {
    Get,
    Post,
    Put,
    Patch,
    Delete,
}

/// Method used when an invocation names none.
pub fn default_http_method() -> (m: HttpMethod)
    ensures
        m == HttpMethod::Post,
{
    HttpMethod::Post
}

/// Authentication of an HTTP-invoked function.
#[derive(Debug, Clone)]
pub enum HttpAuthConfig {
    Hmac { secret_key: String },
    Bearer { token_key: String },
    ApiKey { header: String, value_key: String },
}

/// How a function is invoked over HTTP.
#[derive(Debug, Clone)]
pub struct HttpInvocationConfig {
    pub url: String,
    pub method: HttpMethod,
    pub timeout_ms: Option<u64>,
    pub headers: std::collections::HashMap<String, String>,
    pub auth: Option<HttpAuthConfig>,
}

/// Receipt of an enqueued message.
#[derive(Debug, Clone)]
pub struct EnqueueResult {
    pub message_receipt_id: String,
}

/// Identity reported with the worker gauges.
#[derive(Debug, Clone)]
pub struct WorkerGaugesOptions {
    pub worker_id: String,
    pub worker_name: Option<String>,
}

/// Attributes attached to every worker gauge: `worker.id`, then
/// `worker.name` when the worker has a name.
pub fn worker_gauge_attributes(options: &WorkerGaugesOptions) -> (attrs: Vec<Attribute>)
    ensures
        attrs@.len() == if options.worker_name is Some {
            2int
        } else {
            1int
        },
        is_str_attr(attrs@[0], "worker.id"@, options.worker_id@),
        options.worker_name matches Some(n) ==> is_str_attr(attrs@[1], "worker.name"@, n@),
{
    let mut attrs: Vec<Attribute> = Vec::new();
    attrs.push(
        Attribute {
            key: "worker.id".to_owned(),
            value: AttrValue::String(options.worker_id.clone()),
        },
    );
    if let Some(name) = &options.worker_name {
        attrs.push(Attribute { key: "worker.name".to_owned(), value: AttrValue::String(name.clone()) });
    }
    attrs
}

/// Name, description and unit of one worker gauge.
#[derive(Debug, Clone, Copy)]
pub struct GaugeSpec {
    pub name: &'static str,
    pub description: &'static str,
    pub unit: &'static str,
}

/// The gauges a worker reports, in registration order: resident and
/// virtual memory in bytes, CPU percentage, and uptime in seconds.
pub fn worker_gauge_specs() -> (specs: Vec<GaugeSpec>)
    ensures
        specs@.len() == 4,
        specs@[0].name@ == "iii.worker.memory.rss"@ && specs@[0].description@
            == "Resident set size in bytes"@ && specs@[0].unit@ == "By"@,
        specs@[1].name@ == "iii.worker.memory.virtual"@ && specs@[1].description@
            == "Virtual memory in bytes"@ && specs@[1].unit@ == "By"@,
        specs@[2].name@ == "iii.worker.cpu.percent"@ && specs@[2].description@
            == "CPU usage percentage"@ && specs@[2].unit@ == "%"@,
        specs@[3].name@ == "iii.worker.uptime_seconds"@ && specs@[3].description@
            == "Worker uptime in seconds"@ && specs@[3].unit@ == "s"@,
{
    let mut specs: Vec<GaugeSpec> = Vec::new();
    specs.push(
        GaugeSpec {
            name: "iii.worker.memory.rss",
            description: "Resident set size in bytes",
            unit: "By",
        },
    );
    specs.push(
        GaugeSpec {
            name: "iii.worker.memory.virtual",
            description: "Virtual memory in bytes",
            unit: "By",
        },
    );
    specs.push(
        GaugeSpec { name: "iii.worker.cpu.percent", description: "CPU usage percentage", unit: "%" },
    );
    specs.push(
        GaugeSpec {
            name: "iii.worker.uptime_seconds",
            description: "Worker uptime in seconds",
            unit: "s",
        },
    );
    specs
}

} // verus!
