//! OTLP exporter settings: which wire protocol a signal uses, the HTTP
//! endpoint of a signal, and whether a gRPC endpoint needs TLS.

use vstd::prelude::*;
use crate::text::{
    ascii_lower, ascii_lower_seq,
    chars_of, ends_with, push_chars, push_str, skip_char_back, skip_ws, skip_ws_back,
    trim_end_char, trim_start_ws, trim_ws,
};

verus! {

#[derive(Debug, Clone, Copy, PartialEq, Eq, Structural)]
pub enum OtlpSignal {
    Traces,
    Metrics,
}

#[derive(Debug, Clone, Copy, PartialEq, Eq, Structural)]
pub enum OtlpProtocol {
    Grpc,
    HttpProtobuf,
}

/// True when `c`, lower-cased in ASCII, is `t`.
fn lower_char_eq(c: char, t: char) -> (r: bool)
    ensures
        r == (ascii_lower(c) == t),
{
    if 'A' <= c && c <= 'Z' {
        let u = (c as u32) + 32;
        let w = t as u32;
        proof {
            assert(0x61 <= u <= 0x7A);
            assert((u as char) as u32 == u);
        }
        u == w
    } else {
        c == t
    }
}

/// The protocol named by a setting value: `http/protobuf` or `grpc`, after
/// trimming whitespace and ignoring ASCII case. Any other value falls back
/// to gRPC.
pub open spec fn protocol_of(value: Seq<char>) -> OtlpProtocol {
    if ascii_lower_seq(trim_ws(value)) == "http/protobuf"@ {
        OtlpProtocol::HttpProtobuf
    } else {
        OtlpProtocol::Grpc
    }
}

/// True when `v[from..to]`, lower-cased, equals `target`.
fn lower_range_equals(v: &[char], from: usize, to: usize, target: &[char]) -> (r: bool)
    requires
        from <= to <= v@.len(),
    ensures
        r == (ascii_lower_seq(v@.subrange(from as int, to as int)) == target@),
{
    let ghost w = v@.subrange(from as int, to as int);
    if to - from != target.len() {
        proof {
            assert(ascii_lower_seq(w).len() == w.len());
        }
        return false;
    }
    let mut k: usize = 0;
    while k < target.len()
        invariant
            to - from == target@.len(),
            from <= to <= v@.len(),
            w == v@.subrange(from as int, to as int),
            k <= target@.len(),
            forall|j: int| 0 <= j < k ==> ascii_lower(v@[from + j]) == target@[j],
        decreases target@.len() - k,
    {
        if !lower_char_eq(v[from + k], target[k]) {
            proof {
                assert(ascii_lower_seq(w)[k as int] == ascii_lower(w[k as int]));
            }
            return false;
        }
        k = k + 1;
    }
    proof {
        assert(ascii_lower_seq(w) =~= target@);
    }
    true
}

/// Wire protocol named by a setting value (`OTEL_EXPORTER_OTLP_PROTOCOL`
/// and its per-signal variants). Unknown values fall back to gRPC.
pub fn protocol_from_value(value: &str) -> (p: OtlpProtocol)
    ensures
        p == protocol_of(value@),
{
    let v = chars_of(value);
    let b = skip_ws(v.as_slice(), 0, v.len());
    let e = skip_ws_back(v.as_slice(), b, v.len());
    proof {
        assert(v@.subrange(0, v@.len() as int) =~= v@);
        assert(trim_ws(value@) == v@.subrange(b as int, e as int));
    }
    let target = chars_of("http/protobuf");
    if lower_range_equals(v.as_slice(), b, e, target.as_slice()) {
        OtlpProtocol::HttpProtobuf
    } else {
        OtlpProtocol::Grpc
    }
}

/// The protocol of a signal given the per-signal setting and the global
/// setting: the per-signal value wins when present, then the global one;
/// with neither, gRPC.
pub open spec fn protocol_for(signal_value: Option<Seq<char>>, global_value: Option<Seq<char>>) -> OtlpProtocol {
    match signal_value {
        Some(v) => protocol_of(v),
        None => match global_value {
            Some(v) => protocol_of(v),
            None => OtlpProtocol::Grpc,
        },
    }
}

pub fn protocol_from_settings(signal_value: Option<&str>, global_value: Option<&str>) -> (p:
    OtlpProtocol)
    ensures
        p == protocol_for(
            match signal_value {
                Some(v) => Some(v@),
                None => None,
            },
            match global_value {
                Some(v) => Some(v@),
                None => None,
            },
        ),
{
    match signal_value {
        Some(v) => protocol_from_value(v),
        None => match global_value {
            Some(v) => protocol_from_value(v),
            None => OtlpProtocol::Grpc,
        },
    }
}

/// Name of the per-signal protocol setting.
pub fn signal_protocol_var(signal: OtlpSignal) -> (s: &'static str)
    ensures
        signal == OtlpSignal::Traces ==> s@ == "OTEL_EXPORTER_OTLP_TRACES_PROTOCOL"@,
        signal == OtlpSignal::Metrics ==> s@ == "OTEL_EXPORTER_OTLP_METRICS_PROTOCOL"@,
{
    match signal {
        OtlpSignal::Traces => "OTEL_EXPORTER_OTLP_TRACES_PROTOCOL",
        OtlpSignal::Metrics => "OTEL_EXPORTER_OTLP_METRICS_PROTOCOL",
    }
}

pub open spec fn traces_path() -> Seq<char> {
    seq!['/', 'v', '1', '/', 't', 'r', 'a', 'c', 'e', 's']
}

pub open spec fn metrics_path() -> Seq<char> {
    seq!['/', 'v', '1', '/', 'm', 'e', 't', 'r', 'i', 'c', 's']
}

pub open spec fn logs_path() -> Seq<char> {
    seq!['/', 'v', '1', '/', 'l', 'o', 'g', 's']
}

/// The HTTP path of a signal.
pub open spec fn signal_path(signal: OtlpSignal) -> Seq<char> {
    match signal {
        OtlpSignal::Traces => traces_path(),
        OtlpSignal::Metrics => metrics_path(),
    }
}

fn path_chars(signal: OtlpSignal) -> (v: Vec<char>)
    ensures
        v@ == signal_path(signal),
{
    let mut v: Vec<char> = Vec::new();
    v.push('/');
    v.push('v');
    v.push('1');
    v.push('/');
    match signal {
        OtlpSignal::Traces => {
            v.push('t');
            v.push('r');
            v.push('a');
            v.push('c');
            v.push('e');
            v.push('s');
        },
        OtlpSignal::Metrics => {
            v.push('m');
            v.push('e');
            v.push('t');
            v.push('r');
            v.push('i');
            v.push('c');
            v.push('s');
        },
    }
    proof {
        assert(v@ =~= signal_path(signal));
    }
    v
}

fn logs_chars() -> (v: Vec<char>)
    ensures
        v@ == logs_path(),
{
    let mut v: Vec<char> = Vec::new();
    v.push('/');
    v.push('v');
    v.push('1');
    v.push('/');
    v.push('l');
    v.push('o');
    v.push('g');
    v.push('s');
    proof {
        assert(v@ =~= logs_path());
    }
    v
}

/// The HTTP path of a signal (`/v1/traces` or `/v1/metrics`).
pub fn signal_http_path(signal: OtlpSignal) -> (s: &'static str)
    ensures
        s@ == signal_path(signal),
{
    proof {
        reveal_strlit("/v1/traces");
        reveal_strlit("/v1/metrics");
    }
    match signal {
        OtlpSignal::Traces => {
            let s = "/v1/traces";
            proof {
                assert(s@ =~= traces_path());
            }
            s
        },
        OtlpSignal::Metrics => {
            let s = "/v1/metrics";
            proof {
                assert(s@ =~= metrics_path());
            }
            s
        },
    }
}

/// `endpoint` without a trailing signal path (`/v1/traces`, `/v1/metrics`
/// or `/v1/logs`, tried in that order).
pub open spec fn strip_signal_path(e: Seq<char>) -> Seq<char> {
    if ends_with(e, traces_path()) {
        e.take(e.len() - 10)
    } else if ends_with(e, metrics_path()) {
        e.take(e.len() - 11)
    } else if ends_with(e, logs_path()) {
        e.take(e.len() - 8)
    } else {
        e
    }
}

/// The endpoint of a signal for the HTTP exporter: the configured endpoint
/// without trailing slashes and without a signal path it already carries,
/// followed by the signal's path.
pub open spec fn endpoint_for(endpoint: Seq<char>, signal: OtlpSignal) -> Seq<char> {
    strip_signal_path(trim_end_char(endpoint, '/')) + signal_path(signal)
}

fn ends_with_at(v: &[char], to: usize, suffix: &[char]) -> (r: bool)
    requires
        to <= v@.len(),
    ensures
        r == ends_with(v@.take(to as int), suffix@),
{
    if suffix.len() > to {
        return false;
    }
    let start = to - suffix.len();
    let mut k: usize = 0;
    while k < suffix.len()
        invariant
            start + suffix@.len() == to,
            to <= v@.len(),
            k <= suffix@.len(),
            forall|j: int| 0 <= j < k ==> v@[start + j] == suffix@[j],
        decreases suffix@.len() - k,
    {
        if v[start + k] != suffix[k] {
            proof {
                assert(v@.take(to as int).skip(start as int)[k as int] == v@[start + k]);
            }
            return false;
        }
        k = k + 1;
    }
    proof {
        assert(v@.take(to as int).skip(start as int) =~= suffix@);
    }
    true
}

/// `endpoint` without a trailing `/v1/traces`, `/v1/metrics` or
/// `/v1/logs` (the first that matches).
pub fn strip_otlp_signal_path(endpoint: &str) -> (s: String)
    ensures
        s@ == strip_signal_path(endpoint@),
{
    let v = chars_of(endpoint);
    let tr = path_chars(OtlpSignal::Traces);
    let me = path_chars(OtlpSignal::Metrics);
    let lo = logs_chars();
    proof {
        assert(v@.take(v@.len() as int) =~= v@);
    }
    let n = v.len();
    let end = if ends_with_at(v.as_slice(), n, tr.as_slice()) {
        n - 10
    } else if ends_with_at(v.as_slice(), n, me.as_slice()) {
        n - 11
    } else if ends_with_at(v.as_slice(), n, lo.as_slice()) {
        n - 8
    } else {
        n
    };
    let mut s = String::new();
    push_chars(&mut s, v.as_slice(), 0, end);
    proof {
        assert(Seq::<char>::empty() + v@.subrange(0, end as int) =~= strip_signal_path(endpoint@));
    }
    s
}

/// The OTLP/HTTP endpoint of `signal` derived from a base endpoint.
pub fn http_endpoint_for_signal(endpoint: &str, signal: OtlpSignal) -> (s: String)
    ensures
        s@ == endpoint_for(endpoint@, signal),
{
    let v = chars_of(endpoint);
    let t = skip_char_back(v.as_slice(), 0, v.len(), '/');
    let mut trimmed = String::new();
    push_chars(&mut trimmed, v.as_slice(), 0, t);
    proof {
        assert(v@.subrange(0, v@.len() as int) =~= v@);
        assert(Seq::<char>::empty() + v@.subrange(0, t as int) =~= trim_end_char(endpoint@, '/'));
    }
    let mut s = strip_otlp_signal_path(trimmed.as_str());
    push_str(&mut s, signal_http_path(signal));
    s
}

pub open spec fn https_prefix() -> Seq<char> {
    seq!['h', 't', 't', 'p', 's', ':', '/', '/']
}

/// True when the endpoint, after leading whitespace, starts with `https://`
/// in any ASCII case.
pub open spec fn uses_https(endpoint: Seq<char>) -> bool {
    let t = trim_start_ws(endpoint);
    t.len() >= 8 && ascii_lower_seq(t.take(8)) == https_prefix()
}

pub fn endpoint_uses_https(endpoint: &str) -> (b: bool)
    ensures
        b == uses_https(endpoint@),
{
    let v = chars_of(endpoint);
    let s = skip_ws(v.as_slice(), 0, v.len());
    proof {
        assert(v@.subrange(0, v@.len() as int) =~= v@);
    }
    if v.len() - s < 8 {
        return false;
    }
    let target = chars_of("https://");
    proof {
        reveal_strlit("https://");
        assert(target@ =~= https_prefix());
        assert(trim_start_ws(endpoint@).take(8) =~= v@.subrange(s as int, s + 8));
    }
    lower_range_equals(v.as_slice(), s, s + 8, target.as_slice())
}

/// How an exporter for one signal is built.
#[derive(Debug, PartialEq, Eq)]
pub enum ExporterPlan {
    /// gRPC transport to the configured endpoint; `tls` enables TLS with the
    /// platform's root certificates.
    Grpc { tls: bool },
    /// HTTP/protobuf transport to the given signal endpoint.
    HttpProtobuf { endpoint: String },
}

/// The exporter for `signal` over `protocol`: gRPC uses the endpoint as
/// given and enables TLS exactly for an `https://` endpoint; HTTP/protobuf
/// posts to the signal's endpoint.
pub fn exporter_plan(protocol: OtlpProtocol, endpoint: &str, signal: OtlpSignal) -> (p:
    ExporterPlan)
    ensures
        protocol == OtlpProtocol::Grpc ==> p == (ExporterPlan::Grpc { tls: uses_https(endpoint@) }),
        protocol == OtlpProtocol::HttpProtobuf ==> (p matches ExporterPlan::HttpProtobuf { endpoint: e }
            && e@ == endpoint_for(endpoint@, signal)),
{
    match protocol {
        OtlpProtocol::Grpc => ExporterPlan::Grpc { tls: endpoint_uses_https(endpoint) },
        OtlpProtocol::HttpProtobuf => ExporterPlan::HttpProtobuf {
            endpoint: http_endpoint_for_signal(endpoint, signal),
        },
    }
}

/// Deriving a signal endpoint from an endpoint that already carries a signal
/// path replaces that path: re-deriving is the same as deriving from the
/// endpoint itself, for any pair of signals.
pub proof fn law_endpoint_rederivation(endpoint: Seq<char>, first: OtlpSignal, second: OtlpSignal)
    ensures
        endpoint_for(endpoint_for(endpoint, first), second) == endpoint_for(endpoint, second),
{
    let base = strip_signal_path(trim_end_char(endpoint, '/'));
    let once = base + signal_path(first);
    assert(once.len() > 0 && once.last() != '/');
    assert(trim_end_char(once, '/') == once);
    let sp = signal_path(first);
    assert(once.skip(once.len() - sp.len()) =~= sp);
    match first {
        OtlpSignal::Traces => {
            assert(ends_with(once, traces_path()));
            assert(once.take(once.len() - 10) =~= base);
        },
        OtlpSignal::Metrics => {
            if ends_with(once, traces_path()) {
                assert(once.skip(once.len() - 10)[5] == traces_path()[5]);
                assert(once.skip(once.len() - 11)[6] == metrics_path()[6]);
                assert(false);
            }
            assert(ends_with(once, metrics_path()));
            assert(once.take(once.len() - 11) =~= base);
        },
    }
}

/// A derived signal endpoint always ends with the signal's path.
pub proof fn law_endpoint_ends_with_signal_path(endpoint: Seq<char>, signal: OtlpSignal)
    ensures
        ends_with(endpoint_for(endpoint, signal), signal_path(signal)),
{
    let base = strip_signal_path(trim_end_char(endpoint, '/'));
    let out = base + signal_path(signal);
    assert(out.skip(out.len() - signal_path(signal).len()) =~= signal_path(signal));
}

} // verus!
