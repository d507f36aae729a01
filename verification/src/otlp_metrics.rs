//! OTLP JSON for metrics: sums, gauges and histograms with their data
//! points, grouped by instrumentation scope under one resource.

use vstd::prelude::*;
use crate::digits::{decimal, decimal_string, signed_decimal, signed_decimal_string};
use crate::json::{is_json, Json, JsonNumber, JsonValue};
use crate::otlp_json::{
    array, attributes_json, attrs_to_json, double_json, double_value, items_match, members_match,
    nanos_string, nanos_text, object, opt_text, push_item, push_member, resource_json, single,
    single_object, string_value, Attribute,
};

verus! {

/// How a sum or histogram aggregates over time.
#[derive(Debug, Clone, Copy, PartialEq, Eq, Structural)]
pub enum Temporality {
    Delta,
    Cumulative,
    /// Any other temporality.
    Other,
}

/// The OTLP number of a temporality: 1 for delta, 2 for cumulative, and 1
/// for any other.
pub open spec fn temporality_number(t: Temporality) -> u32 {
    match t {
        Temporality::Cumulative => 2,
        _ => 1,
    }
}

pub fn temporality_value(t: Temporality) -> (n: u32)
    ensures
        n == temporality_number(t),
{
    match t {
        Temporality::Delta => 1,
        Temporality::Cumulative => 2,
        Temporality::Other => 1,
    }
}

/// The value of a sum or gauge data point. Floats are held by their bit
/// pattern.
#[derive(Debug, Clone, Copy)]
pub enum NumberValue {
    F64(u64),
    I64(i64),
    U64(u64),
}

/// A sum or gauge data point.
#[derive(Debug)]
pub struct NumberPoint {
    pub attributes: Vec<Attribute>,
    pub value: NumberValue,
    /// Number of exemplars recorded with the point.
    pub exemplar_count: usize,
}

/// A histogram data point. Floats are held by their bit pattern.
#[derive(Debug)]
pub struct HistogramPoint {
    pub attributes: Vec<Attribute>,
    pub count: u64,
    pub sum: u64,
    pub bucket_counts: Vec<u64>,
    pub bounds: Vec<u64>,
    pub min: Option<u64>,
    pub max: Option<u64>,
}

/// The aggregated data of a metric; times are nanoseconds since the epoch.
#[derive(Debug)]
pub enum MetricData {
    Sum {
        points: Vec<NumberPoint>,
        start_nanos: Option<u128>,
        time_nanos: Option<u128>,
        temporality: Temporality,
        is_monotonic: bool,
    },
    Gauge { points: Vec<NumberPoint>, start_nanos: Option<u128>, time_nanos: Option<u128> },
    Histogram {
        points: Vec<HistogramPoint>,
        start_nanos: Option<u128>,
        time_nanos: Option<u128>,
        temporality: Temporality,
    },
    /// Data of a kind this format does not render.
    Other,
}

/// A metric with its identity and data.
#[derive(Debug)]
pub struct MetricRecord {
    pub name: String,
    pub description: String,
    pub unit: String,
    pub data: MetricData,
}

/// The metrics of one instrumentation scope.
#[derive(Debug)]
pub struct ScopeMetricsData {
    pub scope_name: String,
    pub scope_version: Option<String>,
    pub metrics: Vec<MetricRecord>,
}

pub open spec fn uint_json(n: u64) -> Json {
    Json::Number(JsonNumber::PosInt(n))
}

/// The value member of a number point: floats as `asDouble`, integers as
/// decimal text in `asInt`.
pub open spec fn point_value_member(v: NumberValue) -> (Seq<char>, Json) {
    match v {
        NumberValue::F64(b) => ("asDouble"@, double_json(b)),
        NumberValue::I64(i) => ("asInt"@, Json::Str(signed_decimal(i as int))),
        NumberValue::U64(u) => ("asInt"@, Json::Str(decimal(u as nat))),
    }
}

/// `n` empty objects.
pub open spec fn empty_objects(n: nat) -> Seq<Json> {
    Seq::new(n, |i: int| Json::Object(Seq::empty()))
}

/// JSON of a number point. Float points of a sum also list one empty
/// object per exemplar, when they have any.
pub open spec fn number_point_json(
    p: NumberPoint,
    start: Option<u128>,
    time: Option<u128>,
    with_exemplars: bool,
) -> Json {
    let base = seq![
        ("attributes"@, Json::Array(attributes_json(p.attributes@))),
        ("startTimeUnixNano"@, Json::Str(nanos_text(start))),
        ("timeUnixNano"@, Json::Str(nanos_text(time))),
        point_value_member(p.value),
    ];
    if with_exemplars && p.value is F64 && p.exemplar_count > 0 {
        Json::Object(base.push(("exemplars"@, Json::Array(empty_objects(p.exemplar_count as nat)))))
    } else {
        Json::Object(base)
    }
}

pub open spec fn number_points_json(
    ps: Seq<NumberPoint>,
    start: Option<u128>,
    time: Option<u128>,
    with_exemplars: bool,
) -> Seq<Json> {
    ps.map_values(|p: NumberPoint| number_point_json(p, start, time, with_exemplars))
}

pub open spec fn opt_double_json(b: Option<u64>) -> Json {
    match b {
        Some(x) => double_json(x),
        None => Json::Null,
    }
}

/// JSON of a histogram point: counts as decimal text, floats as numbers.
pub open spec fn histogram_point_json(p: HistogramPoint, start: Option<u128>, time: Option<u128>) -> Json {
    Json::Object(
        seq![
            ("attributes"@, Json::Array(attributes_json(p.attributes@))),
            ("startTimeUnixNano"@, Json::Str(nanos_text(start))),
            ("timeUnixNano"@, Json::Str(nanos_text(time))),
            ("count"@, Json::Str(decimal(p.count as nat))),
            ("sum"@, double_json(p.sum)),
            ("bucketCounts"@, Json::Array(
                p.bucket_counts@.map_values(|c: u64| Json::Str(decimal(c as nat))),
            )),
            ("explicitBounds"@, Json::Array(p.bounds@.map_values(|b: u64| double_json(b)))),
            ("min"@, opt_double_json(p.min)),
            ("max"@, opt_double_json(p.max)),
        ],
    )
}

pub open spec fn histogram_points_json(ps: Seq<HistogramPoint>, start: Option<u128>, time: Option<u128>) -> Seq<Json> {
    ps.map_values(|p: HistogramPoint| histogram_point_json(p, start, time))
}

pub open spec fn identity_members(m: MetricRecord) -> Seq<(Seq<char>, Json)> {
    seq![
        ("name"@, Json::Str(m.name@)),
        ("description"@, Json::Str(m.description@)),
        ("unit"@, Json::Str(m.unit@)),
    ]
}

/// JSON of a metric: its name, description and unit, and its data under
/// `sum`, `gauge` or `histogram` (nothing more for other data).
pub open spec fn metric_json(m: MetricRecord) -> Json {
    match m.data {
        MetricData::Sum { points, start_nanos, time_nanos, temporality, is_monotonic } => Json::Object(
            identity_members(m).push(
                (
                    "sum"@,
                    Json::Object(
                        seq![
                            ("dataPoints"@, Json::Array(
                                number_points_json(points@, start_nanos, time_nanos, true),
                            )),
                            ("aggregationTemporality"@, uint_json(
                                temporality_number(temporality) as u64,
                            )),
                            ("isMonotonic"@, Json::Bool(is_monotonic)),
                        ],
                    ),
                ),
            ),
        ),
        MetricData::Gauge { points, start_nanos, time_nanos } => Json::Object(
            identity_members(m).push(
                (
                    "gauge"@,
                    single(
                        "dataPoints"@,
                        Json::Array(number_points_json(points@, start_nanos, time_nanos, false)),
                    ),
                ),
            ),
        ),
        MetricData::Histogram { points, start_nanos, time_nanos, temporality } => Json::Object(
            identity_members(m).push(
                (
                    "histogram"@,
                    Json::Object(
                        seq![
                            ("dataPoints"@, Json::Array(
                                histogram_points_json(points@, start_nanos, time_nanos),
                            )),
                            ("aggregationTemporality"@, uint_json(
                                temporality_number(temporality) as u64,
                            )),
                        ],
                    ),
                ),
            ),
        ),
        MetricData::Other => Json::Object(identity_members(m)),
    }
}

pub open spec fn scope_metrics_json(s: ScopeMetricsData) -> Json {
    Json::Object(
        seq![
            ("scope"@, Json::Object(
                seq![("name"@, Json::Str(s.scope_name@)), ("version"@, Json::Str(
                    opt_text(s.scope_version),
                ))],
            )),
            ("metrics"@, Json::Array(s.metrics@.map_values(|m: MetricRecord| metric_json(m)))),
        ],
    )
}

/// The metrics message: one resource with its attributes and the metrics
/// of each scope.
pub open spec fn metrics_payload(resource: Seq<Attribute>, scopes: Seq<ScopeMetricsData>) -> Json {
    single(
        "resourceMetrics"@,
        Json::Array(
            seq![
                Json::Object(
                    seq![
                        ("resource"@, resource_json(resource)),
                        ("scopeMetrics"@, Json::Array(
                            scopes.map_values(|s: ScopeMetricsData| scope_metrics_json(s)),
                        )),
                    ],
                ),
            ],
        ),
    )
}

fn point_value_json(v: NumberValue) -> (r: JsonValue)
    ensures
        is_json(r, point_value_member(v).1),
{
    match v {
        NumberValue::F64(b) => double_value(b),
        NumberValue::I64(i) => string_value(signed_decimal_string(i)),
        NumberValue::U64(u) => string_value(decimal_string(u as u128)),
    }
}

fn point_value_key(v: NumberValue) -> (k: &'static str)
    ensures
        k@ == point_value_member(v).0,
{
    match v {
        NumberValue::F64(_) => "asDouble",
        _ => "asInt",
    }
}

fn number_point_to_json(
    p: &NumberPoint,
    start: Option<u128>,
    time: Option<u128>,
    with_exemplars: bool,
) -> (r: JsonValue)
    ensures
        is_json(r, number_point_json(*p, start, time, with_exemplars)),
{
    let ghost m0 = Seq::<(Seq<char>, Json)>::empty();
    let ghost m1 = m0.push(("attributes"@, Json::Array(attributes_json(p.attributes@))));
    let ghost m2 = m1.push(("startTimeUnixNano"@, Json::Str(nanos_text(start))));
    let ghost m3 = m2.push(("timeUnixNano"@, Json::Str(nanos_text(time))));
    let ghost m4 = m3.push(point_value_member(p.value));
    let mut ms: Vec<(String, JsonValue)> = Vec::new();
    let attrs = attrs_to_json(p.attributes.as_slice());
    push_member(
        &mut ms,
        Ghost(m0),
        "attributes",
        array(attrs, Ghost(attributes_json(p.attributes@))),
        Ghost(Json::Array(attributes_json(p.attributes@))),
    );
    push_member(&mut ms, Ghost(m1), "startTimeUnixNano", string_value(nanos_string(start)), Ghost(Json::Str(nanos_text(start))));
    push_member(&mut ms, Ghost(m2), "timeUnixNano", string_value(nanos_string(time)), Ghost(Json::Str(nanos_text(time))));
    push_member(&mut ms, Ghost(m3), point_value_key(p.value), point_value_json(p.value), Ghost(point_value_member(p.value).1));
    proof {
        assert(m4 =~= seq![
            ("attributes"@, Json::Array(attributes_json(p.attributes@))),
            ("startTimeUnixNano"@, Json::Str(nanos_text(start))),
            ("timeUnixNano"@, Json::Str(nanos_text(time))),
            point_value_member(p.value),
        ]);
    }
    let is_float = match p.value {
        NumberValue::F64(_) => true,
        _ => false,
    };
    if with_exemplars && is_float && p.exemplar_count > 0 {
        let ghost ex = empty_objects(p.exemplar_count as nat);
        let mut items: Vec<JsonValue> = Vec::new();
        let mut i: usize = 0;
        while i < p.exemplar_count
            invariant
                i <= p.exemplar_count,
                ex == empty_objects(p.exemplar_count as nat),
                items_match(items@, ex.take(i as int)),
            decreases p.exemplar_count - i,
        {
            let e = object(Vec::new(), Ghost(Seq::empty()));
            push_item(&mut items, Ghost(ex.take(i as int)), e, Ghost(Json::Object(Seq::empty())));
            proof {
                assert(ex.take(i as int).push(Json::Object(Seq::empty())) =~= ex.take(i + 1));
            }
            i = i + 1;
        }
        proof {
            assert(ex.take(i as int) =~= ex);
        }
        push_member(&mut ms, Ghost(m4), "exemplars", array(items, Ghost(ex)), Ghost(Json::Array(ex)));
        object(ms, Ghost(m4.push(("exemplars"@, Json::Array(ex)))))
    } else {
        object(ms, Ghost(m4))
    }
}

fn number_points_to_json(
    ps: &Vec<NumberPoint>,
    start: Option<u128>,
    time: Option<u128>,
    with_exemplars: bool,
) -> (r: Vec<JsonValue>)
    ensures
        items_match(r@, number_points_json(ps@, start, time, with_exemplars)),
{
    let ghost spec = number_points_json(ps@, start, time, with_exemplars);
    let mut out: Vec<JsonValue> = Vec::new();
    let mut i: usize = 0;
    while i < ps.len()
        invariant
            i <= ps@.len(),
            spec == number_points_json(ps@, start, time, with_exemplars),
            items_match(out@, spec.take(i as int)),
        decreases ps@.len() - i,
    {
        push_item(
            &mut out,
            Ghost(spec.take(i as int)),
            number_point_to_json(&ps[i], start, time, with_exemplars),
            Ghost(spec[i as int]),
        );
        proof {
            assert(spec.take(i as int).push(spec[i as int]) =~= spec.take(i + 1));
        }
        i = i + 1;
    }
    proof {
        assert(spec.take(i as int) =~= spec);
    }
    out
}

fn opt_double_value(b: Option<u64>) -> (r: JsonValue)
    ensures
        is_json(r, opt_double_json(b)),
{
    match b {
        Some(x) => double_value(x),
        None => JsonValue::Null,
    }
}

fn histogram_point_to_json(p: &HistogramPoint, start: Option<u128>, time: Option<u128>) -> (r:
    JsonValue)
    ensures
        is_json(r, histogram_point_json(*p, start, time)),
{
    let ghost counts = p.bucket_counts@.map_values(|c: u64| Json::Str(decimal(c as nat)));
    let ghost bounds = p.bounds@.map_values(|b: u64| double_json(b));
    let mut count_items: Vec<JsonValue> = Vec::new();
    let mut i: usize = 0;
    while i < p.bucket_counts.len()
        invariant
            i <= p.bucket_counts@.len(),
            counts == p.bucket_counts@.map_values(|c: u64| Json::Str(decimal(c as nat))),
            items_match(count_items@, counts.take(i as int)),
        decreases p.bucket_counts@.len() - i,
    {
        push_item(
            &mut count_items,
            Ghost(counts.take(i as int)),
            string_value(decimal_string(p.bucket_counts[i] as u128)),
            Ghost(counts[i as int]),
        );
        proof {
            assert(counts.take(i as int).push(counts[i as int]) =~= counts.take(i + 1));
        }
        i = i + 1;
    }
    proof {
        assert(counts.take(i as int) =~= counts);
    }
    let mut bound_items: Vec<JsonValue> = Vec::new();
    let mut k: usize = 0;
    while k < p.bounds.len()
        invariant
            k <= p.bounds@.len(),
            bounds == p.bounds@.map_values(|b: u64| double_json(b)),
            items_match(bound_items@, bounds.take(k as int)),
        decreases p.bounds@.len() - k,
    {
        push_item(&mut bound_items, Ghost(bounds.take(k as int)), double_value(p.bounds[k]), Ghost(bounds[k as int]));
        proof {
            assert(bounds.take(k as int).push(bounds[k as int]) =~= bounds.take(k + 1));
        }
        k = k + 1;
    }
    proof {
        assert(bounds.take(k as int) =~= bounds);
    }
    let ghost m0 = Seq::<(Seq<char>, Json)>::empty();
    let ghost m1 = m0.push(("attributes"@, Json::Array(attributes_json(p.attributes@))));
    let ghost m2 = m1.push(("startTimeUnixNano"@, Json::Str(nanos_text(start))));
    let ghost m3 = m2.push(("timeUnixNano"@, Json::Str(nanos_text(time))));
    let ghost m4 = m3.push(("count"@, Json::Str(decimal(p.count as nat))));
    let ghost m5 = m4.push(("sum"@, double_json(p.sum)));
    let ghost m6 = m5.push(("bucketCounts"@, Json::Array(counts)));
    let ghost m7 = m6.push(("explicitBounds"@, Json::Array(bounds)));
    let ghost m8 = m7.push(("min"@, opt_double_json(p.min)));
    let ghost m9 = m8.push(("max"@, opt_double_json(p.max)));
    let mut ms: Vec<(String, JsonValue)> = Vec::new();
    let attrs = attrs_to_json(p.attributes.as_slice());
    push_member(&mut ms, Ghost(m0), "attributes", array(attrs, Ghost(attributes_json(p.attributes@))), Ghost(Json::Array(attributes_json(p.attributes@))));
    push_member(&mut ms, Ghost(m1), "startTimeUnixNano", string_value(nanos_string(start)), Ghost(Json::Str(nanos_text(start))));
    push_member(&mut ms, Ghost(m2), "timeUnixNano", string_value(nanos_string(time)), Ghost(Json::Str(nanos_text(time))));
    push_member(&mut ms, Ghost(m3), "count", string_value(decimal_string(p.count as u128)), Ghost(Json::Str(decimal(p.count as nat))));
    push_member(&mut ms, Ghost(m4), "sum", double_value(p.sum), Ghost(double_json(p.sum)));
    push_member(&mut ms, Ghost(m5), "bucketCounts", array(count_items, Ghost(counts)), Ghost(Json::Array(counts)));
    push_member(&mut ms, Ghost(m6), "explicitBounds", array(bound_items, Ghost(bounds)), Ghost(Json::Array(bounds)));
    push_member(&mut ms, Ghost(m7), "min", opt_double_value(p.min), Ghost(opt_double_json(p.min)));
    push_member(&mut ms, Ghost(m8), "max", opt_double_value(p.max), Ghost(opt_double_json(p.max)));
    proof {
        assert(m9 =~= seq![
            ("attributes"@, Json::Array(attributes_json(p.attributes@))),
            ("startTimeUnixNano"@, Json::Str(nanos_text(start))),
            ("timeUnixNano"@, Json::Str(nanos_text(time))),
            ("count"@, Json::Str(decimal(p.count as nat))),
            ("sum"@, double_json(p.sum)),
            ("bucketCounts"@, Json::Array(counts)),
            ("explicitBounds"@, Json::Array(bounds)),
            ("min"@, opt_double_json(p.min)),
            ("max"@, opt_double_json(p.max)),
        ]);
    }
    object(ms, Ghost(m9))
}

fn histogram_points_to_json(ps: &Vec<HistogramPoint>, start: Option<u128>, time: Option<u128>) -> (r:
    Vec<JsonValue>)
    ensures
        items_match(r@, histogram_points_json(ps@, start, time)),
{
    let ghost spec = histogram_points_json(ps@, start, time);
    let mut out: Vec<JsonValue> = Vec::new();
    let mut i: usize = 0;
    while i < ps.len()
        invariant
            i <= ps@.len(),
            spec == histogram_points_json(ps@, start, time),
            items_match(out@, spec.take(i as int)),
        decreases ps@.len() - i,
    {
        push_item(&mut out, Ghost(spec.take(i as int)), histogram_point_to_json(&ps[i], start, time), Ghost(spec[i as int]));
        proof {
            assert(spec.take(i as int).push(spec[i as int]) =~= spec.take(i + 1));
        }
        i = i + 1;
    }
    proof {
        assert(spec.take(i as int) =~= spec);
    }
    out
}

fn identity_members_of(m: &MetricRecord) -> (ms: Vec<(String, JsonValue)>)
    ensures
        members_match(ms@, identity_members(*m)),
{
    let ghost m0 = Seq::<(Seq<char>, Json)>::empty();
    let ghost m1 = m0.push(("name"@, Json::Str(m.name@)));
    let ghost m2 = m1.push(("description"@, Json::Str(m.description@)));
    let ghost m3 = m2.push(("unit"@, Json::Str(m.unit@)));
    let mut ms: Vec<(String, JsonValue)> = Vec::new();
    push_member(&mut ms, Ghost(m0), "name", string_value(m.name.clone()), Ghost(Json::Str(m.name@)));
    push_member(&mut ms, Ghost(m1), "description", string_value(m.description.clone()), Ghost(Json::Str(m.description@)));
    push_member(&mut ms, Ghost(m2), "unit", string_value(m.unit.clone()), Ghost(Json::Str(m.unit@)));
    proof {
        assert(m3 =~= identity_members(*m));
    }
    ms
}

fn temporality_json(t: Temporality) -> (r: JsonValue)
    ensures
        is_json(r, uint_json(temporality_number(t) as u64)),
{
    JsonValue::Number(JsonNumber::PosInt(temporality_value(t) as u64))
}

/// Converts a metric to OTLP JSON.
pub fn serialize_metric(m: &MetricRecord) -> (r: JsonValue)
    ensures
        is_json(r, metric_json(*m)),
{
    let mut ms = identity_members_of(m);
    let ghost base = identity_members(*m);
    match &m.data {
        MetricData::Sum { points, start_nanos, time_nanos, temporality, is_monotonic } => {
            let pts = number_points_to_json(points, *start_nanos, *time_nanos, true);
            let ghost pspec = number_points_json(points@, *start_nanos, *time_nanos, true);
            let ghost s0 = Seq::<(Seq<char>, Json)>::empty();
            let ghost s1 = s0.push(("dataPoints"@, Json::Array(pspec)));
            let ghost s2 = s1.push(("aggregationTemporality"@, uint_json(temporality_number(*temporality) as u64)));
            let ghost s3 = s2.push(("isMonotonic"@, Json::Bool(*is_monotonic)));
            let mut inner: Vec<(String, JsonValue)> = Vec::new();
            push_member(&mut inner, Ghost(s0), "dataPoints", array(pts, Ghost(pspec)), Ghost(Json::Array(pspec)));
            push_member(&mut inner, Ghost(s1), "aggregationTemporality", temporality_json(*temporality), Ghost(uint_json(temporality_number(*temporality) as u64)));
            push_member(&mut inner, Ghost(s2), "isMonotonic", JsonValue::Bool(*is_monotonic), Ghost(Json::Bool(*is_monotonic)));
            proof {
                assert(s3 =~= seq![
                    ("dataPoints"@, Json::Array(pspec)),
                    ("aggregationTemporality"@, uint_json(temporality_number(*temporality) as u64)),
                    ("isMonotonic"@, Json::Bool(*is_monotonic)),
                ]);
            }
            push_member(&mut ms, Ghost(base), "sum", object(inner, Ghost(s3)), Ghost(Json::Object(s3)));
            object(ms, Ghost(base.push(("sum"@, Json::Object(s3)))))
        },
        MetricData::Gauge { points, start_nanos, time_nanos } => {
            let pts = number_points_to_json(points, *start_nanos, *time_nanos, false);
            let ghost pspec = number_points_json(points@, *start_nanos, *time_nanos, false);
            let inner = single_object("dataPoints", array(pts, Ghost(pspec)), Ghost(Json::Array(pspec)));
            push_member(&mut ms, Ghost(base), "gauge", inner, Ghost(single("dataPoints"@, Json::Array(pspec))));
            object(ms, Ghost(base.push(("gauge"@, single("dataPoints"@, Json::Array(pspec))))))
        },
        MetricData::Histogram { points, start_nanos, time_nanos, temporality } => {
            let pts = histogram_points_to_json(points, *start_nanos, *time_nanos);
            let ghost pspec = histogram_points_json(points@, *start_nanos, *time_nanos);
            let ghost s0 = Seq::<(Seq<char>, Json)>::empty();
            let ghost s1 = s0.push(("dataPoints"@, Json::Array(pspec)));
            let ghost s2 = s1.push(("aggregationTemporality"@, uint_json(temporality_number(*temporality) as u64)));
            let mut inner: Vec<(String, JsonValue)> = Vec::new();
            push_member(&mut inner, Ghost(s0), "dataPoints", array(pts, Ghost(pspec)), Ghost(Json::Array(pspec)));
            push_member(&mut inner, Ghost(s1), "aggregationTemporality", temporality_json(*temporality), Ghost(uint_json(temporality_number(*temporality) as u64)));
            proof {
                assert(s2 =~= seq![
                    ("dataPoints"@, Json::Array(pspec)),
                    ("aggregationTemporality"@, uint_json(temporality_number(*temporality) as u64)),
                ]);
            }
            push_member(&mut ms, Ghost(base), "histogram", object(inner, Ghost(s2)), Ghost(Json::Object(s2)));
            object(ms, Ghost(base.push(("histogram"@, Json::Object(s2)))))
        },
        MetricData::Other => object(ms, Ghost(base)),
    }
}

fn scope_metrics_to_json(s: &ScopeMetricsData) -> (r: JsonValue)
    ensures
        is_json(r, scope_metrics_json(*s)),
{
    let ghost mspec = s.metrics@.map_values(|m: MetricRecord| metric_json(m));
    let mut metrics: Vec<JsonValue> = Vec::new();
    let mut i: usize = 0;
    while i < s.metrics.len()
        invariant
            i <= s.metrics@.len(),
            mspec == s.metrics@.map_values(|m: MetricRecord| metric_json(m)),
            items_match(metrics@, mspec.take(i as int)),
        decreases s.metrics@.len() - i,
    {
        push_item(&mut metrics, Ghost(mspec.take(i as int)), serialize_metric(&s.metrics[i]), Ghost(mspec[i as int]));
        proof {
            assert(mspec.take(i as int).push(mspec[i as int]) =~= mspec.take(i + 1));
        }
        i = i + 1;
    }
    proof {
        assert(mspec.take(i as int) =~= mspec);
    }
    let version = match &s.scope_version {
        Some(v) => v.clone(),
        None => String::new(),
    };
    let ghost n0 = Seq::<(Seq<char>, Json)>::empty();
    let ghost n1 = n0.push(("name"@, Json::Str(s.scope_name@)));
    let ghost n2 = n1.push(("version"@, Json::Str(opt_text(s.scope_version))));
    let mut scope: Vec<(String, JsonValue)> = Vec::new();
    push_member(&mut scope, Ghost(n0), "name", string_value(s.scope_name.clone()), Ghost(Json::Str(s.scope_name@)));
    push_member(&mut scope, Ghost(n1), "version", string_value(version), Ghost(Json::Str(opt_text(s.scope_version))));
    let ghost scope_spec = seq![("name"@, Json::Str(s.scope_name@)), ("version"@, Json::Str(opt_text(s.scope_version)))];
    proof {
        assert(n2 =~= scope_spec);
    }
    let ghost o0 = Seq::<(Seq<char>, Json)>::empty();
    let ghost o1 = o0.push(("scope"@, Json::Object(scope_spec)));
    let ghost o2 = o1.push(("metrics"@, Json::Array(mspec)));
    let mut ms: Vec<(String, JsonValue)> = Vec::new();
    push_member(&mut ms, Ghost(o0), "scope", object(scope, Ghost(scope_spec)), Ghost(Json::Object(scope_spec)));
    push_member(&mut ms, Ghost(o1), "metrics", array(metrics, Ghost(mspec)), Ghost(Json::Array(mspec)));
    proof {
        assert(o2 =~= seq![("scope"@, Json::Object(scope_spec)), ("metrics"@, Json::Array(mspec))]);
    }
    object(ms, Ghost(o2))
}

/// The metrics message for a collection: the resource's attributes and the
/// metrics of each scope, in order.
pub fn metrics_payload_json(resource: &[Attribute], scopes: &[ScopeMetricsData]) -> (r: JsonValue)
    ensures
        is_json(r, metrics_payload(resource@, scopes@)),
{
    let ghost sspec = scopes@.map_values(|s: ScopeMetricsData| scope_metrics_json(s));
    let mut items: Vec<JsonValue> = Vec::new();
    let mut i: usize = 0;
    while i < scopes.len()
        invariant
            i <= scopes@.len(),
            sspec == scopes@.map_values(|s: ScopeMetricsData| scope_metrics_json(s)),
            items_match(items@, sspec.take(i as int)),
        decreases scopes@.len() - i,
    {
        push_item(&mut items, Ghost(sspec.take(i as int)), scope_metrics_to_json(&scopes[i]), Ghost(sspec[i as int]));
        proof {
            assert(sspec.take(i as int).push(sspec[i as int]) =~= sspec.take(i + 1));
        }
        i = i + 1;
    }
    proof {
        assert(sspec.take(i as int) =~= sspec);
    }
    let attrs = attrs_to_json(resource);
    let res = single_object(
        "attributes",
        array(attrs, Ghost(attributes_json(resource@))),
        Ghost(Json::Array(attributes_json(resource@))),
    );
    let ghost r0 = Seq::<(Seq<char>, Json)>::empty();
    let ghost r1 = r0.push(("resource"@, resource_json(resource@)));
    let ghost r2 = r1.push(("scopeMetrics"@, Json::Array(sspec)));
    let mut ms: Vec<(String, JsonValue)> = Vec::new();
    push_member(&mut ms, Ghost(r0), "resource", res, Ghost(resource_json(resource@)));
    push_member(&mut ms, Ghost(r1), "scopeMetrics", array(items, Ghost(sspec)), Ghost(Json::Array(sspec)));
    let ghost body_members = seq![("resource"@, resource_json(resource@)), ("scopeMetrics"@, Json::Array(sspec))];
    proof {
        assert(r2 =~= body_members);
    }
    let body = object(ms, Ghost(body_members));
    let mut list: Vec<JsonValue> = Vec::new();
    push_item(&mut list, Ghost(Seq::empty()), body, Ghost(Json::Object(body_members)));
    let ghost list_spec = seq![Json::Object(body_members)];
    proof {
        assert(Seq::<Json>::empty().push(Json::Object(body_members)) =~= list_spec);
    }
    single_object("resourceMetrics", array(list, Ghost(list_spec)), Ghost(Json::Array(list_spec)))
}

/// A serialized sum keeps the sum's own monotonicity and temporality: the
/// document's `sum` member has an `isMonotonic` member equal to the
/// metric's `is_monotonic` flag (true for a counter, false for an up-down
/// counter) and an `aggregationTemporality` of 2 for a cumulative sum and 1
/// otherwise.
pub proof fn law_sum_keeps_monotonicity(m: MetricRecord, r: JsonValue)
    requires
        is_json(r, metric_json(m)),
        m.data is Sum,
    ensures
        crate::json::json_get(r, "sum"@) matches Some(sum) && crate::json::json_get(
            sum,
            "isMonotonic"@,
        ) == Some(JsonValue::Bool(m.data->is_monotonic)) && crate::json::json_get(
            sum,
            "aggregationTemporality"@,
        ) == Some(
            JsonValue::Number(
                JsonNumber::PosInt(
                    if m.data->Sum_temporality == Temporality::Cumulative {
                        2
                    } else {
                        1
                    },
                ),
            ),
        ),
{
    reveal_strlit("name");
    reveal_strlit("description");
    reveal_strlit("unit");
    reveal_strlit("sum");
    reveal_strlit("dataPoints");
    reveal_strlit("aggregationTemporality");
    reveal_strlit("isMonotonic");
    let xs = r->Object_0@;
    assert(xs.len() == 4);
    assert(xs[0].0@ == "name"@ && xs[1].0@ == "description"@ && xs[2].0@ == "unit"@);
    assert(xs[3].0@ == "sum"@);
    assert(xs.drop_first().drop_first().drop_first().drop_first().len() == 0);
    assert(crate::json::member_value(xs.drop_first().drop_first().drop_first(), "sum"@) == Some(
        xs[3].1,
    ));
    assert(crate::json::member_value(xs.drop_first().drop_first(), "sum"@) == Some(xs[3].1));
    assert(crate::json::member_value(xs.drop_first(), "sum"@) == Some(xs[3].1));
    assert(crate::json::member_value(xs, "sum"@) == Some(xs[3].1));
    let sum = xs[3].1;
    let spec = metric_json(m)->Object_0;
    assert(is_json(sum, spec[3].1));
    assert(spec[3].1 is Object);
    let ys = sum->Object_0@;
    assert(ys.len() == 3);
    assert(ys[0].0@ == "dataPoints"@ && ys[1].0@ == "aggregationTemporality"@);
    assert(ys[2].0@ == "isMonotonic"@);
    assert(is_json(ys[2].1, Json::Bool(m.data->is_monotonic)));
    assert(crate::json::member_value(ys.drop_first().drop_first(), "isMonotonic"@) == Some(
        ys[2].1,
    ));
    assert(crate::json::member_value(ys.drop_first(), "isMonotonic"@) == Some(ys[2].1));
    assert(crate::json::member_value(ys, "isMonotonic"@) == Some(ys[2].1));
    assert(crate::json::member_value(ys.drop_first(), "aggregationTemporality"@) == Some(ys[1].1));
    assert(crate::json::member_value(ys, "aggregationTemporality"@) == Some(ys[1].1));
    assert(is_json(ys[1].1, spec[3].1->Object_0[1].1));
}

} // verus!
