//! OTLP JSON in the shape the engine reads: attribute values with integers
//! as JSON numbers, log records grouped by instrumentation scope, and the
//! resource envelope around them.

use vstd::prelude::*;
use crate::digits::{decimal, decimal_string, hex, push_hex};
use crate::json::{is_json, Json, JsonNumber, JsonValue};

verus! {

// ---------------------------------------------------------------------------
// Building documents
// ---------------------------------------------------------------------------

/// The members `ms` hold the document members `spec`, in order.
pub open spec fn members_match(ms: Seq<(String, JsonValue)>, spec: Seq<(Seq<char>, Json)>) -> bool {
    ms.len() == spec.len() && forall|i: int|
        0 <= i < ms.len() ==> (#[trigger] ms[i]).0@ == spec[i].0 && is_json(ms[i].1, spec[i].1)
}

/// The items `xs` hold the documents `spec`, in order.
pub open spec fn items_match(xs: Seq<JsonValue>, spec: Seq<Json>) -> bool {
    xs.len() == spec.len() && forall|i: int| 0 <= i < xs.len() ==> is_json(#[trigger] xs[i], spec[i])
}

/// An object with the single member `key`.
pub open spec fn single(key: Seq<char>, value: Json) -> Json {
    Json::Object(seq![(key, value)])
}

/// A JSON integer as `serde_json` makes it from a signed value.
pub open spec fn int_json(i: int) -> Json {
    if i < 0 {
        Json::Number(JsonNumber::NegInt(i as i64))
    } else {
        Json::Number(JsonNumber::PosInt(i as u64))
    }
}

/// The float with bit pattern `bits` is finite (not NaN, not infinite).
pub open spec fn finite_bits(bits: u64) -> bool {
    (bits >> 52u64) & 0x7ffu64 != 0x7ffu64
}

/// A JSON number from a float; JSON has no NaN or infinity, so those
/// become `null`.
pub open spec fn double_json(bits: u64) -> Json {
    if finite_bits(bits) {
        Json::Number(JsonNumber::Float(bits))
    } else {
        Json::Null
    }
}

pub(crate) fn object(members: Vec<(String, JsonValue)>, Ghost(spec): Ghost<Seq<(Seq<char>, Json)>>) -> (r:
    JsonValue)
    requires
        members_match(members@, spec),
    ensures
        is_json(r, Json::Object(spec)),
{
    JsonValue::Object(members)
}

pub(crate) fn array(items: Vec<JsonValue>, Ghost(spec): Ghost<Seq<Json>>) -> (r: JsonValue)
    requires
        items_match(items@, spec),
    ensures
        is_json(r, Json::Array(spec)),
{
    JsonValue::Array(items)
}

/// Appends member `key: value` to `ms`.
pub(crate) fn push_member(
    ms: &mut Vec<(String, JsonValue)>,
    Ghost(spec): Ghost<Seq<(Seq<char>, Json)>>,
    key: &str,
    value: JsonValue,
    Ghost(j): Ghost<Json>,
)
    requires
        members_match(old(ms)@, spec),
        is_json(value, j),
    ensures
        members_match(final(ms)@, spec.push((key@, j))),
{
    ms.push((key.to_owned(), value));
    proof {
        let t = spec.push((key@, j));
        assert forall|i: int| 0 <= i < ms@.len() implies (#[trigger] ms@[i]).0@ == t[i].0
            && is_json(ms@[i].1, t[i].1) by {
            if i < old(ms)@.len() {
                assert(ms@[i] == old(ms)@[i]);
            }
        }
    }
}

/// Appends `value` to `xs`.
pub(crate) fn push_item(
    xs: &mut Vec<JsonValue>,
    Ghost(spec): Ghost<Seq<Json>>,
    value: JsonValue,
    Ghost(j): Ghost<Json>,
)
    requires
        items_match(old(xs)@, spec),
        is_json(value, j),
    ensures
        items_match(final(xs)@, spec.push(j)),
{
    xs.push(value);
    proof {
        assert forall|i: int| 0 <= i < xs@.len() implies is_json(#[trigger] xs@[i], spec.push(j)[i]) by {
            if i < old(xs)@.len() {
                assert(xs@[i] == old(xs)@[i]);
            }
        }
    }
}

/// The object with the single member `key: value`.
pub(crate) fn single_object(key: &str, value: JsonValue, Ghost(j): Ghost<Json>) -> (r: JsonValue)
    requires
        is_json(value, j),
    ensures
        is_json(r, single(key@, j)),
{
    let mut ms: Vec<(String, JsonValue)> = Vec::new();
    push_member(&mut ms, Ghost(Seq::empty()), key, value, Ghost(j));
    let ghost spec = seq![(key@, j)];
    proof {
        assert(Seq::<(Seq<char>, Json)>::empty().push((key@, j)) =~= spec);
    }
    object(ms, Ghost(spec))
}

pub(crate) fn string_value(s: String) -> (r: JsonValue)
    ensures
        is_json(r, Json::Str(s@)),
{
    JsonValue::String(s)
}

pub(crate) fn int_value(i: i64) -> (r: JsonValue)
    ensures
        is_json(r, int_json(i as int)),
{
    if i < 0 {
        JsonValue::Number(JsonNumber::NegInt(i))
    } else {
        JsonValue::Number(JsonNumber::PosInt(i as u64))
    }
}

pub(crate) fn double_value(bits: u64) -> (r: JsonValue)
    ensures
        is_json(r, double_json(bits)),
{
    if (bits >> 52u64) & 0x7ffu64 != 0x7ffu64 {
        JsonValue::Number(JsonNumber::Float(bits))
    } else {
        JsonValue::Null
    }
}

/// `bytes` as lower-case hex, two digits per byte (trace and span ids).
pub fn bytes_to_hex(bytes: &[u8]) -> (s: String)
    ensures
        s@ == hex(bytes@),
{
    let mut s = String::new();
    push_hex(&mut s, bytes);
    proof {
        assert(Seq::<char>::empty() + hex(bytes@) =~= hex(bytes@));
    }
    s
}

/// `bytes` as lower-case hex, two digits per byte (byte values of logs).
pub fn bytes_to_hex_str(bytes: &[u8]) -> (s: String)
    ensures
        s@ == hex(bytes@),
{
    let mut s = String::new();
    push_hex(&mut s, bytes);
    proof {
        assert(Seq::<char>::empty() + hex(bytes@) =~= hex(bytes@));
    }
    s
}

// ---------------------------------------------------------------------------
// Attribute values
// ---------------------------------------------------------------------------

/// An attribute value. Floats are held by their bit pattern.
#[derive(Debug)]
pub enum AttrValue {
    Bool(bool),
    I64(i64),
    F64(u64),
    String(String),
    BoolArray(Vec<bool>),
    I64Array(Vec<i64>),
    F64Array(Vec<u64>),
    StringArray(Vec<String>),
    /// An array of a kind this format does not render.
    OtherArray,
    /// Any other value, by its debug rendering.
    Other(String),
}

/// A keyed attribute.
#[derive(Debug)]
pub struct Attribute {
    pub key: String,
    pub value: AttrValue,
}

pub open spec fn array_value(items: Seq<Json>) -> Json {
    single("arrayValue"@, single("values"@, Json::Array(items)))
}

pub open spec fn bool_item(b: bool) -> Json {
    single("boolValue"@, Json::Bool(b))
}

pub open spec fn int_item(i: i64) -> Json {
    single("intValue"@, int_json(i as int))
}

pub open spec fn double_item(bits: u64) -> Json {
    single("doubleValue"@, double_json(bits))
}

pub open spec fn string_item(s: Seq<char>) -> Json {
    single("stringValue"@, Json::Str(s))
}

/// OTLP JSON of an attribute value.
pub open spec fn attr_json(v: AttrValue) -> Json {
    match v {
        AttrValue::Bool(b) => bool_item(b),
        AttrValue::I64(i) => int_item(i),
        AttrValue::F64(f) => double_item(f),
        AttrValue::String(s) => string_item(s@),
        AttrValue::BoolArray(vs) => array_value(vs@.map_values(|b: bool| bool_item(b))),
        AttrValue::I64Array(vs) => array_value(vs@.map_values(|i: i64| int_item(i))),
        AttrValue::F64Array(vs) => array_value(vs@.map_values(|f: u64| double_item(f))),
        AttrValue::StringArray(vs) => array_value(vs@.map_values(|s: String| string_item(s@))),
        AttrValue::OtherArray => array_value(Seq::empty()),
        AttrValue::Other(d) => string_item(d@),
    }
}

/// OTLP JSON of a keyed attribute: `{"key": .., "value": ..}`.
pub open spec fn attribute_json(a: Attribute) -> Json {
    Json::Object(seq![("key"@, Json::Str(a.key@)), ("value"@, attr_json(a.value))])
}

pub open spec fn attributes_json(attrs: Seq<Attribute>) -> Seq<Json> {
    attrs.map_values(|a: Attribute| attribute_json(a))
}

fn bool_item_value(b: bool) -> (r: JsonValue)
    ensures
        is_json(r, bool_item(b)),
{
    single_object("boolValue", JsonValue::Bool(b), Ghost(Json::Bool(b)))
}

fn int_item_value(i: i64) -> (r: JsonValue)
    ensures
        is_json(r, int_item(i)),
{
    single_object("intValue", int_value(i), Ghost(int_json(i as int)))
}

fn double_item_value(bits: u64) -> (r: JsonValue)
    ensures
        is_json(r, double_item(bits)),
{
    single_object("doubleValue", double_value(bits), Ghost(double_json(bits)))
}

fn string_item_value(s: &String) -> (r: JsonValue)
    ensures
        is_json(r, string_item(s@)),
{
    single_object("stringValue", string_value(s.clone()), Ghost(Json::Str(s@)))
}

fn array_value_of(items: Vec<JsonValue>, Ghost(spec): Ghost<Seq<Json>>) -> (r: JsonValue)
    requires
        items_match(items@, spec),
    ensures
        is_json(r, array_value(spec)),
{
    let values = single_object("values", array(items, Ghost(spec)), Ghost(Json::Array(spec)));
    single_object("arrayValue", values, Ghost(single("values"@, Json::Array(spec))))
}

/// Converts an attribute value to OTLP JSON; integers stay JSON numbers.
pub fn attr_value_to_json(v: &AttrValue) -> (r: JsonValue)
    ensures
        is_json(r, attr_json(*v)),
{
    match v {
        AttrValue::Bool(b) => bool_item_value(*b),
        AttrValue::I64(i) => int_item_value(*i),
        AttrValue::F64(f) => double_item_value(*f),
        AttrValue::String(s) => string_item_value(s),
        AttrValue::BoolArray(vs) => {
            let mut out: Vec<JsonValue> = Vec::new();
            let ghost spec = vs@.map_values(|b: bool| bool_item(b));
            let mut i: usize = 0;
            while i < vs.len()
                invariant
                    i <= vs@.len(),
                    spec == vs@.map_values(|b: bool| bool_item(b)),
                    items_match(out@, spec.take(i as int)),
                decreases vs@.len() - i,
            {
                push_item(&mut out, Ghost(spec.take(i as int)), bool_item_value(vs[i]), Ghost(spec[i as int]));
                proof {
                    assert(spec.take(i as int).push(spec[i as int]) =~= spec.take(i + 1));
                }
                i = i + 1;
            }
            proof {
                assert(spec.take(i as int) =~= spec);
            }
            array_value_of(out, Ghost(spec))
        },
        AttrValue::I64Array(vs) => {
            let mut out: Vec<JsonValue> = Vec::new();
            let ghost spec = vs@.map_values(|x: i64| int_item(x));
            let mut i: usize = 0;
            while i < vs.len()
                invariant
                    i <= vs@.len(),
                    spec == vs@.map_values(|x: i64| int_item(x)),
                    items_match(out@, spec.take(i as int)),
                decreases vs@.len() - i,
            {
                push_item(&mut out, Ghost(spec.take(i as int)), int_item_value(vs[i]), Ghost(spec[i as int]));
                proof {
                    assert(spec.take(i as int).push(spec[i as int]) =~= spec.take(i + 1));
                }
                i = i + 1;
            }
            proof {
                assert(spec.take(i as int) =~= spec);
            }
            array_value_of(out, Ghost(spec))
        },
        AttrValue::F64Array(vs) => {
            let mut out: Vec<JsonValue> = Vec::new();
            let ghost spec = vs@.map_values(|f: u64| double_item(f));
            let mut i: usize = 0;
            while i < vs.len()
                invariant
                    i <= vs@.len(),
                    spec == vs@.map_values(|f: u64| double_item(f)),
                    items_match(out@, spec.take(i as int)),
                decreases vs@.len() - i,
            {
                push_item(&mut out, Ghost(spec.take(i as int)), double_item_value(vs[i]), Ghost(spec[i as int]));
                proof {
                    assert(spec.take(i as int).push(spec[i as int]) =~= spec.take(i + 1));
                }
                i = i + 1;
            }
            proof {
                assert(spec.take(i as int) =~= spec);
            }
            array_value_of(out, Ghost(spec))
        },
        AttrValue::StringArray(vs) => {
            let mut out: Vec<JsonValue> = Vec::new();
            let ghost spec = vs@.map_values(|s: String| string_item(s@));
            let mut i: usize = 0;
            while i < vs.len()
                invariant
                    i <= vs@.len(),
                    spec == vs@.map_values(|s: String| string_item(s@)),
                    items_match(out@, spec.take(i as int)),
                decreases vs@.len() - i,
            {
                push_item(&mut out, Ghost(spec.take(i as int)), string_item_value(&vs[i]), Ghost(spec[i as int]));
                proof {
                    assert(spec.take(i as int).push(spec[i as int]) =~= spec.take(i + 1));
                }
                i = i + 1;
            }
            proof {
                assert(spec.take(i as int) =~= spec);
            }
            array_value_of(out, Ghost(spec))
        },
        AttrValue::OtherArray => {
            let out: Vec<JsonValue> = Vec::new();
            array_value_of(out, Ghost(Seq::empty()))
        },
        AttrValue::Other(d) => string_item_value(d),
    }
}

fn attribute_to_json(a: &Attribute) -> (r: JsonValue)
    ensures
        is_json(r, attribute_json(*a)),
{
    let ghost first = seq![("key"@, Json::Str(a.key@))];
    let ghost both = seq![("key"@, Json::Str(a.key@)), ("value"@, attr_json(a.value))];
    let mut ms: Vec<(String, JsonValue)> = Vec::new();
    push_member(&mut ms, Ghost(Seq::empty()), "key", string_value(a.key.clone()), Ghost(Json::Str(a.key@)));
    proof {
        assert(Seq::<(Seq<char>, Json)>::empty().push(("key"@, Json::Str(a.key@))) =~= first);
    }
    push_member(&mut ms, Ghost(first), "value", attr_value_to_json(&a.value), Ghost(attr_json(a.value)));
    proof {
        assert(first.push(("value"@, attr_json(a.value))) =~= both);
    }
    object(ms, Ghost(both))
}

/// Converts keyed attributes to the OTLP JSON attribute list.
pub fn attrs_to_json(attrs: &[Attribute]) -> (r: Vec<JsonValue>)
    ensures
        items_match(r@, attributes_json(attrs@)),
{
    let ghost spec = attributes_json(attrs@);
    let mut out: Vec<JsonValue> = Vec::new();
    let mut i: usize = 0;
    while i < attrs.len()
        invariant
            i <= attrs@.len(),
            spec == attributes_json(attrs@),
            items_match(out@, spec.take(i as int)),
        decreases attrs@.len() - i,
    {
        push_item(&mut out, Ghost(spec.take(i as int)), attribute_to_json(&attrs[i]), Ghost(spec[i as int]));
        proof {
            assert(spec.take(i as int).push(spec[i as int]) =~= spec.take(i + 1));
        }
        i = i + 1;
    }
    proof {
        assert(spec.take(i as int) =~= spec);
    }
    out
}

// ---------------------------------------------------------------------------
// Log values
// ---------------------------------------------------------------------------

/// A log body or log attribute value. Floats are held by their bit
/// pattern; a map keeps the order its entries were read in.
#[derive(Debug)]
pub enum AnyValue {
    Boolean(bool),
    Int(i64),
    Double(u64),
    String(String),
    Bytes(Vec<u8>),
    ListAny(Vec<AnyValue>),
    KvList(Vec<(String, AnyValue)>),
    /// Any other value, by its debug rendering.
    Other(String),
}

/// OTLP JSON of a log value.
pub open spec fn anyvalue_json(v: AnyValue) -> Json
    decreases v, 0int,
{
    match v {
        AnyValue::Boolean(b) => bool_item(b),
        AnyValue::Int(i) => int_item(i),
        AnyValue::Double(f) => double_item(f),
        AnyValue::String(s) => string_item(s@),
        AnyValue::Bytes(bs) => single("bytesValue"@, Json::Str(hex(bs@))),
        AnyValue::ListAny(xs) => array_value(anyvalues_json(xs@)),
        AnyValue::KvList(kvs) => single("kvlistValue"@, single("values"@, Json::Array(kv_entries_json(kvs@)))),
        AnyValue::Other(d) => string_item(d@),
    }
}

/// OTLP JSON of each log value, in order.
pub open spec fn anyvalues_json(xs: Seq<AnyValue>) -> Seq<Json>
    decreases xs, 1int,
{
    if xs.len() == 0 {
        Seq::empty()
    } else {
        anyvalues_json(xs.drop_last()).push(anyvalue_json(xs.last()))
    }
}

/// OTLP JSON of a keyed log value: `{"key": .., "value": ..}`.
pub open spec fn kv_entry_json(key: Seq<char>, v: AnyValue) -> Json
    decreases v, 1int,
{
    Json::Object(seq![("key"@, Json::Str(key)), ("value"@, anyvalue_json(v))])
}

/// OTLP JSON of each keyed log value, in order.
pub open spec fn kv_entries_json(kvs: Seq<(String, AnyValue)>) -> Seq<Json>
    decreases kvs, 1int,
{
    if kvs.len() == 0 {
        Seq::empty()
    } else {
        kv_entries_json(kvs.drop_last()).push(kv_entry_json(kvs.last().0@, kvs.last().1))
    }
}

fn key_value_object(key: &String, value: JsonValue, Ghost(j): Ghost<Json>) -> (r: JsonValue)
    requires
        is_json(value, j),
    ensures
        is_json(r, Json::Object(seq![("key"@, Json::Str(key@)), ("value"@, j)])),
{
    let ghost first = seq![("key"@, Json::Str(key@))];
    let ghost both = seq![("key"@, Json::Str(key@)), ("value"@, j)];
    let mut ms: Vec<(String, JsonValue)> = Vec::new();
    push_member(&mut ms, Ghost(Seq::empty()), "key", string_value(key.clone()), Ghost(Json::Str(key@)));
    proof {
        assert(Seq::<(Seq<char>, Json)>::empty().push(("key"@, Json::Str(key@))) =~= first);
    }
    push_member(&mut ms, Ghost(first), "value", value, Ghost(j));
    proof {
        assert(first.push(("value"@, j)) =~= both);
    }
    object(ms, Ghost(both))
}

/// Converts a log value to OTLP JSON; bytes become lower-case hex.
pub fn anyvalue_to_json(v: &AnyValue) -> (r: JsonValue)
    ensures
        is_json(r, anyvalue_json(*v)),
    decreases v,
{
    match v {
        AnyValue::Boolean(b) => bool_item_value(*b),
        AnyValue::Int(i) => int_item_value(*i),
        AnyValue::Double(f) => double_item_value(*f),
        AnyValue::String(s) => string_item_value(s),
        AnyValue::Bytes(bs) => single_object(
            "bytesValue",
            string_value(bytes_to_hex_str(bs.as_slice())),
            Ghost(Json::Str(hex(bs@))),
        ),
        AnyValue::ListAny(xs) => {
            let mut out: Vec<JsonValue> = Vec::new();
            let mut i: usize = 0;
            while i < xs.len()
                invariant
                    i <= xs@.len(),
                    *v == AnyValue::ListAny(*xs),
                    items_match(out@, anyvalues_json(xs@.take(i as int))),
                decreases xs@.len() - i,
            {
                proof {
                    let gv = *v;
                    assert(decreases_to!(gv => gv->ListAny_0));
                    assert(decreases_to!(gv->ListAny_0 => gv->ListAny_0@));
                    assert(decreases_to!(gv->ListAny_0@ => xs@[i as int]));
                }
                let item = anyvalue_to_json(&xs[i]);
                proof {
                    let t = xs@.take(i + 1);
                    assert(t.drop_last() =~= xs@.take(i as int));
                    assert(t.last() == xs@[i as int]);
                }
                push_item(
                    &mut out,
                    Ghost(anyvalues_json(xs@.take(i as int))),
                    item,
                    Ghost(anyvalue_json(xs@[i as int])),
                );
                i = i + 1;
            }
            proof {
                assert(xs@.take(i as int) =~= xs@);
            }
            array_value_of(out, Ghost(anyvalues_json(xs@)))
        },
        AnyValue::KvList(kvs) => {
            let mut out: Vec<JsonValue> = Vec::new();
            let mut i: usize = 0;
            while i < kvs.len()
                invariant
                    i <= kvs@.len(),
                    *v == AnyValue::KvList(*kvs),
                    items_match(out@, kv_entries_json(kvs@.take(i as int))),
                decreases kvs@.len() - i,
            {
                proof {
                    let gv = *v;
                    assert(decreases_to!(gv => gv->KvList_0));
                    assert(decreases_to!(gv->KvList_0 => gv->KvList_0@));
                    assert(decreases_to!(gv->KvList_0@ => kvs@[i as int]));
                    assert(decreases_to!(kvs@[i as int] => kvs@[i as int].1));
                }
                let value = anyvalue_to_json(&kvs[i].1);
                let entry = key_value_object(&kvs[i].0, value, Ghost(anyvalue_json(kvs@[i as int].1)));
                proof {
                    let t = kvs@.take(i + 1);
                    assert(t.drop_last() =~= kvs@.take(i as int));
                    assert(t.last() == kvs@[i as int]);
                }
                push_item(
                    &mut out,
                    Ghost(kv_entries_json(kvs@.take(i as int))),
                    entry,
                    Ghost(kv_entry_json(kvs@[i as int].0@, kvs@[i as int].1)),
                );
                i = i + 1;
            }
            proof {
                assert(kvs@.take(i as int) =~= kvs@);
            }
            let values = single_object(
                "values",
                array(out, Ghost(kv_entries_json(kvs@))),
                Ghost(Json::Array(kv_entries_json(kvs@))),
            );
            single_object(
                "kvlistValue",
                values,
                Ghost(single("values"@, Json::Array(kv_entries_json(kvs@)))),
            )
        },
        AnyValue::Other(d) => string_item_value(d),
    }
}

// ---------------------------------------------------------------------------
// Timestamps
// ---------------------------------------------------------------------------

/// Nanoseconds since the Unix epoch as decimal text; `"0"` for a time
/// before the epoch (or none).
pub open spec fn nanos_text(n: Option<u128>) -> Seq<char> {
    match n {
        Some(x) => decimal(x as nat),
        None => seq!['0'],
    }
}

/// Decimal text of nanoseconds since the epoch, `"0"` for none.
pub fn nanos_string(n: Option<u128>) -> (s: String)
    ensures
        s@ == nanos_text(n),
{
    match n {
        Some(x) => decimal_string(x),
        None => {
            let mut s = String::new();
            s.push('0');
            proof {
                assert(s@ =~= seq!['0']);
            }
            s
        },
    }
}

#[verifier::external_type_specification]
#[verifier::external_body]
pub struct ExSystemTime(std::time::SystemTime);

/// What `SystemTime::duration_since(UNIX_EPOCH)` gives for a time: the
/// duration since the epoch, or `None` (the call's error) for a time before
/// it. A function of the time value alone.
pub uninterp spec fn since_epoch(t: std::time::SystemTime) -> Option<core::time::Duration>;

/// What `Duration::as_nanos` gives for a duration: its whole nanoseconds.
pub uninterp spec fn duration_nanos(d: core::time::Duration) -> u128;

/// Nanoseconds since the epoch of a time, `None` before the epoch.
pub open spec fn epoch_nanos(t: std::time::SystemTime) -> Option<u128> {
    match since_epoch(t) {
        Some(d) => Some(duration_nanos(d)),
        None => None,
    }
}

/// `SystemTime::duration_since(UNIX_EPOCH)`, with its error mapped to
/// `None`. The contract names the result and says nothing more of it.
#[verifier::external_body]
fn duration_since_epoch(t: &std::time::SystemTime) -> (r: Option<core::time::Duration>)
    ensures
        r == since_epoch(*t),
{
    t.duration_since(std::time::UNIX_EPOCH).ok()
}

/// `Duration::as_nanos`. The contract names the count and says nothing
/// more of it.
#[verifier::external_body]
fn duration_as_nanos(d: &core::time::Duration) -> (r: u128)
    ensures
        r == duration_nanos(*d),
{
    d.as_nanos()
}

/// Nanoseconds since the Unix epoch of `t` as decimal text; `"0"` for a
/// time before the epoch.
pub fn system_time_to_nanos_string(t: std::time::SystemTime) -> (s: String)
    ensures
        s@ == nanos_text(epoch_nanos(t)),
{
    nanos_string(system_time_nanos(&t))
}

/// Nanoseconds since the Unix epoch of `t`, `None` for a time before the
/// epoch.
pub fn system_time_nanos(t: &std::time::SystemTime) -> (n: Option<u128>)
    ensures
        n == epoch_nanos(*t),
{
    match duration_since_epoch(t) {
        Some(d) => Some(duration_as_nanos(&d)),
        None => None,
    }
}

/// `system_time_to_nanos_string` of a present time, `"0"` for none.
pub fn opt_time_nanos(t: Option<std::time::SystemTime>) -> (s: String)
    ensures
        s@ == match t {
            Some(x) => nanos_text(epoch_nanos(x)),
            None => seq!['0'],
        },
{
    match t {
        Some(x) => system_time_to_nanos_string(x),
        None => nanos_string(None),
    }
}

// ---------------------------------------------------------------------------
// Log records
// ---------------------------------------------------------------------------

/// What the log exporter reads of one log record and its scope.
#[derive(Debug)]
pub struct LogRecordData {
    pub scope_name: String,
    pub scope_version: Option<String>,
    /// Trace id bytes, when the record carries a trace context.
    pub trace_id: Option<Vec<u8>>,
    /// Span id bytes, when the record carries a trace context.
    pub span_id: Option<Vec<u8>>,
    /// Nanoseconds since the epoch of the record's time, if any and not
    /// before the epoch.
    pub timestamp_nanos: Option<u128>,
    /// Same for the observed time.
    pub observed_timestamp_nanos: Option<u128>,
    pub severity_number: Option<i32>,
    pub severity_text: Option<String>,
    pub body: Option<AnyValue>,
    pub attributes: Vec<(String, AnyValue)>,
}

pub open spec fn opt_text(s: Option<String>) -> Seq<char> {
    match s {
        Some(t) => t@,
        None => Seq::empty(),
    }
}

pub open spec fn opt_hex(b: Option<Vec<u8>>) -> Seq<char> {
    match b {
        Some(v) => hex(v@),
        None => Seq::empty(),
    }
}

/// `n` zero characters.
pub open spec fn zeros(n: nat) -> Seq<char> {
    Seq::new(n, |i: int| '0')
}

/// An id is written when it is present and not all zeros.
pub open spec fn id_shown(h: Seq<char>, width: nat) -> bool {
    h.len() > 0 && h != zeros(width)
}

pub open spec fn body_json(b: Option<AnyValue>) -> Json {
    match b {
        Some(v) => anyvalue_json(v),
        None => string_item(Seq::empty()),
    }
}

/// Members of a log record's JSON: times, severity, body and attributes,
/// then `traceId` and `spanId` when shown.
pub open spec fn log_record_members(r: LogRecordData) -> Seq<(Seq<char>, Json)> {
    let base = seq![
        ("timeUnixNano"@, Json::Str(nanos_text(r.timestamp_nanos))),
        ("observedTimeUnixNano"@, Json::Str(nanos_text(r.observed_timestamp_nanos))),
        ("severityNumber"@, int_json(
            match r.severity_number {
                Some(n) => n as int,
                None => 0,
            },
        )),
        ("severityText"@, Json::Str(opt_text(r.severity_text))),
        ("body"@, body_json(r.body)),
        ("attributes"@, Json::Array(kv_entries_json(r.attributes@))),
    ];
    let t = opt_hex(r.trace_id);
    let sp = opt_hex(r.span_id);
    let with_trace = if id_shown(t, 32) {
        base.push(("traceId"@, Json::Str(t)))
    } else {
        base
    };
    if id_shown(sp, 16) {
        with_trace.push(("spanId"@, Json::Str(sp)))
    } else {
        with_trace
    }
}

pub open spec fn log_record_json(r: LogRecordData) -> Json {
    Json::Object(log_record_members(r))
}

fn is_zeros(s: &String, width: usize) -> (r: bool)
    ensures
        r == (s@ == zeros(width as nat)),
{
    let v = crate::text::chars_of(s.as_str());
    if v.len() != width {
        return false;
    }
    let mut i: usize = 0;
    while i < v.len()
        invariant
            i <= v@.len(),
            v@ == s@,
            v@.len() == width,
            forall|j: int| 0 <= j < i ==> v@[j] == '0',
        decreases v@.len() - i,
    {
        if v[i] != '0' {
            proof {
                assert(zeros(width as nat)[i as int] == '0');
            }
            return false;
        }
        i = i + 1;
    }
    proof {
        assert(v@ =~= zeros(width as nat));
    }
    true
}

fn opt_hex_string(b: &Option<Vec<u8>>) -> (s: String)
    ensures
        s@ == opt_hex(*b),
{
    match b {
        Some(v) => bytes_to_hex(v.as_slice()),
        None => String::new(),
    }
}

fn opt_string(s: &Option<String>) -> (r: String)
    ensures
        r@ == opt_text(*s),
{
    match s {
        Some(t) => t.clone(),
        None => String::new(),
    }
}

fn kv_list_to_json(kvs: &Vec<(String, AnyValue)>) -> (r: Vec<JsonValue>)
    ensures
        items_match(r@, kv_entries_json(kvs@)),
{
    let mut out: Vec<JsonValue> = Vec::new();
    let mut i: usize = 0;
    while i < kvs.len()
        invariant
            i <= kvs@.len(),
            items_match(out@, kv_entries_json(kvs@.take(i as int))),
        decreases kvs@.len() - i,
    {
        let value = anyvalue_to_json(&kvs[i].1);
        let entry = key_value_object(&kvs[i].0, value, Ghost(anyvalue_json(kvs@[i as int].1)));
        proof {
            let t = kvs@.take(i + 1);
            assert(t.drop_last() =~= kvs@.take(i as int));
            assert(t.last() == kvs@[i as int]);
        }
        push_item(
            &mut out,
            Ghost(kv_entries_json(kvs@.take(i as int))),
            entry,
            Ghost(kv_entry_json(kvs@[i as int].0@, kvs@[i as int].1)),
        );
        i = i + 1;
    }
    proof {
        assert(kvs@.take(i as int) =~= kvs@);
    }
    out
}

/// Converts one log record to OTLP JSON.
pub fn log_record_to_json(r: &LogRecordData) -> (v: JsonValue)
    ensures
        is_json(v, log_record_json(*r)),
{
    let ghost m0 = Seq::<(Seq<char>, Json)>::empty();
    let ghost m1 = m0.push(("timeUnixNano"@, Json::Str(nanos_text(r.timestamp_nanos))));
    let ghost m2 = m1.push(
        ("observedTimeUnixNano"@, Json::Str(nanos_text(r.observed_timestamp_nanos))),
    );
    let severity: i32 = match r.severity_number {
        Some(n) => n,
        None => 0,
    };
    let ghost m3 = m2.push(("severityNumber"@, int_json(severity as int)));
    let ghost m4 = m3.push(("severityText"@, Json::Str(opt_text(r.severity_text))));
    let ghost m5 = m4.push(("body"@, body_json(r.body)));
    let ghost m6 = m5.push(("attributes"@, Json::Array(kv_entries_json(r.attributes@))));
    let mut ms: Vec<(String, JsonValue)> = Vec::new();
    push_member(&mut ms, Ghost(m0), "timeUnixNano", string_value(nanos_string(r.timestamp_nanos)), Ghost(Json::Str(nanos_text(r.timestamp_nanos))));
    push_member(&mut ms, Ghost(m1), "observedTimeUnixNano", string_value(nanos_string(r.observed_timestamp_nanos)), Ghost(Json::Str(nanos_text(r.observed_timestamp_nanos))));
    push_member(&mut ms, Ghost(m2), "severityNumber", int_value(severity as i64), Ghost(int_json(severity as int)));
    push_member(&mut ms, Ghost(m3), "severityText", string_value(opt_string(&r.severity_text)), Ghost(Json::Str(opt_text(r.severity_text))));
    let body = match &r.body {
        Some(b) => anyvalue_to_json(b),
        None => string_item_value(&String::new()),
    };
    push_member(&mut ms, Ghost(m4), "body", body, Ghost(body_json(r.body)));
    let attrs = kv_list_to_json(&r.attributes);
    push_member(&mut ms, Ghost(m5), "attributes", array(attrs, Ghost(kv_entries_json(r.attributes@))), Ghost(Json::Array(kv_entries_json(r.attributes@))));
    proof {
        assert(m6 =~= seq![
            ("timeUnixNano"@, Json::Str(nanos_text(r.timestamp_nanos))),
            ("observedTimeUnixNano"@, Json::Str(nanos_text(r.observed_timestamp_nanos))),
            ("severityNumber"@, int_json(
                match r.severity_number {
                    Some(n) => n as int,
                    None => 0,
                },
            )),
            ("severityText"@, Json::Str(opt_text(r.severity_text))),
            ("body"@, body_json(r.body)),
            ("attributes"@, Json::Array(kv_entries_json(r.attributes@))),
        ]);
    }
    let trace = opt_hex_string(&r.trace_id);
    let span = opt_hex_string(&r.span_id);
    let ghost mt = if id_shown(opt_hex(r.trace_id), 32) {
        m6.push(("traceId"@, Json::Str(opt_hex(r.trace_id))))
    } else {
        m6
    };
    if !trace.as_str().is_empty() && !is_zeros(&trace, 32) {
        proof {
            assert(trace@.len() > 0);
        }
        push_member(&mut ms, Ghost(m6), "traceId", string_value(trace), Ghost(Json::Str(opt_hex(r.trace_id))));
    } else {
        proof {
            assert(!id_shown(opt_hex(r.trace_id), 32));
        }
    }
    let ghost ms_spec = if id_shown(opt_hex(r.span_id), 16) {
        mt.push(("spanId"@, Json::Str(opt_hex(r.span_id))))
    } else {
        mt
    };
    if !span.as_str().is_empty() && !is_zeros(&span, 16) {
        push_member(&mut ms, Ghost(mt), "spanId", string_value(span), Ghost(Json::Str(opt_hex(r.span_id))));
    } else {
        proof {
            assert(!id_shown(opt_hex(r.span_id), 16));
        }
    }
    object(ms, Ghost(ms_spec))
}

// ---------------------------------------------------------------------------
// Log batches
// ---------------------------------------------------------------------------

/// The instrumentation scope of a record: name and version (empty when
/// absent).
pub open spec fn scope_key(r: LogRecordData) -> (Seq<char>, Seq<char>) {
    (r.scope_name@, opt_text(r.scope_version))
}

/// The distinct scopes of `rs`, in order of first appearance.
pub open spec fn scopes_of(rs: Seq<LogRecordData>) -> Seq<(Seq<char>, Seq<char>)>
    decreases rs.len(),
{
    if rs.len() == 0 {
        Seq::empty()
    } else {
        let s = scopes_of(rs.drop_last());
        if s.contains(scope_key(rs.last())) {
            s
        } else {
            s.push(scope_key(rs.last()))
        }
    }
}

/// JSON of the records of `rs` in scope `key`, in order.
pub open spec fn scope_records(rs: Seq<LogRecordData>, key: (Seq<char>, Seq<char>)) -> Seq<Json>
    decreases rs.len(),
{
    if rs.len() == 0 {
        Seq::empty()
    } else {
        let r = scope_records(rs.drop_last(), key);
        if scope_key(rs.last()) == key {
            r.push(log_record_json(rs.last()))
        } else {
            r
        }
    }
}

pub open spec fn scope_json(key: (Seq<char>, Seq<char>)) -> Json {
    Json::Object(seq![("name"@, Json::Str(key.0)), ("version"@, Json::Str(key.1))])
}

/// One `scopeLogs` entry: the scope and its records.
pub open spec fn scope_log_json(rs: Seq<LogRecordData>, key: (Seq<char>, Seq<char>)) -> Json {
    Json::Object(seq![("scope"@, scope_json(key)), ("logRecords"@, Json::Array(scope_records(rs, key)))])
}

pub open spec fn scope_logs_json(rs: Seq<LogRecordData>) -> Seq<Json> {
    scopes_of(rs).map_values(|k: (Seq<char>, Seq<char>)| scope_log_json(rs, k))
}

pub open spec fn resource_json(attrs: Seq<Attribute>) -> Json {
    single("attributes"@, Json::Array(attributes_json(attrs)))
}

/// The logs message: one resource with its attributes and the records
/// grouped by scope.
pub open spec fn logs_payload(resource: Seq<Attribute>, rs: Seq<LogRecordData>) -> Json {
    single(
        "resourceLogs"@,
        Json::Array(
            seq![
                Json::Object(
                    seq![
                        ("resource"@, resource_json(resource)),
                        ("scopeLogs"@, Json::Array(scope_logs_json(rs))),
                    ],
                ),
            ],
        ),
    )
}

pub open spec fn key_views(keys: Seq<(String, String)>) -> Seq<(Seq<char>, Seq<char>)> {
    keys.map_values(|p: (String, String)| (p.0@, p.1@))
}

fn distinct_scopes(records: &[LogRecordData]) -> (keys: Vec<(String, String)>)
    ensures
        key_views(keys@) == scopes_of(records@),
{
    let mut keys: Vec<(String, String)> = Vec::new();
    let mut i: usize = 0;
    while i < records.len()
        invariant
            i <= records@.len(),
            key_views(keys@) == scopes_of(records@.take(i as int)),
        decreases records@.len() - i,
    {
        let name = &records[i].scope_name;
        let version = opt_string(&records[i].scope_version);
        let ghost key = (name@, version@);
        let mut found = false;
        let mut g: usize = 0;
        while g < keys.len()
            invariant
                g <= keys@.len(),
                key == (name@, version@),
                found <==> exists|h: int| 0 <= h < g && key_views(keys@)[h] == key,
            decreases keys@.len() - g,
        {
            if crate::text::str_eq(keys[g].0.as_str(), name.as_str()) && crate::text::str_eq(
                keys[g].1.as_str(),
                version.as_str(),
            ) {
                proof {
                    assert(key_views(keys@)[g as int] == key);
                }
                found = true;
            } else {
                proof {
                    assert(key_views(keys@)[g as int] != key);
                }
            }
            g = g + 1;
        }
        proof {
            let t = records@.take(i + 1);
            assert(t.drop_last() =~= records@.take(i as int));
            assert(t.last() == records@[i as int]);
            assert(scope_key(records@[i as int]) == key);
            assert(found <==> scopes_of(records@.take(i as int)).contains(key));
        }
        if !found {
            let ghost before = keys@;
            keys.push((name.clone(), version));
            proof {
                assert(key_views(keys@) =~= key_views(before).push(key));
            }
        }
        i = i + 1;
    }
    proof {
        assert(records@.take(i as int) =~= records@);
    }
    keys
}

fn records_for_scope(records: &[LogRecordData], name: &String, version: &String) -> (out: Vec<
    JsonValue,
>)
    ensures
        items_match(out@, scope_records(records@, (name@, version@))),
{
    let ghost key = (name@, version@);
    let mut out: Vec<JsonValue> = Vec::new();
    let mut j: usize = 0;
    while j < records.len()
        invariant
            j <= records@.len(),
            key == (name@, version@),
            items_match(out@, scope_records(records@.take(j as int), key)),
        decreases records@.len() - j,
    {
        let r = &records[j];
        let rv = opt_string(&r.scope_version);
        proof {
            let t = records@.take(j + 1);
            assert(t.drop_last() =~= records@.take(j as int));
            assert(t.last() == records@[j as int]);
        }
        if crate::text::str_eq(r.scope_name.as_str(), name.as_str()) && crate::text::str_eq(
            rv.as_str(),
            version.as_str(),
        ) {
            push_item(
                &mut out,
                Ghost(scope_records(records@.take(j as int), key)),
                log_record_to_json(r),
                Ghost(log_record_json(*r)),
            );
        }
        j = j + 1;
    }
    proof {
        assert(records@.take(j as int) =~= records@);
    }
    out
}

fn pair_object(k1: &str, v1: JsonValue, Ghost(j1): Ghost<Json>, k2: &str, v2: JsonValue, Ghost(j2): Ghost<Json>) -> (r: JsonValue)
    requires
        is_json(v1, j1),
        is_json(v2, j2),
    ensures
        is_json(r, Json::Object(seq![(k1@, j1), (k2@, j2)])),
{
    let ghost first = seq![(k1@, j1)];
    let ghost both = seq![(k1@, j1), (k2@, j2)];
    let mut ms: Vec<(String, JsonValue)> = Vec::new();
    push_member(&mut ms, Ghost(Seq::empty()), k1, v1, Ghost(j1));
    proof {
        assert(Seq::<(Seq<char>, Json)>::empty().push((k1@, j1)) =~= first);
    }
    push_member(&mut ms, Ghost(first), k2, v2, Ghost(j2));
    proof {
        assert(first.push((k2@, j2)) =~= both);
    }
    object(ms, Ghost(both))
}

/// The logs message for a batch, or `None` for an empty batch (nothing is
/// sent). Records are grouped by scope in order of first appearance.
pub fn logs_payload_json(resource: &[Attribute], records: &[LogRecordData]) -> (r: Option<
    JsonValue,
>)
    ensures
        r is None <==> records@.len() == 0,
        r matches Some(v) ==> is_json(v, logs_payload(resource@, records@)),
{
    if records.len() == 0 {
        return None;
    }
    let keys = distinct_scopes(records);
    let ghost spec = scope_logs_json(records@);
    let mut scope_logs: Vec<JsonValue> = Vec::new();
    let mut g: usize = 0;
    while g < keys.len()
        invariant
            g <= keys@.len(),
            key_views(keys@) == scopes_of(records@),
            spec == scope_logs_json(records@),
            items_match(scope_logs@, spec.take(g as int)),
        decreases keys@.len() - g,
    {
        let (name, version) = &keys[g];
        let ghost key = (name@, version@);
        proof {
            assert(key_views(keys@)[g as int] == key);
            assert(spec[g as int] == scope_log_json(records@, key));
        }
        let scope = pair_object(
            "name",
            string_value(name.clone()),
            Ghost(Json::Str(name@)),
            "version",
            string_value(version.clone()),
            Ghost(Json::Str(version@)),
        );
        let recs = records_for_scope(records, name, version);
        let entry = pair_object(
            "scope",
            scope,
            Ghost(scope_json(key)),
            "logRecords",
            array(recs, Ghost(scope_records(records@, key))),
            Ghost(Json::Array(scope_records(records@, key))),
        );
        push_item(&mut scope_logs, Ghost(spec.take(g as int)), entry, Ghost(spec[g as int]));
        proof {
            assert(spec.take(g as int).push(spec[g as int]) =~= spec.take(g + 1));
        }
        g = g + 1;
    }
    proof {
        assert(spec.take(g as int) =~= spec);
    }
    let attrs = attrs_to_json(resource);
    let res = single_object(
        "attributes",
        array(attrs, Ghost(attributes_json(resource@))),
        Ghost(Json::Array(attributes_json(resource@))),
    );
    let body = pair_object(
        "resource",
        res,
        Ghost(resource_json(resource@)),
        "scopeLogs",
        array(scope_logs, Ghost(spec)),
        Ghost(Json::Array(spec)),
    );
    let ghost body_spec = Json::Object(
        seq![("resource"@, resource_json(resource@)), ("scopeLogs"@, Json::Array(spec))],
    );
    let mut items: Vec<JsonValue> = Vec::new();
    push_item(&mut items, Ghost(Seq::empty()), body, Ghost(body_spec));
    proof {
        assert(Seq::<Json>::empty().push(body_spec) =~= seq![body_spec]);
    }
    let ghost items_spec = seq![body_spec];
    Some(single_object("resourceLogs", array(items, Ghost(items_spec)), Ghost(Json::Array(items_spec))))
}

/// The version a record's scope declares, empty when it declares none.
pub open spec fn declared_version(r: LogRecordData) -> Seq<char> {
    match r.scope_version {
        Some(v) => v@,
        None => Seq::<char>::empty(),
    }
}

/// The JSON of the records of `rs` whose scope has name `name` and
/// declared version `version`, in order.
pub open spec fn records_of_scope(rs: Seq<LogRecordData>, name: Seq<char>, version: Seq<char>) -> Seq<
    Json,
>
    decreases rs.len(),
{
    if rs.len() == 0 {
        Seq::empty()
    } else {
        let earlier = records_of_scope(rs.drop_last(), name, version);
        if rs.last().scope_name@ == name && declared_version(rs.last()) == version {
            earlier.push(log_record_json(rs.last()))
        } else {
            earlier
        }
    }
}

proof fn lemma_scope_records_by_fields(rs: Seq<LogRecordData>, name: Seq<char>, version: Seq<char>)
    ensures
        scope_records(rs, (name, version)) == records_of_scope(rs, name, version),
    decreases rs.len(),
{
    if rs.len() > 0 {
        lemma_scope_records_by_fields(rs.drop_last(), name, version);
        assert(opt_text(rs.last().scope_version) == declared_version(rs.last()));
    }
}

/// Every record lands in the `scopeLogs` entry of its own scope: some entry
/// carries the record's scope name and declared version (empty when it
/// declares none) and lists exactly the records with that same name and
/// version, in order. So records of one scope name with different versions
/// go to different entries, and no entry drops a version.
pub proof fn law_record_in_entry_of_its_scope(rs: Seq<LogRecordData>, i: int)
    requires
        0 <= i < rs.len(),
    ensures
        exists|k: int|
            0 <= k < scope_logs_json(rs).len() && #[trigger] scope_logs_json(rs)[k] == Json::Object(
                seq![
                    ("scope"@, Json::Object(
                        seq![("name"@, Json::Str(rs[i].scope_name@)), ("version"@, Json::Str(
                            declared_version(rs[i]),
                        ))],
                    )),
                    ("logRecords"@, Json::Array(
                        records_of_scope(rs, rs[i].scope_name@, declared_version(rs[i])),
                    )),
                ],
            ),
{
    law_every_record_grouped(rs);
    let key = scope_key(rs[i]);
    assert(scopes_of(rs).contains(key));
    let k = choose|k: int| 0 <= k < scopes_of(rs).len() && scopes_of(rs)[k] == key;
    assert(opt_text(rs[i].scope_version) == declared_version(rs[i]));
    lemma_scope_records_by_fields(rs, key.0, key.1);
    assert(scope_logs_json(rs)[k] == scope_log_json(rs, key));
}

/// Grouping by scope lists each scope once.
pub proof fn law_scopes_distinct(rs: Seq<LogRecordData>)
    ensures
        forall|i: int, j: int|
            0 <= i < j < scopes_of(rs).len() ==> scopes_of(rs)[i] != scopes_of(rs)[j],
    decreases rs.len(),
{
    if rs.len() > 0 {
        law_scopes_distinct(rs.drop_last());
        let s = scopes_of(rs.drop_last());
        if !s.contains(scope_key(rs.last())) {
            assert forall|i: int, j: int|
                0 <= i < j < scopes_of(rs).len() implies scopes_of(rs)[i] != scopes_of(rs)[j] by {
                if j == s.len() {
                    assert(scopes_of(rs)[i] == s[i]);
                }
            }
        }
    }
}

/// Every record's scope is listed, and every listed scope has at least one
/// record: no record is lost and no group is empty.
pub proof fn law_every_record_grouped(rs: Seq<LogRecordData>)
    ensures
        forall|i: int| 0 <= i < rs.len() ==> scopes_of(rs).contains(#[trigger] scope_key(rs[i])),
        forall|k: int|
            0 <= k < scopes_of(rs).len() ==> #[trigger] scope_records(rs, scopes_of(rs)[k]).len() > 0,
    decreases rs.len(),
{
    if rs.len() > 0 {
        let p = rs.drop_last();
        law_every_record_grouped(p);
        let s = scopes_of(p);
        let key = scope_key(rs.last());
        assert forall|i: int| 0 <= i < rs.len() implies scopes_of(rs).contains(#[trigger] scope_key(rs[i])) by {
            if i < rs.len() - 1 {
                assert(rs[i] == p[i]);
                assert(s.contains(scope_key(p[i])));
                let w = choose|w: int| 0 <= w < s.len() && s[w] == scope_key(p[i]);
                assert(scopes_of(rs)[w] == s[w]);
            } else {
                if s.contains(key) {
                } else {
                    assert(scopes_of(rs)[s.len() as int] == key);
                }
            }
        }
        assert forall|k: int| 0 <= k < scopes_of(rs).len() implies #[trigger] scope_records(
            rs,
            scopes_of(rs)[k],
        ).len() > 0 by {
            if k < s.len() {
                assert(scopes_of(rs)[k] == s[k]);
                assert(scope_records(p, s[k]).len() > 0);
            } else {
                assert(scopes_of(rs)[k] == key);
            }
        }
    }
}

/// Integer attribute values are JSON numbers, never strings.
pub proof fn law_int_attributes_are_numbers(i: i64)
    ensures
        attr_json(AttrValue::I64(i)) == single("intValue"@, int_json(i as int)),
        int_json(i as int) is Number,
{
}

} // verus!
