//! A JSON document as plain values: the part of a JSON value that the
//! library's logic reads (object lookups, strings, arrays, nullness) and
//! compares. Objects keep their members in document order; a key occurs at
//! most once.

use vstd::prelude::*;

verus! {

/// A JSON number. A float is held by its IEEE-754 bit pattern; JSON has no
/// NaN or infinity, so two floats are equal exactly when their bits are
/// equal or both are zero.
#[derive(Debug, Clone, Copy)]
pub enum JsonNumber {
    PosInt(u64),
    NegInt(i64),
    Float(u64),
}

#[derive(Debug)]
pub enum JsonValue {
    Null,
    Bool(bool),
    Number(JsonNumber),
    String(String),
    Array(Vec<JsonValue>),
    Object(Vec<(String, JsonValue)>),
}

/// Value of member `key` of an object (the first member with that key);
/// `None` for a missing key or a value that is not an object.
pub open spec fn json_get(v: JsonValue, key: Seq<char>) -> Option<JsonValue> {
    match v {
        JsonValue::Object(members) => member_value(members@, key),
        _ => None,
    }
}

pub open spec fn member_value(members: Seq<(String, JsonValue)>, key: Seq<char>) -> Option<
    JsonValue,
>
    decreases members.len(),
{
    if members.len() == 0 {
        None
    } else if members[0].0@ == key {
        Some(members[0].1)
    } else {
        member_value(members.drop_first(), key)
    }
}

/// The string held by `v`, if `v` is a JSON string.
pub open spec fn json_as_str(v: JsonValue) -> Option<Seq<char>> {
    match v {
        JsonValue::String(s) => Some(s@),
        _ => None,
    }
}

pub open spec fn float_zero(bits: u64) -> bool {
    bits == 0 || bits == 0x8000_0000_0000_0000u64
}

/// Equality of two JSON numbers (`serde_json::Number`'s `==`).
pub open spec fn number_eq(a: JsonNumber, b: JsonNumber) -> bool {
    match (a, b) {
        (JsonNumber::PosInt(x), JsonNumber::PosInt(y)) => x == y,
        (JsonNumber::NegInt(x), JsonNumber::NegInt(y)) => x == y,
        (JsonNumber::Float(x), JsonNumber::Float(y)) => x == y || (float_zero(x) && float_zero(y)),
        _ => false,
    }
}

/// Structural equality of two JSON values (`serde_json::Value`'s `==`);
/// object members are compared in order.
pub open spec fn json_eq(a: JsonValue, b: JsonValue) -> bool
    decreases a,
{
    match (a, b) {
        (JsonValue::Null, JsonValue::Null) => true,
        (JsonValue::Bool(x), JsonValue::Bool(y)) => x == y,
        (JsonValue::Number(x), JsonValue::Number(y)) => number_eq(x, y),
        (JsonValue::String(x), JsonValue::String(y)) => x@ == y@,
        (JsonValue::Array(xs), JsonValue::Array(ys)) => xs@.len() == ys@.len() && forall|i: int|
            0 <= i < xs@.len() ==> json_eq(#[trigger] xs@[i], ys@[i]),
        (JsonValue::Object(xs), JsonValue::Object(ys)) => xs@.len() == ys@.len() && forall|i: int|
            0 <= i < xs@.len() ==> (#[trigger] xs@[i]).0@ == ys@[i].0@ && json_eq(
                xs@[i].1,
                ys@[i].1,
            ),
        _ => false,
    }
}

pub fn number_equal(a: &JsonNumber, b: &JsonNumber) -> (r: bool)
    ensures
        r == number_eq(*a, *b),
{
    match (a, b) {
        (JsonNumber::PosInt(x), JsonNumber::PosInt(y)) => *x == *y,
        (JsonNumber::NegInt(x), JsonNumber::NegInt(y)) => *x == *y,
        (JsonNumber::Float(x), JsonNumber::Float(y)) => *x == *y || ((*x == 0 || *x
            == 0x8000_0000_0000_0000u64) && (*y == 0 || *y == 0x8000_0000_0000_0000u64)),
        _ => false,
    }
}

pub fn str_equal(a: &String, b: &String) -> (r: bool)
    ensures
        r == (a@ == b@),
{
    a.eq(b)
}

/// `a == b` on JSON values.
pub fn json_equal(a: &JsonValue, b: &JsonValue) -> (r: bool)
    ensures
        r == json_eq(*a, *b),
    decreases a,
{
    match (a, b) {
        (JsonValue::Null, JsonValue::Null) => true,
        (JsonValue::Bool(x), JsonValue::Bool(y)) => *x == *y,
        (JsonValue::Number(x), JsonValue::Number(y)) => number_equal(x, y),
        (JsonValue::String(x), JsonValue::String(y)) => str_equal(x, y),
        (JsonValue::Array(xs), JsonValue::Array(ys)) => {
            if xs.len() != ys.len() {
                return false;
            }
            let mut i: usize = 0;
            while i < xs.len()
                invariant
                    *a == JsonValue::Array(*xs),
                    *b == JsonValue::Array(*ys),
                    xs@.len() == ys@.len(),
                    i <= xs@.len(),
                    forall|k: int| 0 <= k < i ==> json_eq(#[trigger] xs@[k], ys@[k]),
                decreases xs@.len() - i,
            {
                proof {
                    let ga = *a;
                    assert(decreases_to!(ga => ga->Array_0));
                    assert(decreases_to!(ga->Array_0 => ga->Array_0@));
                    assert(decreases_to!(ga->Array_0@ => xs@[i as int]));
                }
                if !json_equal(&xs[i], &ys[i]) {
                    proof {
                        assert(json_eq(*a, *b) ==> json_eq(xs@[i as int], ys@[i as int]));
                    }
                    return false;
                }
                i = i + 1;
            }
            true
        },
        (JsonValue::Object(xs), JsonValue::Object(ys)) => {
            if xs.len() != ys.len() {
                return false;
            }
            let mut i: usize = 0;
            while i < xs.len()
                invariant
                    *a == JsonValue::Object(*xs),
                    *b == JsonValue::Object(*ys),
                    xs@.len() == ys@.len(),
                    i <= xs@.len(),
                    forall|k: int|
                        0 <= k < i ==> (#[trigger] xs@[k]).0@ == ys@[k].0@ && json_eq(
                            xs@[k].1,
                            ys@[k].1,
                        ),
                decreases xs@.len() - i,
            {
                proof {
                    let ga = *a;
                    assert(decreases_to!(ga => ga->Object_0));
                    assert(decreases_to!(ga->Object_0 => ga->Object_0@));
                    assert(decreases_to!(ga->Object_0@ => xs@[i as int]));
                    assert(decreases_to!(xs@[i as int] => xs@[i as int].1));
                }
                if !str_equal(&xs[i].0, &ys[i].0) {
                    proof {
                        assert(json_eq(*a, *b) ==> xs@[i as int].0@ == ys@[i as int].0@);
                    }
                    return false;
                }
                if !json_equal(&xs[i].1, &ys[i].1) {
                    proof {
                        assert(json_eq(*a, *b) ==> json_eq(xs@[i as int].1, ys@[i as int].1));
                    }
                    return false;
                }
                i = i + 1;
            }
            true
        },
        (JsonValue::Null, _) => false,
        (JsonValue::Bool(_), _) => false,
        (JsonValue::Number(_), _) => false,
        (JsonValue::String(_), _) => false,
        (JsonValue::Array(_), _) => false,
        (JsonValue::Object(_), _) => false,
    }
}

/// A copy of `v` (`serde_json::Value::clone`), equal to it as JSON.
pub fn json_clone(v: &JsonValue) -> (c: JsonValue)
    ensures
        json_eq(c, *v),
    decreases v,
{
    match v {
        JsonValue::Null => JsonValue::Null,
        JsonValue::Bool(b) => JsonValue::Bool(*b),
        JsonValue::Number(n) => JsonValue::Number(*n),
        JsonValue::String(s) => JsonValue::String(s.clone()),
        JsonValue::Array(xs) => {
            let mut out: Vec<JsonValue> = Vec::new();
            let mut i: usize = 0;
            while i < xs.len()
                invariant
                    *v == JsonValue::Array(*xs),
                    i <= xs@.len(),
                    out@.len() == i,
                    forall|k: int| 0 <= k < i ==> json_eq(#[trigger] out@[k], xs@[k]),
                decreases xs@.len() - i,
            {
                proof {
                    let gv = *v;
                    assert(decreases_to!(gv => gv->Array_0));
                    assert(decreases_to!(gv->Array_0 => gv->Array_0@));
                    assert(decreases_to!(gv->Array_0@ => xs@[i as int]));
                }
                let item = json_clone(&xs[i]);
                out.push(item);
                i = i + 1;
            }
            JsonValue::Array(out)
        },
        JsonValue::Object(xs) => {
            let mut out: Vec<(String, JsonValue)> = Vec::new();
            let mut i: usize = 0;
            while i < xs.len()
                invariant
                    *v == JsonValue::Object(*xs),
                    i <= xs@.len(),
                    out@.len() == i,
                    forall|k: int|
                        0 <= k < i ==> (#[trigger] out@[k]).0@ == xs@[k].0@ && json_eq(
                            out@[k].1,
                            xs@[k].1,
                        ),
                decreases xs@.len() - i,
            {
                proof {
                    let gv = *v;
                    assert(decreases_to!(gv => gv->Object_0));
                    assert(decreases_to!(gv->Object_0 => gv->Object_0@));
                    assert(decreases_to!(gv->Object_0@ => xs@[i as int]));
                    assert(decreases_to!(xs@[i as int] => xs@[i as int].1));
                }
                let key = xs[i].0.clone();
                let item = json_clone(&xs[i].1);
                out.push((key, item));
                i = i + 1;
            }
            JsonValue::Object(out)
        },
    }
}

/// Member `key` of `v` (`serde_json::Value::get` with a string key).
pub fn get<'a>(v: &'a JsonValue, key: &str) -> (r: Option<&'a JsonValue>)
    ensures
        r matches Some(x) ==> json_get(*v, key@) == Some(*x),
        r is None ==> json_get(*v, key@) is None,
{
    match v {
        JsonValue::Object(members) => {
            let mut i: usize = 0;
            proof {
                assert(members@.skip(0) =~= members@);
            }
            while i < members.len()
                invariant
                    *v == JsonValue::Object(*members),
                    i <= members@.len(),
                    member_value(members@, key@) == member_value(members@.skip(i as int), key@),
                decreases members@.len() - i,
            {
                proof {
                    assert(members@.skip(i as int)[0] == members@[i as int]);
                    assert(members@.skip(i as int).drop_first() =~= members@.skip(i + 1));
                }
                if key_is(&members[i].0, key) {
                    return Some(&members[i].1);
                }
                i = i + 1;
            }
            None
        },
        _ => None,
    }
}

fn key_is(k: &String, key: &str) -> (r: bool)
    ensures
        r == (k@ == key@),
{
    crate::text::str_eq(k.as_str(), key)
}

/// The string held by `v`, if any (`serde_json::Value::as_str`).
pub fn as_str(v: &JsonValue) -> (r: Option<&String>)
    ensures
        r matches Some(s) ==> json_as_str(*v) == Some(s@),
        r is None ==> json_as_str(*v) is None,
{
    match v {
        JsonValue::String(s) => Some(s),
        _ => None,
    }
}

/// JSON equality is reflexive.
pub proof fn lemma_json_eq_reflexive(a: JsonValue)
    ensures
        json_eq(a, a),
    decreases a,
{
    match a {
        JsonValue::Array(xs) => {
            assert forall|i: int| 0 <= i < xs@.len() implies json_eq(#[trigger] xs@[i], xs@[i]) by {
                assert(decreases_to!(a => xs));
                assert(decreases_to!(xs => xs@));
                assert(decreases_to!(xs@ => xs@[i]));
                lemma_json_eq_reflexive(xs@[i]);
            }
        },
        JsonValue::Object(xs) => {
            assert forall|i: int| 0 <= i < xs@.len() implies (#[trigger] xs@[i]).0@ == xs@[i].0@
                && json_eq(xs@[i].1, xs@[i].1) by {
                assert(decreases_to!(a => xs));
                assert(decreases_to!(xs => xs@));
                assert(decreases_to!(xs@ => xs@[i]));
                assert(decreases_to!(xs@[i] => xs@[i].1));
                lemma_json_eq_reflexive(xs@[i].1);
            }
        },
        _ => {},
    }
}

/// JSON equality is symmetric.
pub proof fn lemma_json_eq_symmetric(a: JsonValue, b: JsonValue)
    requires
        json_eq(a, b),
    ensures
        json_eq(b, a),
    decreases a,
{
    match (a, b) {
        (JsonValue::Array(xs), JsonValue::Array(ys)) => {
            assert forall|i: int| 0 <= i < ys@.len() implies json_eq(#[trigger] ys@[i], xs@[i]) by {
                assert(json_eq(xs@[i], ys@[i]));
                assert(decreases_to!(a => xs));
                assert(decreases_to!(xs => xs@));
                assert(decreases_to!(xs@ => xs@[i]));
                lemma_json_eq_symmetric(xs@[i], ys@[i]);
            }
        },
        (JsonValue::Object(xs), JsonValue::Object(ys)) => {
            assert forall|i: int| 0 <= i < ys@.len() implies (#[trigger] ys@[i]).0@ == xs@[i].0@
                && json_eq(ys@[i].1, xs@[i].1) by {
                assert(xs@[i].0@ == ys@[i].0@ && json_eq(xs@[i].1, ys@[i].1));
                assert(decreases_to!(a => xs));
                assert(decreases_to!(xs => xs@));
                assert(decreases_to!(xs@ => xs@[i]));
                assert(decreases_to!(xs@[i] => xs@[i].1));
                lemma_json_eq_symmetric(xs@[i].1, ys@[i].1);
            }
        },
        _ => {},
    }
}

/// JSON equality is transitive.
pub proof fn lemma_json_eq_transitive(a: JsonValue, b: JsonValue, c: JsonValue)
    requires
        json_eq(a, b),
        json_eq(b, c),
    ensures
        json_eq(a, c),
    decreases a,
{
    match (a, b, c) {
        (JsonValue::Array(xs), JsonValue::Array(ys), JsonValue::Array(zs)) => {
            assert forall|i: int| 0 <= i < xs@.len() implies json_eq(#[trigger] xs@[i], zs@[i]) by {
                assert(json_eq(xs@[i], ys@[i]));
                assert(json_eq(ys@[i], zs@[i]));
                assert(decreases_to!(a => xs));
                assert(decreases_to!(xs => xs@));
                assert(decreases_to!(xs@ => xs@[i]));
                lemma_json_eq_transitive(xs@[i], ys@[i], zs@[i]);
            }
        },
        (JsonValue::Object(xs), JsonValue::Object(ys), JsonValue::Object(zs)) => {
            assert forall|i: int| 0 <= i < xs@.len() implies (#[trigger] xs@[i]).0@ == zs@[i].0@
                && json_eq(xs@[i].1, zs@[i].1) by {
                assert(xs@[i].0@ == ys@[i].0@ && json_eq(xs@[i].1, ys@[i].1));
                assert(ys@[i].0@ == zs@[i].0@ && json_eq(ys@[i].1, zs@[i].1));
                assert(decreases_to!(a => xs));
                assert(decreases_to!(xs => xs@));
                assert(decreases_to!(xs@ => xs@[i]));
                assert(decreases_to!(xs@[i] => xs@[i].1));
                lemma_json_eq_transitive(xs@[i].1, ys@[i].1, zs@[i].1);
            }
        },
        _ => {},
    }
}

/// A JSON document in specifications: strings as character sequences.
pub enum Json {
    Null,
    Bool(bool),
    Number(JsonNumber),
    Str(Seq<char>),
    Array(Seq<Json>),
    Object(Seq<(Seq<char>, Json)>),
}

/// `v` holds the document `j`: same structure, same strings, same numbers,
/// members in the same order.
pub open spec fn is_json(v: JsonValue, j: Json) -> bool
    decreases v,
{
    match (v, j) {
        (JsonValue::Null, Json::Null) => true,
        (JsonValue::Bool(a), Json::Bool(b)) => a == b,
        (JsonValue::Number(a), Json::Number(b)) => a == b,
        (JsonValue::String(a), Json::Str(b)) => a@ == b,
        (JsonValue::Array(xs), Json::Array(ys)) => xs@.len() == ys.len() && forall|i: int|
            0 <= i < xs@.len() ==> is_json(#[trigger] xs@[i], ys[i]),
        (JsonValue::Object(xs), Json::Object(ys)) => xs@.len() == ys.len() && forall|i: int|
            0 <= i < xs@.len() ==> (#[trigger] xs@[i]).0@ == ys[i].0 && is_json(xs@[i].1, ys[i].1),
        _ => false,
    }
}

} // verus!
