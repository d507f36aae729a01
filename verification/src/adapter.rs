//! Adapter selection shared by the configurable workers: a configuration
//! names an adapter (and optionally configures it); an absent entry means
//! the worker's default adapter with no configuration.

use vstd::prelude::*;
use crate::json::{
    json_clone, json_eq, json_equal, lemma_json_eq_reflexive, lemma_json_eq_symmetric, lemma_json_eq_transitive,
    JsonValue,
};
use crate::text::str_eq;

verus! {

/// An adapter chosen by name, with its optional configuration.
#[derive(Debug)]
pub struct AdapterEntry {
    pub name: String,
    pub config: Option<JsonValue>,
}

/// Name of the adapter a configuration selects, the default filled in.
pub open spec fn effective_name(adapter: Option<AdapterEntry>, default_name: Seq<char>) -> Seq<
    char,
> {
    match adapter {
        Some(a) => a.name@,
        None => default_name,
    }
}

/// Configuration of the adapter a configuration selects.
pub open spec fn effective_config(adapter: Option<AdapterEntry>) -> Option<JsonValue> {
    match adapter {
        Some(a) => a.config,
        None => None,
    }
}

/// Equality of two optional JSON values.
pub open spec fn opt_json_eq(a: Option<JsonValue>, b: Option<JsonValue>) -> bool {
    match (a, b) {
        (None, None) => true,
        (Some(x), Some(y)) => json_eq(x, y),
        _ => false,
    }
}

/// Two adapter selections build the same adapter: same effective name and
/// equal effective configuration.
pub open spec fn same_effective_adapter(
    a: Option<AdapterEntry>,
    b: Option<AdapterEntry>,
    default_name: Seq<char>,
) -> bool {
    effective_name(a, default_name) == effective_name(b, default_name) && opt_json_eq(
        effective_config(a),
        effective_config(b),
    )
}

/// The `(name, config)` pair an adapter is built from, with `default_name`
/// standing in for an absent entry.
pub fn effective_adapter<'a>(adapter: &'a Option<AdapterEntry>, default_name: &'a str) -> (r: (
    &'a str,
    Option<&'a JsonValue>,
))
    ensures
        r.0@ == effective_name(*adapter, default_name@),
        r.1 is None <==> effective_config(*adapter) is None,
        r.1 matches Some(c) ==> effective_config(*adapter) == Some(*c),
{
    match adapter {
        Some(a) => (a.name.as_str(), a.config.as_ref()),
        None => (default_name, None),
    }
}

/// True when the two selections build the same adapter, so that switching
/// from one to the other needs no new adapter.
pub fn same_adapter(a: &Option<AdapterEntry>, b: &Option<AdapterEntry>, default_name: &str) -> (r:
    bool)
    ensures
        r == same_effective_adapter(*a, *b, default_name@),
{
    let (na, ca) = effective_adapter(a, default_name);
    let (nb, cb) = effective_adapter(b, default_name);
    if !str_eq(na, nb) {
        return false;
    }
    match (ca, cb) {
        (None, None) => true,
        (Some(x), Some(y)) => json_equal(x, y),
        _ => false,
    }
}

/// `b` is a copy of `a`: both absent, or the same name with equal
/// configurations.
pub open spec fn adapter_copy(a: Option<AdapterEntry>, b: Option<AdapterEntry>) -> bool {
    match (a, b) {
        (None, None) => true,
        (Some(x), Some(y)) => x.name == y.name && opt_json_eq(x.config, y.config),
        _ => false,
    }
}

/// A copy of an adapter selection.
pub fn clone_adapter(a: &Option<AdapterEntry>) -> (c: Option<AdapterEntry>)
    ensures
        adapter_copy(*a, c),
{
    match a {
        None => None,
        Some(entry) => {
            let config = match &entry.config {
                None => None,
                Some(v) => {
                    let copy = json_clone(v);
                    proof {
                        lemma_json_eq_symmetric(copy, *v);
                    }
                    Some(copy)
                },
            };
            Some(AdapterEntry { name: entry.name.clone(), config })
        },
    }
}

/// An absent adapter entry and an explicit entry naming the default adapter
/// without configuration select the same adapter.
pub proof fn law_absent_adapter_is_default(explicit: AdapterEntry, default_name: Seq<char>)
    requires
        explicit.name@ == default_name,
        explicit.config is None,
    ensures
        same_effective_adapter(None, Some(explicit), default_name),
        same_effective_adapter(Some(explicit), None, default_name),
{
}

/// Selecting the same adapter is an equivalence: reflexive, symmetric and
/// transitive, so comparing an old and a new configuration never reports a
/// change for a configuration compared with itself.
pub proof fn law_same_adapter_is_equivalence(
    a: Option<AdapterEntry>,
    b: Option<AdapterEntry>,
    c: Option<AdapterEntry>,
    default_name: Seq<char>,
)
    ensures
        same_effective_adapter(a, a, default_name),
        same_effective_adapter(a, b, default_name) ==> same_effective_adapter(b, a, default_name),
        same_effective_adapter(a, b, default_name) && same_effective_adapter(b, c, default_name)
            ==> same_effective_adapter(a, c, default_name),
{
    if let Some(x) = effective_config(a) {
        lemma_json_eq_reflexive(x);
    }
    if same_effective_adapter(a, b, default_name) {
        if let (Some(x), Some(y)) = (effective_config(a), effective_config(b)) {
            lemma_json_eq_symmetric(x, y);
        }
    }
    if same_effective_adapter(a, b, default_name) && same_effective_adapter(b, c, default_name) {
        if let (Some(x), Some(y), Some(z)) = (
            effective_config(a),
            effective_config(b),
            effective_config(c),
        ) {
            lemma_json_eq_transitive(x, y, z);
        }
    }
}

} // verus!
