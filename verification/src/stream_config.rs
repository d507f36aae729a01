//! Stream worker settings and the decisions taken when they change: what a
//! new configuration requires of the running server, whether a stored
//! address that cannot be bound may fall back to the seed address, and
//! whether the boot adapter must be rebuilt.

use vstd::prelude::*;
use crate::adapter::{same_adapter, same_effective_adapter, AdapterEntry};

verus! {

/// Adapter used when the configuration names none.
pub const DEFAULT_ADAPTER_NAME: &'static str = "kv";

pub open spec fn default_adapter_name() -> Seq<char> {
    seq!['k', 'v']
}

pub fn default_port() -> (p: u16)
    ensures
        p == 3112,
{
    3112
}

pub fn default_host() -> (s: String)
    ensures
        s@ == "0.0.0.0"@,
{
    "0.0.0.0".to_owned()
}

/// Stream server settings.
#[derive(Debug)]
pub struct StreamModuleConfig {
    pub port: u16,
    pub host: String,
    /// Function that authenticates each new connection.
    pub auth_function: Option<String>,
    /// Pub/sub backend for stream distribution; `kv` when absent.
    pub adapter: Option<AdapterEntry>,
}

impl Default for StreamModuleConfig {
    fn default() -> (c: Self)
        ensures
            c.port == 3112,
            c.host@ == "0.0.0.0"@,
            c.auth_function is None,
            c.adapter is None,
    {
        StreamModuleConfig {
            port: default_port(),
            host: default_host(),
            auth_function: None,
            adapter: None,
        }
    }
}

/// Storage backend of the `kv` adapter's store.
#[derive(Debug, Clone, Copy, PartialEq, Eq, Structural)]
pub enum KvStoreMethod {
    InMemory,
    FileBased,
}

/// Config of the `kv` adapter.
#[derive(Debug, Clone, Default)]
pub struct KvAdapterConfig {
    pub store_method: Option<KvStoreMethod>,
    pub file_path: Option<String>,
    pub save_interval_ms: Option<u64>,
    pub channel_size: Option<u64>,
}

/// Config of the `redis` adapter.
#[derive(Debug, Clone, Default)]
pub struct RedisAdapterConfig {
    pub redis_url: Option<String>,
}

/// Config of the `bridge` adapter.
#[derive(Debug, Clone, Default)]
pub struct BridgeAdapterConfig {
    pub bridge_url: Option<String>,
}

/// Two configurations serve on the same address.
pub open spec fn same_address(a: StreamModuleConfig, b: StreamModuleConfig) -> bool {
    a.host@ == b.host@ && a.port == b.port
}

/// What applying a new configuration requires of the running server. With
/// neither flag set only the configuration snapshot is replaced.
#[derive(Debug, Clone, Copy, PartialEq, Eq, Structural)]
pub struct StreamApplyPlan {
    /// Bind the new address and move the server there.
    pub rebind: bool,
    /// Build the newly selected adapter and move event delivery to it.
    pub swap_adapter: bool,
}

/// The work that replacing `old` by `new` requires: a rebind exactly when
/// the address changes, an adapter swap exactly when the effective adapter
/// changes.
pub fn stream_apply_plan(old: &StreamModuleConfig, new: &StreamModuleConfig) -> (plan:
    StreamApplyPlan)
    ensures
        plan.rebind == !same_address(*old, *new),
        plan.swap_adapter == !same_effective_adapter(old.adapter, new.adapter, default_adapter_name()),
{
    proof {
        reveal_strlit("kv");
        assert(DEFAULT_ADAPTER_NAME@ =~= default_adapter_name());
    }
    let same_host = crate::text::str_eq(old.host.as_str(), new.host.as_str());
    StreamApplyPlan {
        rebind: !(same_host && old.port == new.port),
        swap_adapter: !same_adapter(&old.adapter, &new.adapter, DEFAULT_ADAPTER_NAME),
    }
}

/// What to do when the stored address cannot be bound at boot.
#[derive(Debug, Clone, Copy, PartialEq, Eq, Structural)]
pub enum BindFallback {
    /// Fail the worker start with the bind error.
    Fail,
    /// Serve on the seed configuration's address instead.
    ServeSeed,
}

/// The fallback with a seed configuration: serve the seed address unless it
/// is the stored address or would widen a loopback-only stored host to a
/// non-loopback one.
pub open spec fn seed_fallback(
    stored: StreamModuleConfig,
    seed: StreamModuleConfig,
    stored_is_loopback: bool,
    seed_is_loopback: bool,
) -> BindFallback {
    if same_address(stored, seed) || (stored_is_loopback && !seed_is_loopback) {
        BindFallback::Fail
    } else {
        BindFallback::ServeSeed
    }
}

/// The boot fallback after the stored address failed to bind: serve the
/// seed address only when there is a seed, its address differs from the
/// stored one, and it does not widen a loopback-only stored host to a
/// non-loopback one. `stored_is_loopback` and `seed_is_loopback` say
/// whether each host restricts the listener to the local machine.
pub fn bind_fallback(
    stored: &StreamModuleConfig,
    seed: Option<&StreamModuleConfig>,
    stored_is_loopback: bool,
    seed_is_loopback: bool,
) -> (r: BindFallback)
    ensures
        r == (match seed {
            None => BindFallback::Fail,
            Some(s) => seed_fallback(*stored, *s, stored_is_loopback, seed_is_loopback),
        }),
{
    match seed {
        None => BindFallback::Fail,
        Some(s) => {
            let same = crate::text::str_eq(stored.host.as_str(), s.host.as_str()) && stored.port
                == s.port;
            if same || (stored_is_loopback && !seed_is_loopback) {
                BindFallback::Fail
            } else {
                BindFallback::ServeSeed
            }
        },
    }
}

/// True when the adapter built from the seed at start-up is not the one the
/// served configuration selects (always, without a seed).
pub fn boot_adapter_outdated(seed: Option<&StreamModuleConfig>, served: &StreamModuleConfig) -> (r:
    bool)
    ensures
        r == match seed {
            None => true,
            Some(s) => !same_effective_adapter(s.adapter, served.adapter, default_adapter_name()),
        },
{
    proof {
        reveal_strlit("kv");
        assert(DEFAULT_ADAPTER_NAME@ =~= default_adapter_name());
    }
    match seed {
        None => true,
        Some(s) => !same_adapter(&s.adapter, &served.adapter, DEFAULT_ADAPTER_NAME),
    }
}

/// A stream operation a custom stream implementation may serve.
#[derive(Debug, Clone, Copy, PartialEq, Eq, Structural)]
pub enum StreamOp {
    Get,
    SetValue,
    Delete,
    List,
    ListGroups,
}

pub open spec fn op_name(op: StreamOp) -> Seq<char> {
    match op {
        StreamOp::Get => "get"@,
        StreamOp::SetValue => "set"@,
        StreamOp::Delete => "delete"@,
        StreamOp::List => "list"@,
        StreamOp::ListGroups => "list_groups"@,
    }
}

/// Id of the function serving `op` for stream `stream_name`:
/// `stream::{op}({stream_name})`. A custom stream registers these ids, and
/// the stream worker calls the function under this id instead of its
/// adapter when one is registered.
pub fn stream_function_id(op: StreamOp, stream_name: &str) -> (id: String)
    ensures
        id@ == "stream::"@ + op_name(op) + "("@ + stream_name@ + ")"@,
{
    let mut id = String::new();
    crate::text::push_str(&mut id, "stream::");
    let name = match op {
        StreamOp::Get => "get",
        StreamOp::SetValue => "set",
        StreamOp::Delete => "delete",
        StreamOp::List => "list",
        StreamOp::ListGroups => "list_groups",
    };
    crate::text::push_str(&mut id, name);
    crate::text::push_str(&mut id, "(");
    crate::text::push_str(&mut id, stream_name);
    crate::text::push_str(&mut id, ")");
    proof {
        assert(Seq::<char>::empty() + "stream::"@ =~= "stream::"@);
    }
    id
}

/// The operations a custom stream implementation registers, in order;
/// atomic updates stay with the engine.
pub fn custom_stream_ops() -> (ops: Vec<StreamOp>)
    ensures
        ops@ == seq![StreamOp::Get, StreamOp::SetValue, StreamOp::Delete, StreamOp::List, StreamOp::ListGroups],
{
    let mut ops: Vec<StreamOp> = Vec::new();
    ops.push(StreamOp::Get);
    ops.push(StreamOp::SetValue);
    ops.push(StreamOp::Delete);
    ops.push(StreamOp::List);
    ops.push(StreamOp::ListGroups);
    proof {
        assert(ops@ =~= seq![StreamOp::Get, StreamOp::SetValue, StreamOp::Delete, StreamOp::List, StreamOp::ListGroups]);
    }
    ops
}

/// The text of an optional filter or id; empty when absent.
pub open spec fn or_empty(s: Option<String>) -> Seq<char> {
    match s {
        Some(t) => t@,
        None => Seq::empty(),
    }
}

/// A stream trigger fires for an event unless it names a group or an item
/// (non-empty) other than the event's; an event without an item id has
/// the empty id.
pub open spec fn trigger_fires(
    group_filter: Option<String>,
    item_filter: Option<String>,
    event_group: Seq<char>,
    event_item: Option<String>,
) -> bool {
    let g = or_empty(group_filter);
    let i = or_empty(item_filter);
    !((g.len() > 0 && g != event_group) || (i.len() > 0 && i != or_empty(event_item)))
}

fn opt_text_eq(a: &Option<String>, b: &str) -> (r: bool)
    ensures
        r == (or_empty(*a) == b@),
{
    match a {
        Some(t) => crate::text::str_eq(t.as_str(), b),
        None => {
            proof {
                assert(b@.len() == 0 ==> b@ =~= Seq::<char>::empty());
            }
            b.is_empty()
        },
    }
}

fn opt_is_empty(a: &Option<String>) -> (r: bool)
    ensures
        r == (or_empty(*a).len() == 0),
{
    match a {
        Some(t) => t.as_str().is_empty(),
        None => true,
    }
}

/// Whether a stream trigger with these filters fires for an event.
pub fn stream_trigger_matches(
    group_filter: &Option<String>,
    item_filter: &Option<String>,
    event_group: &str,
    event_item: &Option<String>,
) -> (r: bool)
    ensures
        r == trigger_fires(*group_filter, *item_filter, event_group@, *event_item),
{
    let event_item_text = match event_item {
        Some(t) => t.as_str(),
        None => "",
    };
    proof {
        reveal_strlit("");
    }
    let group_mismatch = !opt_is_empty(group_filter) && !opt_text_eq(group_filter, event_group);
    let item_mismatch = !opt_is_empty(item_filter) && !opt_text_eq(item_filter, event_item_text);
    !(group_mismatch || item_mismatch)
}

/// The positions, in order, of the triggers (by their group and item
/// filters) that fire for an event.
pub fn matching_triggers(
    filters: &[(Option<String>, Option<String>)],
    event_group: &str,
    event_item: &Option<String>,
) -> (r: Vec<usize>)
    ensures
        forall|k: int| 0 <= k < r@.len() ==> (#[trigger] r@[k]) < filters@.len(),
        forall|k: int, l: int| 0 <= k < l < r@.len() ==> r@[k] < r@[l],
        forall|j: int|
            0 <= j < filters@.len() ==> (r@.contains(j as usize) <==> trigger_fires(
                #[trigger] filters@[j].0,
                filters@[j].1,
                event_group@,
                *event_item,
            )),
{
    let mut r: Vec<usize> = Vec::new();
    let mut i: usize = 0;
    while i < filters.len()
        invariant
            i <= filters@.len(),
            forall|k: int| 0 <= k < r@.len() ==> (#[trigger] r@[k]) < i,
            forall|k: int, l: int| 0 <= k < l < r@.len() ==> r@[k] < r@[l],
            forall|j: int|
                0 <= j < i ==> (r@.contains(j as usize) <==> trigger_fires(
                    #[trigger] filters@[j].0,
                    filters@[j].1,
                    event_group@,
                    *event_item,
                )),
        decreases filters@.len() - i,
    {
        let ghost before = r@;
        if stream_trigger_matches(&filters[i].0, &filters[i].1, event_group, event_item) {
            r.push(i);
            proof {
                assert(r@[r@.len() - 1] == i);
                assert forall|j: int| 0 <= j < i + 1 implies (r@.contains(j as usize) <==> trigger_fires(
                    #[trigger] filters@[j].0,
                    filters@[j].1,
                    event_group@,
                    *event_item,
                )) by {
                    if j < i {
                        if before.contains(j as usize) {
                            let k = choose|k: int| 0 <= k < before.len() && before[k] == j as usize;
                            assert(r@[k] == j as usize);
                        }
                        if r@.contains(j as usize) {
                            let k = choose|k: int| 0 <= k < r@.len() && r@[k] == j as usize;
                            if k < before.len() {
                                assert(before[k] == j as usize);
                            }
                        }
                    } else {
                        assert(r@[r@.len() - 1] == j as usize);
                    }
                }
            }
        } else {
            proof {
                assert forall|j: int| 0 <= j < i + 1 implies (r@.contains(j as usize) <==> trigger_fires(
                    #[trigger] filters@[j].0,
                    filters@[j].1,
                    event_group@,
                    *event_item,
                )) by {
                    if j == i {
                        if r@.contains(j as usize) {
                            let k = choose|k: int| 0 <= k < r@.len() && r@[k] == j as usize;
                            assert(r@[k] < i);
                        }
                    }
                }
            }
        }
        i = i + 1;
    }
    r
}

/// Applying a configuration to itself only replaces the snapshot: no
/// rebind and no adapter swap.
pub proof fn law_reapply_is_noop(c: StreamModuleConfig)
    ensures
        same_address(c, c),
        same_effective_adapter(c.adapter, c.adapter, default_adapter_name()),
{
    crate::adapter::law_same_adapter_is_equivalence(
        c.adapter,
        c.adapter,
        c.adapter,
        default_adapter_name(),
    );
}

/// The boot fallback never moves a loopback-only stored address to a
/// non-loopback seed address, and never falls back to the address that
/// just failed.
pub proof fn law_bind_fallback_guarded(
    stored: StreamModuleConfig,
    seed: StreamModuleConfig,
    stored_is_loopback: bool,
    seed_is_loopback: bool,
)
    requires
        seed_fallback(stored, seed, stored_is_loopback, seed_is_loopback)
            == BindFallback::ServeSeed,
    ensures
        !same_address(stored, seed),
        stored_is_loopback ==> seed_is_loopback,
{
}

} // verus!
