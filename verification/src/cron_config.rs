//! Cron worker settings: the distributed-lock adapter and its options.

use vstd::prelude::*;
use crate::adapter::{same_adapter, same_effective_adapter, AdapterEntry};

verus! {

/// Lock adapter used when the configuration names none.
pub const DEFAULT_ADAPTER_NAME: &'static str = "kv";

pub open spec fn default_adapter_name() -> Seq<char> {
    seq!['k', 'v']
}

/// Cron worker settings.
#[derive(Debug)]
pub struct CronModuleConfig {
    /// Distributed-lock backend; the process-local `kv` adapter when absent.
    pub adapter: Option<AdapterEntry>,
}

impl Default for CronModuleConfig {
    fn default() -> (c: Self)
        ensures
            c.adapter is None,
    {
        CronModuleConfig { adapter: None }
    }
}

/// Storage backend of the `kv` lock adapter's store.
#[derive(Debug, Clone, Copy, PartialEq, Eq, Structural)]
pub enum KvStoreMethod {
    InMemory,
    FileBased,
}

/// Config of the `kv` lock adapter.
#[derive(Debug, Clone, Default)]
pub struct KvAdapterConfig {
    pub store_method: Option<KvStoreMethod>,
    pub file_path: Option<String>,
    pub save_interval_ms: Option<u64>,
    pub lock_ttl_ms: Option<u64>,
    pub lock_index: Option<String>,
}

/// Config of the `redis` lock adapter.
#[derive(Debug, Clone, Default)]
pub struct RedisAdapterConfig {
    pub redis_url: Option<String>,
}

/// True when replacing `old` by `new` selects another lock backend, so the
/// scheduler must be rebuilt and every live job moved to it; otherwise the
/// new configuration is only published.
pub fn cron_needs_adapter_swap(old: &CronModuleConfig, new: &CronModuleConfig) -> (r: bool)
    ensures
        r == !same_effective_adapter(old.adapter, new.adapter, default_adapter_name()),
{
    proof {
        reveal_strlit("kv");
        assert(DEFAULT_ADAPTER_NAME@ =~= default_adapter_name());
    }
    !same_adapter(&old.adapter, &new.adapter, DEFAULT_ADAPTER_NAME)
}

} // verus!
