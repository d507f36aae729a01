//! Queue worker settings: per-queue delivery settings, the always-present
//! `default` queue, and the validation run before consumers start.

use vstd::prelude::*;
use crate::adapter::AdapterEntry;
use crate::json::JsonValue;
use crate::configuration::{invalid_stored_value_message, queue_config_entry};
use crate::text::{push_str, str_eq};

verus! {

/// Name of the always-present built-in queue.
pub const DEFAULT_QUEUE_NAME: &'static str = "default";

pub open spec fn default_queue_name() -> Seq<char> {
    seq!['d', 'e', 'f', 'a', 'u', 'l', 't']
}

pub open spec fn standard_type() -> Seq<char> {
    seq!['s', 't', 'a', 'n', 'd', 'a', 'r', 'd']
}

pub open spec fn fifo_type() -> Seq<char> {
    seq!['f', 'i', 'f', 'o']
}

/// Default Redis connection URL of the queue adapters.
pub fn default_redis_url() -> (s: String)
    ensures
        s@ == "redis://localhost:6379"@,
{
    "redis://localhost:6379".to_owned()
}

pub fn default_max_retries() -> (n: u32)
    ensures
        n == 3,
{
    3
}

pub fn default_concurrency() -> (n: u32)
    ensures
        n == 10,
{
    10
}

pub fn default_queue_type() -> (s: String)
    ensures
        s@ == standard_type(),
{
    let s = "standard".to_owned();
    proof {
        reveal_strlit("standard");
        assert(s@ =~= standard_type());
    }
    s
}

pub fn default_backoff_ms() -> (n: u64)
    ensures
        n == 1000,
{
    1000
}

pub fn default_poll_interval_ms() -> (n: u64)
    ensures
        n == 100,
{
    100
}

/// Per-queue settings.
#[derive(Debug, Clone)]
pub struct FunctionQueueConfig {
    /// Maximum delivery attempts before a message is dead-lettered.
    pub max_retries: u32,
    /// Number of messages processed concurrently; at least 1.
    pub concurrency: u32,
    /// Delivery semantics: `standard` or `fifo`.
    pub queue_type: String,
    /// For `fifo` queues, the message field whose value defines the
    /// ordering group.
    pub message_group_field: Option<String>,
    /// Base delay in milliseconds of the exponential retry backoff.
    pub backoff_ms: u64,
    /// Poll interval in milliseconds for polling adapters.
    pub poll_interval_ms: u64,
}

/// The settings of a queue nobody configured: standard delivery, 3
/// retries, concurrency 10, 1s backoff, 100ms polling.
pub open spec fn is_default_queue_config(c: FunctionQueueConfig) -> bool {
    &&& c.max_retries == 3
    &&& c.concurrency == 10
    &&& c.queue_type@ == standard_type()
    &&& c.message_group_field is None
    &&& c.backoff_ms == 1000
    &&& c.poll_interval_ms == 100
}

impl Default for FunctionQueueConfig {
    fn default() -> (c: Self)
        ensures
            is_default_queue_config(c),
    {
        FunctionQueueConfig {
            max_retries: default_max_retries(),
            concurrency: default_concurrency(),
            queue_type: default_queue_type(),
            message_group_field: None,
            backoff_ms: default_backoff_ms(),
            poll_interval_ms: default_poll_interval_ms(),
        }
    }
}

/// Queue worker settings. Queues are listed by name; a name occurs at most
/// once.
#[derive(Debug)]
pub struct QueueModuleConfig {
    /// Transport backing the queues; the built-in adapter when absent.
    pub(crate) adapter: Option<AdapterEntry>,
    /// Named queues with their settings.
    pub(crate) queue_configs: Vec<(String, FunctionQueueConfig)>,
}

impl QueueModuleConfig {
    /// No queue name occurs twice.
    #[verifier::type_invariant]
    pub(crate) closed spec fn names_unique(self) -> bool {
        keys_unique(self.queue_configs@)
    }

    /// The queues, in listed order.
    pub closed spec fn queues(self) -> Seq<(String, FunctionQueueConfig)> {
        self.queue_configs@
    }

    /// The adapter entry.
    pub closed spec fn adapter_entry(self) -> Option<AdapterEntry> {
        self.adapter
    }
}

impl Default for QueueModuleConfig {
    fn default() -> (c: Self)
        ensures
            c.adapter_entry() is None,
            c.queues().len() == 0,
    {
        QueueModuleConfig { adapter: None, queue_configs: Vec::new() }
    }
}

/// Why a queue's settings are rejected.
#[derive(Debug)]
pub enum QueueConfigError {
    /// The queue type is neither `standard` nor `fifo`.
    InvalidType { queue: String, queue_type: String },
    /// A `fifo` queue without a `message_group_field`.
    FifoWithoutGroupField { queue: String },
    /// A queue with concurrency 0.
    ZeroConcurrency { queue: String },
}

/// The queue's settings are accepted.
pub open spec fn queue_is_valid(c: FunctionQueueConfig) -> bool {
    &&& (c.queue_type@ == standard_type() || c.queue_type@ == fifo_type())
    &&& !(c.queue_type@ == fifo_type() && c.message_group_field is None)
    &&& c.concurrency != 0
}

/// `e` is the error reported for queue `name` with settings `c`: the first
/// of the three checks (type, fifo group field, concurrency) that fails.
pub open spec fn reports(e: QueueConfigError, name: Seq<char>, c: FunctionQueueConfig) -> bool {
    if !(c.queue_type@ == standard_type() || c.queue_type@ == fifo_type()) {
        e matches QueueConfigError::InvalidType { queue, queue_type } && queue@ == name
            && queue_type@ == c.queue_type@
    } else if c.queue_type@ == fifo_type() && c.message_group_field is None {
        e matches QueueConfigError::FifoWithoutGroupField { queue } && queue@ == name
    } else if c.concurrency == 0 {
        e matches QueueConfigError::ZeroConcurrency { queue } && queue@ == name
    } else {
        false
    }
}

/// The message of an error.
pub open spec fn error_message(e: QueueConfigError) -> Seq<char> {
    match e {
        QueueConfigError::InvalidType { queue, queue_type } => "Queue '"@ + queue@
            + "' has invalid type '"@ + queue_type@ + "'. Must be 'standard' or 'fifo'"@,
        QueueConfigError::FifoWithoutGroupField { queue } => "Queue '"@ + queue@
            + "' is of type 'fifo' but 'message_group_field' is not set"@,
        QueueConfigError::ZeroConcurrency { queue } => "Queue '"@ + queue@
            + "' has 'concurrency' 0; it must be at least 1"@,
    }
}

impl QueueConfigError {
    /// The error as a sentence naming the queue and the failed rule.
    pub fn message(&self) -> (s: String)
        ensures
            s@ == error_message(*self),
    {
        let mut s = String::new();
        match self {
            QueueConfigError::InvalidType { queue, queue_type } => {
                push_str(&mut s, "Queue '");
                push_str(&mut s, queue.as_str());
                push_str(&mut s, "' has invalid type '");
                push_str(&mut s, queue_type.as_str());
                push_str(&mut s, "'. Must be 'standard' or 'fifo'");
            },
            QueueConfigError::FifoWithoutGroupField { queue } => {
                push_str(&mut s, "Queue '");
                push_str(&mut s, queue.as_str());
                push_str(&mut s, "' is of type 'fifo' but 'message_group_field' is not set");
            },
            QueueConfigError::ZeroConcurrency { queue } => {
                push_str(&mut s, "Queue '");
                push_str(&mut s, queue.as_str());
                push_str(&mut s, "' has 'concurrency' 0; it must be at least 1");
            },
        }
        s
    }
}

/// A queue named `name` is configured.
pub open spec fn has_queue(queues: Seq<(String, FunctionQueueConfig)>, name: Seq<char>) -> bool {
    exists|i: int| 0 <= i < queues.len() && (#[trigger] queues[i]).0@ == name
}

/// No queue name occurs twice.
pub open spec fn keys_unique(queues: Seq<(String, FunctionQueueConfig)>) -> bool {
    forall|i: int, j: int|
        0 <= i < queues.len() && 0 <= j < queues.len() && i != j ==> (#[trigger] queues[i]).0@
            != (#[trigger] queues[j]).0@
}

/// The settings each listed name ends with when a later listing of a name
/// replaces an earlier one, as inserting into a map does.
pub open spec fn final_settings(queues: Seq<(String, FunctionQueueConfig)>) -> Map<
    Seq<char>,
    FunctionQueueConfig,
>
    decreases queues.len(),
{
    if queues.len() == 0 {
        Map::empty()
    } else {
        final_settings(queues.drop_last()).insert(queues.last().0@, queues.last().1)
    }
}

/// Replacing the settings of a listed name in a list without repeated
/// names replaces them in the final settings.
pub proof fn lemma_final_settings_update(
    queues: Seq<(String, FunctionQueueConfig)>,
    j: int,
    e: (String, FunctionQueueConfig),
)
    requires
        keys_unique(queues),
        0 <= j < queues.len(),
        queues[j].0@ == e.0@,
    ensures
        final_settings(queues.update(j, e)) == final_settings(queues).insert(e.0@, e.1),
    decreases queues.len(),
{
    let u = queues.update(j, e);
    let n = queues.len() - 1;
    if j == n {
        assert(u.drop_last() =~= queues.drop_last());
        assert(final_settings(u) =~= final_settings(queues).insert(e.0@, e.1));
    } else {
        let d = queues.drop_last();
        assert(keys_unique(d)) by {
            assert forall|a: int, b: int|
                0 <= a < d.len() && 0 <= b < d.len() && a != b implies (#[trigger] d[a]).0@
                != (#[trigger] d[b]).0@ by {
                assert(d[a] == queues[a] && d[b] == queues[b]);
            }
        }
        lemma_final_settings_update(d, j, e);
        assert(u.drop_last() =~= d.update(j, e));
        assert(u.last() == queues.last());
        assert(queues[n].0@ != queues[j].0@);
        assert(final_settings(u) =~= final_settings(queues).insert(e.0@, e.1));
    }
}

/// Adding a queue under a name not yet listed keeps the names unique.
pub proof fn lemma_push_new_name_keeps_unique(
    queues: Seq<(String, FunctionQueueConfig)>,
    e: (String, FunctionQueueConfig),
)
    requires
        keys_unique(queues),
        forall|i: int| 0 <= i < queues.len() ==> (#[trigger] queues[i]).0@ != e.0@,
    ensures
        keys_unique(queues.push(e)),
{
    let a = queues.push(e);
    assert forall|i: int, j: int|
        0 <= i < a.len() && 0 <= j < a.len() && i != j implies (#[trigger] a[i]).0@
        != (#[trigger] a[j]).0@ by {
        if i < queues.len() && j < queues.len() {
            assert(a[i] == queues[i] && a[j] == queues[j]);
        } else if i < queues.len() {
            assert(a[i] == queues[i]);
        } else {
            assert(a[j] == queues[j]);
        }
    }
}

/// `after` is `before` with the `default` queue provisioned: unchanged when
/// a `default` queue is configured, else one queue added at the end, named
/// `default`, with the default settings.
pub open spec fn default_queue_ensured(before: QueueModuleConfig, after: QueueModuleConfig) -> bool {
    if has_queue(before.queues(), default_queue_name()) {
        after == before
    } else {
        &&& after.adapter_entry() == before.adapter_entry()
        &&& after.queues().len() == before.queues().len() + 1
        &&& after.queues().take(before.queues().len() as int)
            == before.queues()
        &&& after.queues().last().0@ == default_queue_name()
        &&& is_default_queue_config(after.queues().last().1)
    }
}

fn is_default_name(name: &String) -> (r: bool)
    ensures
        r == (name@ == default_queue_name()),
{
    proof {
        reveal_strlit("default");
        assert(DEFAULT_QUEUE_NAME@ =~= default_queue_name());
    }
    str_eq(name.as_str(), DEFAULT_QUEUE_NAME)
}

fn is_type(t: &String, expected: &str) -> (r: bool)
    ensures
        r == (t@ == expected@),
{
    str_eq(t.as_str(), expected)
}

impl QueueModuleConfig {
    /// Settings for `queues`, listed by name with their settings; a name
    /// listed again replaces the settings of its earlier listing.
    pub fn new(adapter: Option<AdapterEntry>, queues: Vec<(String, FunctionQueueConfig)>) -> (c:
        Self)
        ensures
            c.adapter_entry() == adapter,
            final_settings(c.queues()) == final_settings(queues@),
    {
        let mut out: Vec<(String, FunctionQueueConfig)> = Vec::new();
        let mut rest = queues;
        let ghost input = rest@;
        proof {
            assert(out@ =~= Seq::<(String, FunctionQueueConfig)>::empty());
            assert(input.take(0) =~= Seq::<(String, FunctionQueueConfig)>::empty());
            assert(input.skip(0) =~= input);
        }
        let total: usize = rest.len();
        let mut i: usize = 0;
        while i < total
            invariant
                total == input.len(),
                i <= total,
                rest@ == input.skip(i as int),
                keys_unique(out@),
                final_settings(out@) == final_settings(input.take(i as int)),
            decreases total - i,
        {
            let e = rest.remove(0);
            proof {
                assert(e == input[i as int]);
                assert(rest@ =~= input.skip(i + 1));
            }
            let mut j: usize = 0;
            let mut found = false;
            while j < out.len()
                invariant_except_break
                    j <= out@.len(),
                    !found,
                    forall|k: int| 0 <= k < j ==> (#[trigger] out@[k]).0@ != e.0@,
                ensures
                    found ==> j < out@.len() && out@[j as int].0@ == e.0@,
                    !found ==> forall|k: int| 0 <= k < out@.len() ==> (#[trigger] out@[k]).0@ != e.0@,
                decreases out@.len() - j,
            {
                if str_eq(out[j].0.as_str(), e.0.as_str()) {
                    found = true;
                    break;
                }
                j = j + 1;
            }
            let ghost before = out@;
            proof {
                assert(input.take(i + 1).drop_last() =~= input.take(i as int));
                assert(input.take(i + 1).last() == e);
            }
            if found {
                out.set(j, e);
                proof {
                    lemma_final_settings_update(before, j as int, out@[j as int]);
                    assert(out@ =~= before.update(j as int, out@[j as int]));
                    assert forall|a: int, b: int|
                        0 <= a < out@.len() && 0 <= b < out@.len() && a != b implies (
                        #[trigger] out@[a]).0@ != (#[trigger] out@[b]).0@ by {
                        if a != j && b != j {
                            assert(out@[a] == before[a] && out@[b] == before[b]);
                        } else if a == j {
                            assert(out@[b] == before[b]);
                        } else {
                            assert(out@[a] == before[a]);
                        }
                    }
                }
            } else {
                out.push(e);
                proof {
                    lemma_push_new_name_keeps_unique(before, out@.last());
                    assert(out@.drop_last() =~= before);
                }
            }
            i = i + 1;
        }
        proof {
            assert(input.take(i as int) =~= input);
        }
        QueueModuleConfig { adapter, queue_configs: out }
    }

    /// The adapter entry.
    pub fn adapter(&self) -> (r: &Option<AdapterEntry>)
        ensures
            *r == self.adapter_entry(),
    {
        &self.adapter
    }

    /// The queues, in listed order; no name occurs twice.
    pub fn queue_configs(&self) -> (r: &Vec<(String, FunctionQueueConfig)>)
        ensures
            r@ == self.queues(),
            keys_unique(r@),
    {
        proof {
            use_type_invariant(self);
        }
        &self.queue_configs
    }

    /// The adapter entry and the queues, taken apart.
    pub fn into_parts(self) -> (r: (Option<AdapterEntry>, Vec<(String, FunctionQueueConfig)>))
        ensures
            r.0 == self.adapter_entry(),
            r.1@ == self.queues(),
            keys_unique(r.1@),
    {
        proof {
            use_type_invariant(&self);
        }
        (self.adapter, self.queue_configs)
    }

    /// Settings of queue `name` (the first entry with that name).
    pub fn queue(&self, name: &str) -> (r: Option<&FunctionQueueConfig>)
        ensures
            r is None <==> !has_queue(self.queues(), name@),
            r matches Some(c) ==> exists|i: int|
                0 <= i < self.queues().len() && self.queues()[i].0@ == name@ && *c
                    == self.queues()[i].1 && forall|j: int|
                    0 <= j < i ==> (#[trigger] self.queues()[j]).0@ != name@,
    {
        let mut i: usize = 0;
        while i < self.queue_configs.len()
            invariant
                i <= self.queues().len(),
                forall|j: int| 0 <= j < i ==> (#[trigger] self.queues()[j]).0@ != name@,
            decreases self.queues().len() - i,
        {
            if str_eq(self.queue_configs[i].0.as_str(), name) {
                return Some(&self.queue_configs[i].1);
            }
            i = i + 1;
        }
        None
    }

    /// Provisions the built-in `default` queue with standard settings unless
    /// a `default` queue is already configured, which is kept as it is.
    pub fn ensure_default_queue(&mut self)
        ensures
            default_queue_ensured(*old(self), *final(self)),
    {
        let mut i: usize = 0;
        while i < self.queue_configs.len()
            invariant
                i <= self.queues().len(),
                forall|j: int|
                    0 <= j < i ==> (#[trigger] self.queues()[j]).0@ != default_queue_name(),
            decreases self.queues().len() - i,
        {
            if is_default_name(&self.queue_configs[i].0) {
                return;
            }
            i = i + 1;
        }
        let name = DEFAULT_QUEUE_NAME.to_owned();
        proof {
            reveal_strlit("default");
            assert(name@ =~= default_queue_name());
        }
        proof {
            use_type_invariant(&*self);
        }
        let mut queues: Vec<(String, FunctionQueueConfig)> = Vec::new();
        std::mem::swap(&mut queues, &mut self.queue_configs);
        let ghost listed = queues@;
        queues.push((name, FunctionQueueConfig::default()));
        proof {
            lemma_push_new_name_keeps_unique(listed, queues@.last());
        }
        self.queue_configs = queues;
        proof {
            assert(self.queues().take(old(self).queues().len() as int)
                =~= old(self).queues());
        }
    }

    /// Checks every queue: its type is `standard` or `fifo`, a `fifo` queue
    /// names its `message_group_field`, and its concurrency is at least 1.
    /// The error names the first queue, in listed order, that breaks a rule.
    pub fn validate(&self) -> (r: Result<(), QueueConfigError>)
        ensures
            r is Ok <==> forall|i: int|
                0 <= i < self.queues().len() ==> queue_is_valid(
                    (#[trigger] self.queues()[i]).1,
                ),
            r matches Err(e) ==> exists|i: int|
                0 <= i < self.queues().len() && !queue_is_valid(self.queues()[i].1)
                    && reports(e, self.queues()[i].0@, self.queues()[i].1) && forall|
                    j: int,
                | 0 <= j < i ==> queue_is_valid((#[trigger] self.queues()[j]).1),
    {
        proof {
            reveal_strlit("standard");
            reveal_strlit("fifo");
            assert("standard"@ =~= standard_type());
            assert("fifo"@ =~= fifo_type());
        }
        let mut i: usize = 0;
        while i < self.queue_configs.len()
            invariant
                i <= self.queues().len(),
                "standard"@ == standard_type(),
                "fifo"@ == fifo_type(),
                forall|j: int| 0 <= j < i ==> queue_is_valid((#[trigger] self.queues()[j]).1),
            decreases self.queues().len() - i,
        {
            let (name, c) = &self.queue_configs[i];
            let is_standard = is_type(&c.queue_type, "standard");
            let is_fifo = is_type(&c.queue_type, "fifo");
            if !is_standard && !is_fifo {
                return Err(
                    QueueConfigError::InvalidType {
                        queue: name.clone(),
                        queue_type: c.queue_type.clone(),
                    },
                );
            }
            if is_fifo && c.message_group_field.is_none() {
                return Err(QueueConfigError::FifoWithoutGroupField { queue: name.clone() });
            }
            if c.concurrency == 0 {
                return Err(QueueConfigError::ZeroConcurrency { queue: name.clone() });
            }
            i = i + 1;
        }
        Ok(())
    }
}

/// The queue configuration served after reading the stored value: the
/// stored configuration as parsed, or the static `fallback` when nothing is
/// stored, each with the `default` queue provisioned. A failed read keeps
/// its error; a stored value that does not parse (`reason` says why) is
/// reported as an invalid stored `iii-queue` configuration.
pub fn fetched_queue_config(
    read: Result<Option<Result<QueueModuleConfig, String>>, String>,
    fallback: QueueModuleConfig,
) -> (r: Result<QueueModuleConfig, String>)
    ensures
        read matches Err(e) ==> (r matches Err(m) && m == e),
        read matches Ok(None) ==> (r matches Ok(c) && default_queue_ensured(fallback, c)),
        read matches Ok(Some(Err(reason))) ==> (r matches Err(m) && m@
            == "stored `iii-queue` configuration is invalid: "@ + reason@),
        read matches Ok(Some(Ok(parsed))) ==> (r matches Ok(c) && default_queue_ensured(
            parsed,
            c,
        )),
{
    match read {
        Err(e) => Err(e),
        Ok(None) => {
            let mut c = fallback;
            c.ensure_default_queue();
            Ok(c)
        },
        Ok(Some(Err(reason))) => {
            let m = invalid_stored_value_message(queue_config_entry(), reason.as_str());
            proof {
                reveal_strlit("stored `");
                reveal_strlit("iii-queue");
                reveal_strlit("` configuration is invalid: ");
                reveal_strlit("stored `iii-queue` configuration is invalid: ");
                assert("stored `"@ + "iii-queue"@ + "` configuration is invalid: "@
                    =~= "stored `iii-queue` configuration is invalid: "@);
            }
            Err(m)
        },
        Ok(Some(Ok(parsed))) => {
            let mut c = parsed;
            c.ensure_default_queue();
            Ok(c)
        },
    }
}

/// Provisioning the `default` queue twice is the same as provisioning it
/// once.
pub proof fn law_ensure_default_queue_idempotent(
    start: QueueModuleConfig,
    once: QueueModuleConfig,
    twice: QueueModuleConfig,
)
    requires
        default_queue_ensured(start, once),
        default_queue_ensured(once, twice),
    ensures
        twice == once,
{
    if !has_queue(start.queues(), default_queue_name()) {
        let n = once.queues().len() - 1;
        assert(once.queues()[n].0@ == default_queue_name());
    }
}

/// After provisioning, a `default` queue is configured; a configured
/// `default` queue keeps its settings; and names stay unique.
pub proof fn law_ensure_default_queue_provides_default(
    start: QueueModuleConfig,
    after: QueueModuleConfig,
)
    requires
        default_queue_ensured(start, after),
    ensures
        has_queue(after.queues(), default_queue_name()),
        has_queue(start.queues(), default_queue_name()) ==> after == start,
        keys_unique(start.queues()) ==> keys_unique(after.queues()),
{
    let s = start.queues();
    let a = after.queues();
    if !has_queue(s, default_queue_name()) {
        let n = s.len() as int;
        assert(a[n].0@ == default_queue_name());
        if keys_unique(s) {
            assert forall|i: int, j: int|
                0 <= i < a.len() && 0 <= j < a.len() && i != j implies (#[trigger] a[i]).0@
                != (#[trigger] a[j]).0@ by {
                if i < n && j < n {
                    assert(a[i] == a.take(n)[i]);
                    assert(a[j] == a.take(n)[j]);
                } else if i < n {
                    assert(a[i] == a.take(n)[i]);
                    assert(s[i].0@ != default_queue_name());
                } else {
                    assert(a[j] == a.take(n)[j]);
                    assert(s[j].0@ != default_queue_name());
                }
            }
        }
    }
}

/// A queue's settings with their text taken by its characters.
pub open spec fn settings_view(c: FunctionQueueConfig) -> (
    u32,
    u32,
    Seq<char>,
    Option<Seq<char>>,
    u64,
    u64,
) {
    (
        c.max_retries,
        c.concurrency,
        c.queue_type@,
        match c.message_group_field {
            Some(f) => Some(f@),
            None => None,
        },
        c.backoff_ms,
        c.poll_interval_ms,
    )
}

/// The listed queues, names and settings taken by their characters.
pub open spec fn queues_view(queues: Seq<(String, FunctionQueueConfig)>) -> Seq<
    (Seq<char>, (u32, u32, Seq<char>, Option<Seq<char>>, u64, u64)),
> {
    queues.map_values(|e: (String, FunctionQueueConfig)| (e.0@, settings_view(e.1)))
}

/// Two queue worker configurations hold the same settings: the same
/// adapter and the same queues in the same order.
pub open spec fn same_queue_settings(a: QueueModuleConfig, b: QueueModuleConfig) -> bool {
    a.adapter_entry() == b.adapter_entry() && queues_view(a.queues()) == queues_view(b.queues())
}

/// Provisioning the `default` queue on two configurations with the same
/// settings gives configurations with the same settings.
pub proof fn law_ensure_default_queue_same_settings(
    a: QueueModuleConfig,
    b: QueueModuleConfig,
    a1: QueueModuleConfig,
    b1: QueueModuleConfig,
)
    requires
        same_queue_settings(a, b),
        default_queue_ensured(a, a1),
        default_queue_ensured(b, b1),
    ensures
        same_queue_settings(a1, b1),
{
    let qa = a.queues();
    let qb = b.queues();
    let d = default_queue_name();
    assert(qa.len() == queues_view(qa).len());
    assert(qb.len() == queues_view(qb).len());
    if has_queue(qa, d) {
        let i = choose|i: int| 0 <= i < qa.len() && (#[trigger] qa[i]).0@ == d;
        assert(queues_view(qa)[i] == queues_view(qb)[i]);
        assert(qb[i].0@ == d);
    }
    if has_queue(qb, d) {
        let i = choose|i: int| 0 <= i < qb.len() && (#[trigger] qb[i]).0@ == d;
        assert(queues_view(qa)[i] == queues_view(qb)[i]);
        assert(qa[i].0@ == d);
    }
    if !has_queue(qa, d) {
        let n = qa.len() as int;
        let va = queues_view(a1.queues());
        let vb = queues_view(b1.queues());
        assert forall|i: int| 0 <= i < va.len() implies va[i] == vb[i] by {
            if i < n {
                assert(a1.queues()[i] == a1.queues().take(n)[i]);
                assert(b1.queues()[i] == b1.queues().take(n)[i]);
                assert(queues_view(qa)[i] == queues_view(qb)[i]);
            }
        }
        assert(va =~= vb);
    }
}

/// Provisioning the `default` queue twice on one configuration and once on
/// a configuration with the same settings gives the same settings.
pub proof fn law_ensure_default_queue_twice_matches_once(
    c1: QueueModuleConfig,
    c2: QueueModuleConfig,
    c1_once: QueueModuleConfig,
    c1_twice: QueueModuleConfig,
    c2_once: QueueModuleConfig,
)
    requires
        same_queue_settings(c1, c2),
        default_queue_ensured(c1, c1_once),
        default_queue_ensured(c1_once, c1_twice),
        default_queue_ensured(c2, c2_once),
    ensures
        same_queue_settings(c1_twice, c2_once),
{
    law_ensure_default_queue_idempotent(c1, c1_once, c1_twice);
    law_ensure_default_queue_same_settings(c1, c2, c1_once, c2_once);
}

/// The queue provisioned by default passes validation.
pub proof fn law_default_queue_config_is_valid(c: FunctionQueueConfig)
    requires
        is_default_queue_config(c),
    ensures
        queue_is_valid(c),
{
}

/// Builtin adapter storage backend.
#[derive(Debug, Clone, Copy, PartialEq, Eq, Structural)]
pub enum QueueStoreMethod {
    InMemory,
    FileBased,
}

/// Config of the built-in in-process adapter.
#[derive(Debug, Clone, Default)]
pub struct BuiltinAdapterConfig {
    pub store_method: Option<QueueStoreMethod>,
    pub file_path: Option<String>,
    pub save_interval_ms: Option<u64>,
}

/// Config of the `redis` adapter.
#[derive(Debug, Clone, Default)]
pub struct RedisAdapterConfig {
    pub redis_url: Option<String>,
}

/// Config of the `bridge` adapter.
#[derive(Debug, Clone, Default)]
pub struct BridgeAdapterConfig {
    pub bridge_url: Option<String>,
}

/// Config of the `rabbitmq` adapter.
#[derive(Debug, Clone, Default)]
pub struct RabbitmqAdapterConfig {
    pub amqp_url: Option<String>,
    pub max_attempts: Option<u32>,
    pub prefetch_count: Option<u16>,
    pub queue_mode: Option<String>,
}

} // verus!
