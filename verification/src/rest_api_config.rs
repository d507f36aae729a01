//! HTTP server settings and their normalization: global middleware ordered
//! by priority, and an in-flight request limit of at least one.

use vstd::prelude::*;

verus! {

pub fn default_port() -> (p: u16)
    ensures
        p == 3111,
{
    3111
}

pub fn default_host() -> (s: String)
    ensures
        s@ == "0.0.0.0"@,
{
    "0.0.0.0".to_owned()
}

pub fn default_timeout() -> (t: u64)
    ensures
        t == 30000,
{
    30000
}

pub fn default_concurrency_request_limit() -> (n: usize)
    ensures
        n == 1024,
{
    1024
}

pub fn default_phase() -> (s: String)
    ensures
        s@ == "preHandler"@,
{
    "preHandler".to_owned()
}

/// A global middleware: the function to invoke, its lifecycle phase and
/// its priority (lower runs first).
#[derive(Debug, Clone)]
pub struct MiddlewareConfig {
    pub function_id: String,
    pub phase: String,
    pub priority: i64,
}

/// CORS policy; an empty list allows any origin or method.
#[derive(Debug, Clone, Default)]
pub struct CorsConfig {
    pub allowed_origins: Vec<String>,
    pub allowed_methods: Vec<String>,
}

/// HTTP server settings.
#[derive(Debug, Clone)]
pub struct RestApiConfig {
    pub port: u16,
    pub host: String,
    pub default_timeout: u64,
    pub cors: Option<CorsConfig>,
    pub concurrency_request_limit: usize,
    pub middleware: Vec<MiddlewareConfig>,
}

impl Default for RestApiConfig {
    fn default() -> (c: Self)
        ensures
            c.port == 3111,
            c.host@ == "0.0.0.0"@,
            c.default_timeout == 30000,
            c.cors is None,
            c.concurrency_request_limit == 1024,
            c.middleware@.len() == 0,
    {
        RestApiConfig {
            port: default_port(),
            host: default_host(),
            default_timeout: default_timeout(),
            cors: None,
            concurrency_request_limit: default_concurrency_request_limit(),
            middleware: Vec::new(),
        }
    }
}

/// Middleware in ascending priority order.
pub open spec fn sorted_by_priority(s: Seq<MiddlewareConfig>) -> bool {
    forall|i: int, j: int| 0 <= i <= j < s.len() ==> (#[trigger] s[i]).priority <= (#[trigger] s[
        j]).priority
}

/// The middleware of priority `p`, in their order in `s`.
pub open spec fn with_priority(s: Seq<MiddlewareConfig>, p: i64) -> Seq<MiddlewareConfig>
    decreases s.len(),
{
    if s.len() == 0 {
        Seq::empty()
    } else if s.last().priority == p {
        with_priority(s.drop_last(), p).push(s.last())
    } else {
        with_priority(s.drop_last(), p)
    }
}

/// `after` is `before` stably sorted by priority: sorted, and the middleware
/// of each priority keep their relative order.
pub open spec fn stably_sorted(before: Seq<MiddlewareConfig>, after: Seq<MiddlewareConfig>) -> bool {
    &&& after.len() == before.len()
    &&& sorted_by_priority(after)
    &&& forall|p: i64| #[trigger] with_priority(after, p) == with_priority(before, p)
}

/// `after` is `before` normalized.
pub open spec fn normalized_from(before: RestApiConfig, after: RestApiConfig) -> bool {
    &&& after.port == before.port
    &&& after.host == before.host
    &&& after.default_timeout == before.default_timeout
    &&& after.cors == before.cors
    &&& after.concurrency_request_limit == if before.concurrency_request_limit == 0 {
        1
    } else {
        before.concurrency_request_limit
    }
    &&& stably_sorted(before.middleware@, after.middleware@)
}

proof fn lemma_with_priority_concat(a: Seq<MiddlewareConfig>, b: Seq<MiddlewareConfig>, p: i64)
    ensures
        with_priority(a + b, p) == with_priority(a, p) + with_priority(b, p),
    decreases b.len(),
{
    if b.len() == 0 {
        assert(a + b =~= a);
        assert(with_priority(b, p) =~= Seq::<MiddlewareConfig>::empty());
        assert(with_priority(a, p) + with_priority(b, p) =~= with_priority(a, p));
    } else {
        assert((a + b).drop_last() =~= a + b.drop_last());
        assert((a + b).last() == b.last());
        lemma_with_priority_concat(a, b.drop_last(), p);
        if b.last().priority == p {
            assert(with_priority(a, p) + with_priority(b.drop_last(), p).push(b.last()) =~= (
            with_priority(a, p) + with_priority(b.drop_last(), p)).push(b.last()));
        }
    }
}

proof fn lemma_with_priority_none(s: Seq<MiddlewareConfig>, p: i64)
    requires
        forall|i: int| 0 <= i < s.len() ==> (#[trigger] s[i]).priority != p,
    ensures
        with_priority(s, p) == Seq::<MiddlewareConfig>::empty(),
    decreases s.len(),
{
    if s.len() > 0 {
        assert(s.last() == s[s.len() - 1]);
        lemma_with_priority_none(s.drop_last(), p);
    }
}

proof fn lemma_with_priority_single(x: MiddlewareConfig, p: i64)
    ensures
        with_priority(seq![x], p) == (if x.priority == p {
            seq![x]
        } else {
            Seq::<MiddlewareConfig>::empty()
        }),
{
    let s = seq![x];
    assert(s.drop_last() =~= Seq::<MiddlewareConfig>::empty());
    assert(with_priority(Seq::<MiddlewareConfig>::empty(), p) =~= Seq::<MiddlewareConfig>::empty());
    assert(Seq::<MiddlewareConfig>::empty().push(x) =~= seq![x]);
}

/// Inserting `x` where everything after it has a greater priority appends
/// `x` to its priority's group and leaves the other groups unchanged.
proof fn lemma_with_priority_insert(s: Seq<MiddlewareConfig>, k: int, x: MiddlewareConfig, p: i64)
    requires
        0 <= k <= s.len(),
        forall|i: int| k <= i < s.len() ==> (#[trigger] s[i]).priority > x.priority,
    ensures
        with_priority(s.insert(k, x), p) == if x.priority == p {
            with_priority(s, p).push(x)
        } else {
            with_priority(s, p)
        },
{
    let a = s.subrange(0, k);
    let b = s.subrange(k, s.len() as int);
    assert(s =~= a + b);
    assert(s.insert(k, x) =~= a + (seq![x] + b));
    lemma_with_priority_concat(a, seq![x] + b, p);
    lemma_with_priority_concat(seq![x], b, p);
    lemma_with_priority_concat(a, b, p);
    lemma_with_priority_single(x, p);
    if x.priority == p {
        assert forall|i: int| 0 <= i < b.len() implies (#[trigger] b[i]).priority != p by {
            assert(b[i] == s[k + i]);
        }
        lemma_with_priority_none(b, p);
        assert(with_priority(a, p) + (seq![x] + Seq::<MiddlewareConfig>::empty()) =~= (
        with_priority(a, p) + Seq::<MiddlewareConfig>::empty()).push(x));
    } else {
        assert(Seq::<MiddlewareConfig>::empty() + with_priority(b, p) =~= with_priority(b, p));
    }
}

/// Inserts `x` after every entry of priority at most its own.
fn insert_sorted(out: &mut Vec<MiddlewareConfig>, x: MiddlewareConfig)
    requires
        sorted_by_priority(old(out)@),
    ensures
        sorted_by_priority(final(out)@),
        final(out)@.len() == old(out)@.len() + 1,
        forall|p: i64|
            #[trigger] with_priority(final(out)@, p) == if x.priority == p {
                with_priority(old(out)@, p).push(x)
            } else {
                with_priority(old(out)@, p)
            },
{
    let mut k: usize = 0;
    while k < out.len() && out[k].priority <= x.priority
        invariant
            k <= out@.len(),
            out@ == old(out)@,
            forall|i: int| 0 <= i < k ==> (#[trigger] out@[i]).priority <= x.priority,
        decreases out@.len() - k,
    {
        k = k + 1;
    }
    let ghost s = out@;
    proof {
        assert forall|i: int| k <= i < s.len() implies (#[trigger] s[i]).priority > x.priority by {
            assert(s[k as int].priority > x.priority);
            assert(s[k as int].priority <= s[i].priority);
        }
        s.insert_ensures(k as int, x);
    }
    out.insert(k, x);
    proof {
        let t = out@;
        assert(t =~= s.insert(k as int, x));
        assert forall|i: int, j: int| 0 <= i <= j < t.len() implies (#[trigger] t[i]).priority
            <= (#[trigger] t[j]).priority by {
            if j < k {
                assert(t[i] == s[i] && t[j] == s[j]);
            } else if j == k {
                if i < k {
                    assert(t[i] == s[i]);
                }
            } else {
                assert(t[j] == s[j - 1]);
                if i < k {
                    assert(t[i] == s[i]);
                } else if i > k {
                    assert(t[i] == s[i - 1]);
                }
            }
        }
        assert forall|p: i64| #[trigger] with_priority(t, p) == if x.priority == p {
            with_priority(s, p).push(x)
        } else {
            with_priority(s, p)
        } by {
            lemma_with_priority_insert(s, k as int, x, p);
        }
    }
}

/// Stable sort of middleware by ascending priority.
fn sort_by_priority(mut v: Vec<MiddlewareConfig>) -> (r: Vec<MiddlewareConfig>)
    ensures
        stably_sorted(v@, r@),
{
    let ghost orig = v@;
    let n = v.len();
    let mut out: Vec<MiddlewareConfig> = Vec::new();
    let mut i: usize = 0;
    while v.len() > 0
        invariant
            i + v@.len() == orig.len(),
            orig.len() == n,
            v@ == orig.skip(i as int),
            out@.len() == i,
            sorted_by_priority(out@),
            forall|p: i64| #[trigger] with_priority(out@, p) == with_priority(orig.take(i as int), p),
        decreases v@.len(),
    {
        let x = v.remove(0);
        proof {
            assert(x == orig[i as int]);
            assert(orig.take(i + 1) =~= orig.take(i as int).push(x));
            assert(v@ =~= orig.skip(i + 1));
        }
        insert_sorted(&mut out, x);
        i = i + 1;
        proof {
            assert forall|p: i64| #[trigger] with_priority(out@, p) == with_priority(
                orig.take(i as int),
                p,
            ) by {
                assert(orig.take(i as int).drop_last() =~= orig.take(i - 1));
            }
        }
    }
    proof {
        assert(orig.take(i as int) =~= orig);
    }
    out
}

impl RestApiConfig {
    /// Normalizes a freshly loaded configuration: global middleware sorted by
    /// ascending priority (stably, so equal priorities keep their listed
    /// order), and a `concurrency_request_limit` of 0 raised to 1.
    pub fn normalized(self) -> (r: Self)
        ensures
            normalized_from(self, r),
    {
        let RestApiConfig {
            port,
            host,
            default_timeout,
            cors,
            concurrency_request_limit,
            middleware,
        } = self;
        let middleware = sort_by_priority(middleware);
        let concurrency_request_limit = if concurrency_request_limit == 0 {
            1
        } else {
            concurrency_request_limit
        };
        RestApiConfig { port, host, default_timeout, cors, concurrency_request_limit, middleware }
    }
}

/// Two middleware lists that are both sorted by priority and agree on the
/// order within every priority are the same list.
pub proof fn lemma_sorted_groups_determine(a: Seq<MiddlewareConfig>, b: Seq<MiddlewareConfig>)
    requires
        sorted_by_priority(a),
        sorted_by_priority(b),
        forall|p: i64| #[trigger] with_priority(a, p) == with_priority(b, p),
    ensures
        a == b,
    decreases a.len() + b.len(),
{
    if a.len() == 0 && b.len() == 0 {
        assert(a =~= b);
    } else if a.len() == 0 {
        let p = b.last().priority;
        assert(with_priority(b, p).len() > 0);
        assert forall|i: int| 0 <= i < a.len() implies (#[trigger] a[i]).priority != p by {}
        lemma_with_priority_none(a, p);
    } else if b.len() == 0 {
        let p = a.last().priority;
        assert(with_priority(a, p).len() > 0);
        lemma_with_priority_none(b, p);
    } else {
        let pa = a.last().priority;
        let pb = b.last().priority;
        if pa < pb {
            assert(with_priority(b, pb).len() > 0);
            assert forall|i: int| 0 <= i < a.len() implies (#[trigger] a[i]).priority != pb by {
                assert(a[i].priority <= a[a.len() - 1].priority);
            }
            lemma_with_priority_none(a, pb);
        } else if pb < pa {
            assert(with_priority(a, pa).len() > 0);
            assert forall|i: int| 0 <= i < b.len() implies (#[trigger] b[i]).priority != pa by {
                assert(b[i].priority <= b[b.len() - 1].priority);
            }
            lemma_with_priority_none(b, pa);
        } else {
            assert(with_priority(a, pa).last() == a.last());
            assert(with_priority(b, pa).last() == b.last());
            assert(a.last() == b.last());
            let a2 = a.drop_last();
            let b2 = b.drop_last();
            assert forall|p: i64| #[trigger] with_priority(a2, p) == with_priority(b2, p) by {
                if p == pa {
                    assert(with_priority(a, p).drop_last() =~= with_priority(a2, p));
                    assert(with_priority(b, p).drop_last() =~= with_priority(b2, p));
                } else {
                    assert(with_priority(a, p) == with_priority(a2, p));
                    assert(with_priority(b, p) == with_priority(b2, p));
                }
            }
            assert(sorted_by_priority(a2)) by {
                assert forall|i: int, j: int| 0 <= i <= j < a2.len() implies (#[trigger] a2[i]).priority
                    <= (#[trigger] a2[j]).priority by {
                    assert(a2[i] == a[i] && a2[j] == a[j]);
                }
            }
            assert(sorted_by_priority(b2)) by {
                assert forall|i: int, j: int| 0 <= i <= j < b2.len() implies (#[trigger] b2[i]).priority
                    <= (#[trigger] b2[j]).priority by {
                    assert(b2[i] == b[i] && b2[j] == b[j]);
                }
            }
            lemma_sorted_groups_determine(a2, b2);
            assert(a =~= a2.push(a.last()));
            assert(b =~= b2.push(b.last()));
        }
    }
}

/// Normalizing an already normalized configuration changes nothing.
pub proof fn law_normalized_idempotent(c: RestApiConfig, once: RestApiConfig, twice: RestApiConfig)
    requires
        normalized_from(c, once),
        normalized_from(once, twice),
    ensures
        twice.port == once.port,
        twice.host == once.host,
        twice.default_timeout == once.default_timeout,
        twice.cors == once.cors,
        twice.concurrency_request_limit == once.concurrency_request_limit,
        twice.middleware@ == once.middleware@,
{
    lemma_sorted_groups_determine(twice.middleware@, once.middleware@);
}

/// Normalizing never leaves a request limit of 0, and keeps any other.
pub proof fn law_normalized_limit_positive(c: RestApiConfig, n: RestApiConfig)
    requires
        normalized_from(c, n),
    ensures
        n.concurrency_request_limit >= 1,
        c.concurrency_request_limit >= 1 ==> n.concurrency_request_limit
            == c.concurrency_request_limit,
{
}

} // verus!
