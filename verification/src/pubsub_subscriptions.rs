//! The pub/sub worker's table of live subscriptions, keyed by trigger id:
//! which triggers are subscribed, to which topic and handler. Registering a
//! trigger subscribes it unless its topic is empty or the worker is gone;
//! the table is what an adapter swap moves to the new backend and what
//! destroying the worker unsubscribes.

use vstd::prelude::*;
use crate::text::str_eq;

verus! {

/// A trigger subscribed to a topic, delivering to `function_id`.
#[derive(Debug)]
pub struct Subscription {
    pub id: String,
    pub topic: String,
    pub function_id: String,
}

/// No trigger id occurs twice.
pub open spec fn ids_unique(s: Seq<Subscription>) -> bool {
    forall|i: int, j: int|
        0 <= i < s.len() && 0 <= j < s.len() && i != j ==> (#[trigger] s[i]).id@ != (
        #[trigger] s[j]).id@
}

/// The subscriptions as a map from trigger id to topic and handler; a later
/// entry for an id replaces an earlier one.
pub open spec fn subscription_map(s: Seq<Subscription>) -> Map<Seq<char>, (Seq<char>, Seq<char>)>
    decreases s.len(),
{
    if s.len() == 0 {
        Map::empty()
    } else {
        subscription_map(s.drop_last()).insert(
            s.last().id@,
            (s.last().topic@, s.last().function_id@),
        )
    }
}

/// An id is in the map exactly when an entry carries it.
pub proof fn lemma_subscription_map_dom(s: Seq<Subscription>, id: Seq<char>)
    ensures
        subscription_map(s).dom().contains(id) <==> exists|i: int|
            0 <= i < s.len() && (#[trigger] s[i]).id@ == id,
    decreases s.len(),
{
    if s.len() > 0 {
        let d = s.drop_last();
        lemma_subscription_map_dom(d, id);
        if exists|i: int| 0 <= i < d.len() && (#[trigger] d[i]).id@ == id {
            let i = choose|i: int| 0 <= i < d.len() && (#[trigger] d[i]).id@ == id;
            assert(s[i] == d[i]);
        }
        if exists|i: int| 0 <= i < s.len() && (#[trigger] s[i]).id@ == id {
            let i = choose|i: int| 0 <= i < s.len() && (#[trigger] s[i]).id@ == id;
            if i < d.len() {
                assert(d[i] == s[i]);
            }
        }
    }
}

/// In a table without repeated ids, each entry is what the map holds for
/// its id.
pub proof fn lemma_subscription_map_value(s: Seq<Subscription>, j: int)
    requires
        ids_unique(s),
        0 <= j < s.len(),
    ensures
        subscription_map(s).dom().contains(s[j].id@),
        subscription_map(s)[s[j].id@] == (s[j].topic@, s[j].function_id@),
    decreases s.len(),
{
    let d = s.drop_last();
    if j < s.len() - 1 {
        assert(ids_unique(d)) by {
            assert forall|a: int, b: int|
                0 <= a < d.len() && 0 <= b < d.len() && a != b implies (#[trigger] d[a]).id@
                != (#[trigger] d[b]).id@ by {
                assert(d[a] == s[a] && d[b] == s[b]);
            }
        }
        lemma_subscription_map_value(d, j);
        assert(d[j] == s[j]);
        assert(s.last().id@ != s[j].id@);
    }
}

/// Replacing the entry of an id in a table without repeated ids replaces
/// it in the map.
pub proof fn lemma_subscription_map_update(s: Seq<Subscription>, j: int, e: Subscription)
    requires
        ids_unique(s),
        0 <= j < s.len(),
        s[j].id@ == e.id@,
    ensures
        subscription_map(s.update(j, e)) == subscription_map(s).insert(
            e.id@,
            (e.topic@, e.function_id@),
        ),
    decreases s.len(),
{
    let u = s.update(j, e);
    let n = s.len() - 1;
    let d = s.drop_last();
    if j == n {
        assert(u.drop_last() =~= d);
        assert(subscription_map(u) =~= subscription_map(s).insert(e.id@, (e.topic@, e.function_id@)));
    } else {
        assert(ids_unique(d)) by {
            assert forall|a: int, b: int|
                0 <= a < d.len() && 0 <= b < d.len() && a != b implies (#[trigger] d[a]).id@
                != (#[trigger] d[b]).id@ by {
                assert(d[a] == s[a] && d[b] == s[b]);
            }
        }
        lemma_subscription_map_update(d, j, e);
        assert(u.drop_last() =~= d.update(j, e));
        assert(s[n].id@ != s[j].id@);
        assert(subscription_map(u) =~= subscription_map(s).insert(e.id@, (e.topic@, e.function_id@)));
    }
}

/// Removing the entry of an id from a table without repeated ids removes
/// it from the map.
pub proof fn lemma_subscription_map_remove(s: Seq<Subscription>, j: int)
    requires
        ids_unique(s),
        0 <= j < s.len(),
    ensures
        subscription_map(s.remove(j)) == subscription_map(s).remove(s[j].id@),
    decreases s.len(),
{
    let r = s.remove(j);
    let n = s.len() - 1;
    let d = s.drop_last();
    let k = s[j].id@;
    if j == n {
        assert(r =~= d);
        lemma_subscription_map_dom(d, k);
        assert forall|i: int| 0 <= i < d.len() implies (#[trigger] d[i]).id@ != k by {
            assert(d[i] == s[i]);
        }
        assert(!subscription_map(d).dom().contains(k));
        assert(subscription_map(r) =~= subscription_map(s).remove(k));
    } else {
        assert(ids_unique(d)) by {
            assert forall|a: int, b: int|
                0 <= a < d.len() && 0 <= b < d.len() && a != b implies (#[trigger] d[a]).id@
                != (#[trigger] d[b]).id@ by {
                assert(d[a] == s[a] && d[b] == s[b]);
            }
        }
        lemma_subscription_map_remove(d, j);
        assert(d[j] == s[j]);
        assert(r.drop_last() =~= d.remove(j));
        assert(r.last() == s.last());
        assert(s[n].id@ != k);
        assert(subscription_map(r) =~= subscription_map(s).remove(k));
    }
}

/// The live subscriptions; no trigger id occurs twice.
#[derive(Debug)]
pub struct SubscriptionTable {
    entries: Vec<Subscription>,
}

impl SubscriptionTable {
    #[verifier::type_invariant]
    closed spec fn wf(self) -> bool {
        ids_unique(self.entries@)
    }

    /// The subscriptions, in the order they were first registered.
    pub closed spec fn subs(self) -> Seq<Subscription> {
        self.entries@
    }

    /// Trigger id to topic and handler.
    pub open spec fn view_map(self) -> Map<Seq<char>, (Seq<char>, Seq<char>)> {
        subscription_map(self.subs())
    }

    /// A table with no subscription.
    pub fn new() -> (t: Self)
        ensures
            t.view_map() == Map::<Seq<char>, (Seq<char>, Seq<char>)>::empty(),
            t.subs().len() == 0,
    {
        let t = SubscriptionTable { entries: Vec::new() };
        proof {
            assert(t.subs().len() == 0);
        }
        t
    }

    /// The subscriptions, each id once.
    pub fn entries(&self) -> (r: &Vec<Subscription>)
        ensures
            r@ == self.subs(),
            ids_unique(r@),
            subscription_map(r@) == self.view_map(),
    {
        proof {
            use_type_invariant(self);
        }
        &self.entries
    }

    /// Registers trigger `id`'s subscription to `topic` for `function_id`,
    /// replacing an earlier one of the same trigger. A trigger without a
    /// topic subscribes to nothing, and a destroyed worker takes no new
    /// subscription; then the table is unchanged and the answer is `false`
    /// (the backend is not asked to subscribe).
    pub fn register(
        &mut self,
        id: String,
        topic: String,
        function_id: String,
        destroyed: bool,
    ) -> (subscribed: bool)
        ensures
            subscribed == (topic@.len() > 0 && !destroyed),
            subscribed ==> final(self).view_map() == old(self).view_map().insert(
                id@,
                (topic@, function_id@),
            ),
            !subscribed ==> final(self).subs() == old(self).subs(),
    {
        if topic.as_str().is_empty() || destroyed {
            proof {
                assert(topic@.len() == 0 ==> topic@ =~= Seq::<char>::empty());
            }
            return false;
        }
        proof {
            use_type_invariant(&*self);
        }
        let mut entries: Vec<Subscription> = Vec::new();
        std::mem::swap(&mut entries, &mut self.entries);
        let ghost before = entries@;
        let mut j: usize = 0;
        let mut found = false;
        while j < entries.len()
            invariant_except_break
                entries@ == before,
                j <= entries@.len(),
                !found,
                forall|k: int| 0 <= k < j ==> (#[trigger] entries@[k]).id@ != id@,
            ensures
                entries@ == before,
                found ==> j < entries@.len() && entries@[j as int].id@ == id@,
                !found ==> forall|k: int| 0 <= k < entries@.len() ==> (#[trigger] entries@[k]).id@ != id@,
            decreases entries@.len() - j,
        {
            if str_eq(entries[j].id.as_str(), id.as_str()) {
                found = true;
                break;
            }
            j = j + 1;
        }
        let e = Subscription { id, topic, function_id };
        if found {
            entries.set(j, e);
            proof {
                lemma_subscription_map_update(before, j as int, entries@[j as int]);
                assert(entries@ =~= before.update(j as int, entries@[j as int]));
                assert forall|a: int, b: int|
                    0 <= a < entries@.len() && 0 <= b < entries@.len() && a != b implies (
                    #[trigger] entries@[a]).id@ != (#[trigger] entries@[b]).id@ by {
                    if a != j && b != j {
                        assert(entries@[a] == before[a] && entries@[b] == before[b]);
                    } else if a == j {
                        assert(entries@[b] == before[b]);
                    } else {
                        assert(entries@[a] == before[a]);
                    }
                }
            }
        } else {
            entries.push(e);
            proof {
                assert(entries@.drop_last() =~= before);
                assert forall|a: int, b: int|
                    0 <= a < entries@.len() && 0 <= b < entries@.len() && a != b implies (
                    #[trigger] entries@[a]).id@ != (#[trigger] entries@[b]).id@ by {
                    if a < before.len() && b < before.len() {
                        assert(entries@[a] == before[a] && entries@[b] == before[b]);
                    } else if a < before.len() {
                        assert(entries@[a] == before[a]);
                    } else {
                        assert(entries@[b] == before[b]);
                    }
                }
            }
        }
        self.entries = entries;
        true
    }

    /// Removes trigger `id`'s subscription, answering it when there was
    /// one.
    pub fn unregister(&mut self, id: &str) -> (removed: Option<Subscription>)
        ensures
            final(self).view_map() == old(self).view_map().remove(id@),
            removed is Some <==> old(self).view_map().dom().contains(id@),
            removed matches Some(s) ==> s.id@ == id@ && old(self).view_map()[id@] == (
                s.topic@,
                s.function_id@,
            ),
    {
        proof {
            use_type_invariant(&*self);
            lemma_subscription_map_dom(self.entries@, id@);
        }
        let mut entries: Vec<Subscription> = Vec::new();
        std::mem::swap(&mut entries, &mut self.entries);
        let ghost before = entries@;
        let mut j: usize = 0;
        while j < entries.len()
            invariant
                entries@ == before,
                before == old(self).subs(),
                ids_unique(before),
                j <= entries@.len(),
                forall|k: int| 0 <= k < j ==> (#[trigger] entries@[k]).id@ != id@,
                subscription_map(before).dom().contains(id@) <==> exists|i: int|
                    0 <= i < before.len() && (#[trigger] before[i]).id@ == id@,
            decreases entries@.len() - j,
        {
            if str_eq(entries[j].id.as_str(), id) {
                proof {
                    lemma_subscription_map_remove(before, j as int);
                    lemma_subscription_map_value(before, j as int);
                }
                let s = entries.remove(j);
                proof {
                    assert forall|a: int, b: int|
                        0 <= a < entries@.len() && 0 <= b < entries@.len() && a != b implies (
                        #[trigger] entries@[a]).id@ != (#[trigger] entries@[b]).id@ by {
                        let a0 = if a < j { a } else { a + 1 };
                        let b0 = if b < j { b } else { b + 1 };
                        assert(entries@[a] == before[a0] && entries@[b] == before[b0]);
                    }
                }
                self.entries = entries;
                return Some(s);
            }
            j = j + 1;
        }
        proof {
            assert(!subscription_map(before).dom().contains(id@));
            assert(subscription_map(before).remove(id@) =~= subscription_map(before));
        }
        self.entries = entries;
        None
    }

    /// Takes every subscription out, leaving the table empty.
    pub fn drain(&mut self) -> (all: Vec<Subscription>)
        ensures
            subscription_map(all@) == old(self).view_map(),
            ids_unique(all@),
            final(self).view_map() == Map::<Seq<char>, (Seq<char>, Seq<char>)>::empty(),
    {
        proof {
            use_type_invariant(&*self);
        }
        let mut all: Vec<Subscription> = Vec::new();
        std::mem::swap(&mut all, &mut self.entries);
        proof {
            assert(self.subs().len() == 0);
        }
        all
    }
}

/// Registering a trigger's subscription and then unregistering the same
/// trigger leaves no subscription for it and the other triggers'
/// subscriptions as they were.
pub proof fn law_register_then_unregister(
    t0: SubscriptionTable,
    t1: SubscriptionTable,
    t2: SubscriptionTable,
    id: Seq<char>,
    sub: (Seq<char>, Seq<char>),
)
    requires
        t1.view_map() == t0.view_map().insert(id, sub),
        t2.view_map() == t1.view_map().remove(id),
    ensures
        t2.view_map() == t0.view_map().remove(id),
        !t2.view_map().dom().contains(id),
{
    assert(t0.view_map().insert(id, sub).remove(id) =~= t0.view_map().remove(id));
}

} // verus!
