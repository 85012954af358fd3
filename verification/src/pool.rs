//! The backend pool: registered instances keyed by id, with a capability
//! index for lookups, and load/unload transitions that flip the stored
//! instance's loaded flag in place.

use vstd::prelude::*;
use vstd::string::StrSliceExecFns as _;

use crate::errors::HybridLLMError;
use crate::permissions::lemma_append_entry;
use crate::permissions::lemma_lookup_characterization;
use crate::permissions::lemma_remove_entry;
use crate::permissions::map_lookup;
use crate::permissions::unique_keys;
use crate::text::str_eq;
use crate::types::Capability;
use crate::types::LLMInstance;
use crate::types::push_string;

verus! {

/// First-match lookup in a capability-keyed association list.
pub open spec fn cap_lookup(m: Seq<(Capability, Vec<String>)>, c: Capability) -> Option<
    Vec<String>,
>
    decreases m.len(),
{
    if m.len() == 0 {
        None
    } else if m[0].0 == c {
        Some(m[0].1)
    } else {
        cap_lookup(m.drop_first(), c)
    }
}

/// No two index entries share a capability.
pub open spec fn unique_caps(m: Seq<(Capability, Vec<String>)>) -> bool {
    forall|i: int, j: int| 0 <= i < j < m.len() ==> (#[trigger] m[i]).0 != (#[trigger] m[j]).0
}

/// The ids indexed under a capability; empty when the capability has no
/// entry.
pub open spec fn bucket_of(m: Seq<(Capability, Vec<String>)>, c: Capability) -> Seq<Seq<char>> {
    match cap_lookup(m, c) {
        Some(v) => v.deep_view(),
        None => Seq::empty(),
    }
}

/// A found capability determines the lookup result; a missing one gives
/// `None`.
pub proof fn lemma_cap_lookup_characterization(m: Seq<(Capability, Vec<String>)>, c: Capability)
    requires
        unique_caps(m),
    ensures
        (forall|i: int| 0 <= i < m.len() ==> (#[trigger] m[i]).0 != c) ==> cap_lookup(m, c)
            is None,
        forall|i: int|
            0 <= i < m.len() && (#[trigger] m[i]).0 == c ==> cap_lookup(m, c) == Some(m[i].1),
    decreases m.len(),
{
    if m.len() > 0 {
        let rest = m.drop_first();
        assert(forall|i: int| 0 <= i < rest.len() ==> rest[i] == m[i + 1]);
        assert(unique_caps(rest));
        lemma_cap_lookup_characterization(rest, c);
        if m[0].0 == c {
            assert forall|i: int|
                0 <= i < m.len() && (#[trigger] m[i]).0 == c implies cap_lookup(m, c) == Some(
                m[i].1,
            ) by {
                if i != 0 {
                    assert(m[0].0 != m[i].0);
                }
            }
        } else {
            assert forall|i: int|
                0 <= i < m.len() && (#[trigger] m[i]).0 == c implies cap_lookup(m, c) == Some(
                m[i].1,
            ) by {
                assert(rest[i - 1] == m[i]);
            }
            if forall|i: int| 0 <= i < m.len() ==> (#[trigger] m[i]).0 != c {
                assert(forall|i: int| 0 <= i < rest.len() ==> (#[trigger] rest[i]).0 != c);
            }
        }
    }
}

/// Replacing the value at one index, key kept, preserves key uniqueness,
/// rebinds that key, and leaves every other key's bucket unchanged.
proof fn lemma_cap_set_value(
    m0: Seq<(Capability, Vec<String>)>,
    m1: Seq<(Capability, Vec<String>)>,
    at: int,
    c: Capability,
)
    requires
        unique_caps(m0),
        0 <= at < m0.len(),
        m0[at].0 == c,
        m1.len() == m0.len(),
        forall|j: int| 0 <= j < m0.len() && j != at ==> m1[j] == m0[j],
        m1[at].0 == c,
    ensures
        unique_caps(m1),
        cap_lookup(m1, c) == Some(m1[at].1),
        forall|d: Capability| d != c ==> cap_lookup(m1, d) == cap_lookup(m0, d),
{
    assert forall|i: int, j: int|
        0 <= i < j < m1.len() implies (#[trigger] m1[i]).0 != (#[trigger] m1[j]).0 by {
        assert(m1[i].0 == m0[i].0);
        assert(m1[j].0 == m0[j].0);
    }
    lemma_cap_lookup_characterization(m1, c);
    assert forall|d: Capability| d != c implies cap_lookup(m1, d) == cap_lookup(m0, d) by {
        lemma_cap_lookup_characterization(m1, d);
        lemma_cap_lookup_characterization(m0, d);
        if exists|j: int| 0 <= j < m0.len() && (#[trigger] m0[j]).0 == d {
            let j = choose|j: int| 0 <= j < m0.len() && (#[trigger] m0[j]).0 == d;
            assert(j != at);
            assert(m1[j] == m0[j]);
        } else {
            assert forall|j: int| 0 <= j < m1.len() implies (#[trigger] m1[j]).0 != d by {
                assert(m1[j].0 == m0[j].0);
            }
        }
    }
}

/// Appending an entry for a fresh capability preserves key uniqueness,
/// binds the new capability, and leaves every other bucket unchanged.
proof fn lemma_cap_append(
    m0: Seq<(Capability, Vec<String>)>,
    m1: Seq<(Capability, Vec<String>)>,
    c: Capability,
)
    requires
        unique_caps(m0),
        forall|j: int| 0 <= j < m0.len() ==> (#[trigger] m0[j]).0 != c,
        m1.len() == m0.len() + 1,
        forall|j: int| 0 <= j < m0.len() ==> m1[j] == m0[j],
        m1[m0.len() as int].0 == c,
    ensures
        unique_caps(m1),
        cap_lookup(m1, c) == Some(m1[m0.len() as int].1),
        forall|d: Capability| d != c ==> cap_lookup(m1, d) == cap_lookup(m0, d),
{
    assert forall|i: int, j: int|
        0 <= i < j < m1.len() implies (#[trigger] m1[i]).0 != (#[trigger] m1[j]).0 by {
        if j < m1.len() - 1 {
            assert(m1[i] == m0[i] && m1[j] == m0[j]);
        } else {
            assert(m1[i] == m0[i]);
        }
    }
    lemma_cap_lookup_characterization(m1, c);
    assert forall|d: Capability| d != c implies cap_lookup(m1, d) == cap_lookup(m0, d) by {
        lemma_cap_lookup_characterization(m1, d);
        lemma_cap_lookup_characterization(m0, d);
        if exists|j: int| 0 <= j < m0.len() && (#[trigger] m0[j]).0 == d {
            let j = choose|j: int| 0 <= j < m0.len() && (#[trigger] m0[j]).0 == d;
            assert(m1[j] == m0[j]);
        } else {
            assert forall|j: int| 0 <= j < m1.len() implies (#[trigger] m1[j]).0 != d by {
                if j < m0.len() {
                    assert(m1[j] == m0[j]);
                }
            }
        }
    }
}

/// One indexing step: the id is appended to the capability's bucket (the
/// bucket is created when absent), every other bucket is unchanged, and
/// capability keys stay unique.
pub open spec fn index_step(
    pre: Seq<(Capability, Vec<String>)>,
    post: Seq<(Capability, Vec<String>)>,
    c: Capability,
    id: Seq<char>,
) -> bool {
    &&& unique_caps(pre) ==> unique_caps(post)
    &&& bucket_of(post, c) == bucket_of(pre, c).push(id)
    &&& forall|d: Capability| d != c ==> bucket_of(post, d) == bucket_of(pre, d)
}

/// How often a capability occurs in a list.
pub open spec fn count_cap(caps: Seq<Capability>, c: Capability) -> nat
    decreases caps.len(),
{
    if caps.len() == 0 {
        0
    } else {
        count_cap(caps.drop_last(), c) + if caps.last() == c {
            1nat
        } else {
            0nat
        }
    }
}

/// The index after indexing an id under each capability of a list in turn:
/// every bucket gains one copy of the id per occurrence of its capability
/// in the list, and nothing else changes.
pub open spec fn index_extended(
    pre: Seq<(Capability, Vec<String>)>,
    post: Seq<(Capability, Vec<String>)>,
    caps: Seq<Capability>,
    id: Seq<char>,
) -> bool {
    forall|c: Capability|
        #[trigger] bucket_of(post, c) == bucket_of(pre, c) + Seq::new(
            count_cap(caps, c),
            |x: int| id,
        )
}

/// The id list without every occurrence of one id, order kept.
pub open spec fn without_id_upto(ids: Seq<Seq<char>>, id: Seq<char>, n: int) -> Seq<Seq<char>>
    decreases n,
{
    if n <= 0 {
        Seq::empty()
    } else {
        without_id_upto(ids, id, n - 1) + if ids[n - 1] == id {
            Seq::empty()
        } else {
            seq![ids[n - 1]]
        }
    }
}

/// The id list without every occurrence of one id.
pub open spec fn without_id(ids: Seq<Seq<char>>, id: Seq<char>) -> Seq<Seq<char>> {
    without_id_upto(ids, id, ids.len() as int)
}

/// The instances that the first `n` ids of a bucket resolve to in the
/// provider map, in bucket order; unresolvable ids contribute nothing.
pub open spec fn resolved_upto(
    m: Seq<(String, LLMInstance)>,
    ids: Seq<Seq<char>>,
    n: int,
) -> Seq<LLMInstance>
    decreases n,
{
    if n <= 0 {
        Seq::empty()
    } else {
        resolved_upto(m, ids, n - 1) + match map_lookup(m, ids[n - 1]) {
            Some(inst) => seq![inst],
            None => Seq::empty(),
        }
    }
}

/// The instances a bucket's ids resolve to, in bucket order.
pub open spec fn resolved_instances(
    m: Seq<(String, LLMInstance)>,
    ids: Seq<Seq<char>>,
) -> Seq<LLMInstance> {
    resolved_upto(m, ids, ids.len() as int)
}

/// Rewrites an id list with every occurrence of `id` removed.
fn remove_id_from(v: &mut Vec<String>, id: &str)
    ensures
        final(v).deep_view() == without_id(old(v).deep_view(), id@),
{
    let ghost dv = v.deep_view();
    let n = v.len();
    let mut kept: Vec<String> = Vec::new();
    proof {
        assert(kept.deep_view() =~= without_id_upto(dv, id@, 0));
    }
    let mut i: usize = 0;
    while i < n
        invariant
            n == v@.len(),
            dv == v.deep_view(),
            i <= n,
            kept.deep_view() == without_id_upto(dv, id@, i as int),
        decreases n - i,
    {
        proof {
            assert(dv[i as int] == v@[i as int]@);
        }
        if !str_eq(v[i].as_str(), id) {
            let s = v[i].clone();
            push_string(&mut kept, s);
            proof {
                assert(kept.deep_view() =~= without_id_upto(dv, id@, i + 1));
            }
        } else {
            proof {
                assert(kept.deep_view() =~= without_id_upto(dv, id@, i + 1));
            }
        }
        i += 1;
    }
    *v = kept;
}

/// Counts of registered and loaded providers.
#[derive(Debug, Clone, Copy, PartialEq, Eq, Structural)]
pub struct PoolStats {
    pub total_providers: usize,
    pub loaded_providers: usize,
    pub unloaded_providers: usize,
}

/// The number of loaded instances among the first `n`.
pub open spec fn loaded_count(m: Seq<(String, LLMInstance)>, n: int) -> int
    decreases n,
{
    if n <= 0 {
        0
    } else {
        loaded_count(m, n - 1) + if m[n - 1].1.is_loaded {
            1int
        } else {
            0int
        }
    }
}

/// The pool of backend instances, keyed by id, with a capability index.
pub struct LLMPool {
    pub providers: Vec<(String, LLMInstance)>,
    pub capability_index: Vec<(Capability, Vec<String>)>,
}

impl LLMPool {
    /// Provider keys are unique ids matching their instances; capability
    /// keys are unique.
    pub open spec fn wf(self) -> bool {
        &&& unique_keys(self.providers@)
        &&& forall|i: int|
            0 <= i < self.providers@.len() ==> (#[trigger] self.providers@[i]).0@
                == self.providers@[i].1.id@
        &&& unique_caps(self.capability_index@)
    }

    /// The instance registered under an id, if any.
    pub open spec fn provider_of(self, id: Seq<char>) -> Option<LLMInstance> {
        map_lookup(self.providers@, id)
    }

    /// The ids indexed under a capability.
    pub open spec fn ids_for(self, c: Capability) -> Seq<Seq<char>> {
        bucket_of(self.capability_index@, c)
    }

    /// An empty pool.
    pub fn new() -> (p: Self)
        ensures
            p.wf(),
            p.providers@.len() == 0,
            p.capability_index@.len() == 0,
    {
        LLMPool { providers: Vec::new(), capability_index: Vec::new() }
    }

    /// Appends an id to one capability's bucket, creating the bucket when
    /// absent.
    fn index_one(&mut self, c: Capability, id: &str)
        requires
            old(self).wf(),
        ensures
            final(self).wf(),
            final(self).providers == old(self).providers,
            index_step(old(self).capability_index@, final(self).capability_index@, c, id@),
    {
        let ghost m0 = self.capability_index@;
        let n = self.capability_index.len();
        let mut i: usize = 0;
        while i < n
            invariant
                old(self).wf(),
                self == old(self),
                m0 == self.capability_index@,
                n == m0.len(),
                i <= n,
                forall|j: int| 0 <= j < i ==> (#[trigger] m0[j]).0 != c,
            decreases n - i,
        {
            if self.capability_index[i].0 == c {
                proof {
                    lemma_cap_lookup_characterization(m0, c);
                }
                push_string(&mut self.capability_index[i].1, id.to_owned());
                proof {
                    let m1 = self.capability_index@;
                    assert(m1[i as int].0 == c);
                    assert(forall|j: int| 0 <= j < n && j != i ==> m1[j] == m0[j]);
                    lemma_cap_set_value(m0, m1, i as int, c);
                    assert(m1[i as int].1.deep_view() == m0[i as int].1.deep_view().push(id@));
                }
                return ;
            }
            i += 1;
        }
        proof {
            lemma_cap_lookup_characterization(m0, c);
        }
        let mut fresh: Vec<String> = Vec::new();
        push_string(&mut fresh, id.to_owned());
        let ghost fresh_dv = fresh.deep_view();
        self.capability_index.push((c, fresh));
        proof {
            let m1 = self.capability_index@;
            assert(forall|j: int| 0 <= j < m0.len() ==> m1[j] == m0[j]);
            assert(m1[m0.len() as int].0 == c);
            lemma_cap_append(m0, m1, c);
            assert(fresh_dv =~= Seq::<Seq<char>>::empty().push(id@));
            assert(bucket_of(m0, c) =~= Seq::<Seq<char>>::empty());
        }
    }

    /// Registers a provider instance: binds its id (overwriting any previous
    /// binding) and indexes the id under each of its declared capabilities,
    /// in declaration order.
    pub fn register(&mut self, instance: LLMInstance) -> (r: Result<(), HybridLLMError>)
        requires
            old(self).wf(),
        ensures
            final(self).wf(),
            r is Ok,
            final(self).provider_of(instance.id@) == Some(instance),
            forall|o: Seq<char>|
                o != instance.id@ ==> final(self).provider_of(o) == old(self).provider_of(o),
            index_extended(
                old(self).capability_index@,
                final(self).capability_index@,
                instance.capabilities@,
                instance.id@,
            ),
    {
        let ghost m0 = self.providers@;
        let ghost idx0 = self.capability_index@;
        let key = instance.id.clone();
        let ghost id_view = instance.id@;

        // Bind the id in the provider map, overwriting any previous binding.
        let n = self.providers.len();
        let mut i: usize = 0;
        let mut idx: usize = n;
        while i < n
            invariant
                old(self).wf(),
                self == old(self),
                m0 == self.providers@,
                n == m0.len(),
                i <= n,
                idx <= n,
                key@ == id_view,
                idx == n ==> forall|j: int| 0 <= j < i ==> (#[trigger] m0[j]).0@ != id_view,
                idx < n ==> m0[idx as int].0@ == id_view,
            decreases n - i,
        {
            if str_eq(self.providers[i].0.as_str(), key.as_str()) {
                idx = i;
                i = n;
            } else {
                i += 1;
            }
        }
        let ghost cap_list = instance.capabilities@;
        if idx < n {
            let _old_entry = self.providers.remove(idx);
            self.providers.push((key, instance));
            proof {
                let m1 = self.providers@;
                assert(m1[m0.len() - 1].0@ == m1[m0.len() - 1].1.id@);
                crate::permissions::lemma_update_entry(m0, m1, idx as int, m1[m0.len() - 1].1.id@);
            }
        } else {
            self.providers.push((key, instance));
            proof {
                let m1 = self.providers@;
                assert(m1[m0.len() as int].0@ == m1[m0.len() as int].1.id@);
                lemma_append_entry(m0, m1, m1[m0.len() as int].1.id@);
            }
        }

        // Index the id under each declared capability.
        let ghost bound = *self;
        let ghost inst = self.providers@[self.providers@.len() - 1].1;
        let total = self.providers.len();
        let last = total - 1;
        let mut k: usize = 0;
        let cap_count = self.providers[last].1.capabilities.len();
        proof {
            assert(inst == self.providers@[last as int].1);
            assert(inst.capabilities@ == cap_list);
            assert forall|c: Capability| #[trigger] bucket_of(self.capability_index@, c)
                == bucket_of(idx0, c) + Seq::new(
                count_cap(cap_list.subrange(0, 0), c),
                |x: int| id_view,
            ) by {
                assert(count_cap(cap_list.subrange(0, 0), c) == 0);
                assert(bucket_of(idx0, c) + Seq::new(0, |x: int| id_view) =~= bucket_of(
                    idx0,
                    c,
                ));
            }
        }
        while k < cap_count
            invariant
                self.wf(),
                cap_count == cap_list.len(),
                k <= cap_count,
                total == self.providers@.len(),
                last == total - 1,
                self.providers == bound.providers,
                self.providers@[last as int].1.capabilities@ == cap_list,
                self.providers@[last as int].1.id@ == id_view,
                index_extended(
                    idx0,
                    self.capability_index@,
                    cap_list.subrange(0, k as int),
                    id_view,
                ),
            decreases cap_count - k,
        {
            let ghost before = self.capability_index@;
            let c = self.providers[last].1.capabilities[k];
            let id_copy = self.providers[last].0.clone();
            self.index_one(c, id_copy.as_str());
            proof {
                let sub = cap_list.subrange(0, k + 1);
                let prev = cap_list.subrange(0, k as int);
                let stepped = cap_list[k as int];
                assert(sub.drop_last() =~= prev);
                assert(sub.last() == stepped);
                assert(index_step(before, self.capability_index@, stepped, id_view));
                assert forall|c: Capability| #[trigger] bucket_of(self.capability_index@, c)
                    == bucket_of(idx0, c) + Seq::new(count_cap(sub, c), |x: int| id_view) by {
                    assert(count_cap(sub, c) == count_cap(prev, c) + if stepped == c {
                        1nat
                    } else {
                        0nat
                    });
                    assert(bucket_of(before, c) == bucket_of(idx0, c) + Seq::new(
                        count_cap(prev, c),
                        |x: int| id_view,
                    ));
                    if c == stepped {
                        assert(bucket_of(self.capability_index@, c) == bucket_of(
                            before,
                            c,
                        ).push(id_view));
                        assert((bucket_of(idx0, c) + Seq::new(
                            count_cap(prev, c),
                            |x: int| id_view,
                        )).push(id_view) =~= bucket_of(idx0, c) + Seq::new(
                            count_cap(sub, c),
                            |x: int| id_view,
                        ));
                    } else {
                        assert(bucket_of(self.capability_index@, c) == bucket_of(before, c));
                    }
                }
            }
            k += 1;
        }
        proof {
            assert(cap_list.subrange(0, cap_list.len() as int) =~= cap_list);
            assert forall|c: Capability| #[trigger] bucket_of(self.capability_index@, c)
                == bucket_of(idx0, c) + Seq::new(count_cap(cap_list, c), |x: int| id_view) by {
                assert(bucket_of(self.capability_index@, c) == bucket_of(idx0, c) + Seq::new(
                    count_cap(cap_list.subrange(0, cap_list.len() as int), c),
                    |x: int| id_view,
                ));
            }
            let mfinal = self.providers@;
            assert(map_lookup(mfinal, id_view) == Some(mfinal[last as int].1));
        }
        Ok(())
    }

    /// Unregisters a provider: unbinds its id and removes the id from every
    /// capability bucket; fails with `LLMNotFound` for an unknown id.
    pub fn unregister(&mut self, llm_id: &str) -> (r: Result<(), HybridLLMError>)
        requires
            old(self).wf(),
        ensures
            final(self).wf(),
            (r is Ok) == (old(self).provider_of(llm_id@) is Some),
            r matches Err(e) ==> e is LLMNotFound && *final(self) == *old(self),
            r is Ok ==> {
                &&& final(self).provider_of(llm_id@) is None
                &&& forall|o: Seq<char>|
                    o != llm_id@ ==> final(self).provider_of(o) == old(self).provider_of(o)
                &&& final(self).capability_index@.len() == old(self).capability_index@.len()
                &&& forall|ci: int|
                    0 <= ci < old(self).capability_index@.len()
                        ==> (#[trigger] final(self).capability_index@[ci]).0
                        == old(self).capability_index@[ci].0
                        && final(self).capability_index@[ci].1.deep_view() == without_id(
                        old(self).capability_index@[ci].1.deep_view(),
                        llm_id@,
                    )
            },
    {
        let ghost m0 = self.providers@;
        let n = self.providers.len();
        let mut i: usize = 0;
        let mut idx: usize = n;
        while i < n
            invariant
                old(self).wf(),
                self == old(self),
                m0 == self.providers@,
                n == m0.len(),
                i <= n,
                idx <= n,
                idx == n ==> forall|j: int| 0 <= j < i ==> (#[trigger] m0[j]).0@ != llm_id@,
                idx < n ==> m0[idx as int].0@ == llm_id@,
            decreases n - i,
        {
            if str_eq(self.providers[i].0.as_str(), llm_id) {
                idx = i;
                i = n;
            } else {
                i += 1;
            }
        }
        if idx == n {
            proof {
                lemma_lookup_characterization(m0, llm_id@);
            }
            return Err(HybridLLMError::LLMNotFound(llm_id.to_owned()));
        }
        proof {
            lemma_lookup_characterization(m0, llm_id@);
        }
        let _removed = self.providers.remove(idx);
        proof {
            lemma_remove_entry(m0, self.providers@, idx as int, llm_id@);
        }
        let ghost idx0 = self.capability_index@;
        let ghost mp = self.providers@;
        let buckets = self.capability_index.len();
        let mut ci: usize = 0;
        while ci < buckets
            invariant
                buckets == self.capability_index@.len(),
                buckets == idx0.len(),
                ci <= buckets,
                self.providers@ == mp,
                unique_keys(self.providers@),
                forall|p: int|
                    0 <= p < self.providers@.len() ==> (#[trigger] self.providers@[p]).0@
                        == self.providers@[p].1.id@,
                forall|j: int|
                    0 <= j < buckets ==> (#[trigger] self.capability_index@[j]).0 == idx0[j].0,
                forall|j: int|
                    ci <= j < buckets ==> (#[trigger] self.capability_index@[j]).1 == idx0[j].1,
                forall|j: int|
                    0 <= j < ci ==> (#[trigger] self.capability_index@[j]).1.deep_view()
                        == without_id(idx0[j].1.deep_view(), llm_id@),
                unique_caps(self.capability_index@),
            decreases buckets - ci,
        {
            remove_id_from(&mut self.capability_index[ci].1, llm_id);
            proof {
                assert forall|i2: int, j2: int|
                    0 <= i2 < j2 < self.capability_index@.len() implies (
                #[trigger] self.capability_index@[i2]).0 != (
                #[trigger] self.capability_index@[j2]).0 by {
                    assert(self.capability_index@[i2].0 == idx0[i2].0);
                    assert(self.capability_index@[j2].0 == idx0[j2].0);
                }
            }
            ci += 1;
        }
        Ok(())
    }

    /// The instance registered under an id, by reference.
    pub fn get(&self, llm_id: &str) -> (r: Option<&LLMInstance>)
        requires
            self.wf(),
        ensures
            r matches Some(inst) ==> self.provider_of(llm_id@) == Some(*inst),
            r is None ==> self.provider_of(llm_id@) is None,
    {
        let n = self.providers.len();
        let mut i: usize = 0;
        while i < n
            invariant
                self.wf(),
                n == self.providers@.len(),
                i <= n,
                forall|j: int| 0 <= j < i ==> (#[trigger] self.providers@[j]).0@ != llm_id@,
            decreases n - i,
        {
            if str_eq(self.providers[i].0.as_str(), llm_id) {
                proof {
                    lemma_lookup_characterization(self.providers@, llm_id@);
                }
                return Some(&self.providers[i].1);
            }
            i += 1;
        }
        proof {
            lemma_lookup_characterization(self.providers@, llm_id@);
        }
        None
    }

    /// The registered instances declaring a capability: exactly the ids in
    /// the capability's bucket that resolve to a registered provider, in
    /// bucket order.
    pub fn find_by_capability(&self, capability: &Capability) -> (r: Vec<&LLMInstance>)
        requires
            self.wf(),
        ensures
            crate::router::views_of(r@) == resolved_instances(
                self.providers@,
                self.ids_for(*capability),
            ),
    {
        let mut r: Vec<&LLMInstance> = Vec::new();
        let n = self.capability_index.len();
        let mut ci: usize = 0;
        let mut found: usize = n;
        while ci < n
            invariant
                self.wf(),
                n == self.capability_index@.len(),
                ci <= n,
                found <= n,
                found == n ==> forall|j: int|
                    0 <= j < ci ==> (#[trigger] self.capability_index@[j]).0 != *capability,
                found < n ==> self.capability_index@[found as int].0 == *capability,
            decreases n - ci,
        {
            if self.capability_index[ci].0 == *capability {
                found = ci;
                ci = n;
            } else {
                ci += 1;
            }
        }
        if found == n {
            proof {
                lemma_cap_lookup_characterization(self.capability_index@, *capability);
                assert(self.ids_for(*capability) =~= Seq::<Seq<char>>::empty());
                assert(crate::router::views_of(r@) =~= resolved_instances(
                    self.providers@,
                    self.ids_for(*capability),
                ));
            }
            return r;
        }
        proof {
            lemma_cap_lookup_characterization(self.capability_index@, *capability);
        }
        let ghost bucket = self.capability_index@[found as int].1.deep_view();
        let m = self.capability_index[found].1.len();
        proof {
            assert(crate::router::views_of(r@) =~= resolved_upto(self.providers@, bucket, 0));
        }
        let mut k: usize = 0;
        while k < m
            invariant
                self.wf(),
                found < self.capability_index@.len(),
                bucket == self.capability_index@[found as int].1.deep_view(),
                bucket == self.ids_for(*capability),
                m == self.capability_index@[found as int].1@.len(),
                k <= m,
                crate::router::views_of(r@) == resolved_upto(self.providers@, bucket, k as int),
            decreases m - k,
        {
            proof {
                assert(bucket[k as int] == self.capability_index@[found as int].1@[k as int]@);
            }
            let id = &self.capability_index[found].1[k];
            let resolved = self.get(id.as_str());
            let ghost before = crate::router::views_of(r@);
            match resolved {
                Some(inst) => {
                    r.push(inst);
                    proof {
                        assert(crate::router::views_of(r@) =~= before.push(*inst));
                        assert(crate::router::views_of(r@) =~= resolved_upto(
                            self.providers@,
                            bucket,
                            k + 1,
                        ));
                    }
                },
                None => {
                    proof {
                        assert(crate::router::views_of(r@) =~= resolved_upto(
                            self.providers@,
                            bucket,
                            k + 1,
                        ));
                    }
                },
            }
            k += 1;
        }
        proof {
            assert(resolved_upto(self.providers@, bucket, m as int) == resolved_instances(
                self.providers@,
                self.ids_for(*capability),
            ));
        }
        r
    }

    /// References to the loaded instances, in registration order.
    pub fn get_all_loaded(&self) -> (r: Vec<&LLMInstance>)
        ensures
            r@.len() == loaded_count(self.providers@, self.providers@.len() as int),
            forall|t: int| 0 <= t < r@.len() ==> (#[trigger] r@[t]).is_loaded,
            forall|t: int|
                0 <= t < r@.len() ==> exists|p: int|
                    0 <= p < self.providers@.len() && *(#[trigger] r@[t]) == self.providers@[p].1,
    {
        let n = self.providers.len();
        let mut r: Vec<&LLMInstance> = Vec::new();
        let mut i: usize = 0;
        while i < n
            invariant
                n == self.providers@.len(),
                i <= n,
                r@.len() == loaded_count(self.providers@, i as int),
                forall|t: int| 0 <= t < r@.len() ==> (#[trigger] r@[t]).is_loaded,
                forall|t: int|
                    0 <= t < r@.len() ==> exists|p: int|
                        0 <= p < self.providers@.len() && *(#[trigger] r@[t])
                            == self.providers@[p].1,
            decreases n - i,
        {
            if self.providers[i].1.is_loaded {
                r.push(&self.providers[i].1);
                proof {
                    assert(*r@[r@.len() - 1] == self.providers@[i as int].1);
                }
            }
            i += 1;
        }
        r
    }

    /// The registered ids, in registration order.
    pub fn get_all_ids(&self) -> (r: Vec<String>)
        ensures
            r@.len() == self.providers@.len(),
            forall|i: int| 0 <= i < r@.len() ==> (#[trigger] r@[i])@ == self.providers@[i].0@,
    {
        let n = self.providers.len();
        let mut r: Vec<String> = Vec::new();
        let mut i: usize = 0;
        while i < n
            invariant
                n == self.providers@.len(),
                i <= n,
                r@.len() == i,
                forall|j: int| 0 <= j < i ==> (#[trigger] r@[j])@ == self.providers@[j].0@,
            decreases n - i,
        {
            let id = self.providers[i].0.clone();
            r.push(id);
            i += 1;
        }
        r
    }

    /// Marks the instance loaded in place; fails with `LLMNotFound` for an
    /// unknown id.
    pub fn load(&mut self, llm_id: &str) -> (r: Result<(), HybridLLMError>)
        requires
            old(self).wf(),
        ensures
            final(self).wf(),
            (r is Ok) == (old(self).provider_of(llm_id@) is Some),
            r matches Err(e) ==> e is LLMNotFound && *final(self) == *old(self),
            r is Ok ==> {
                &&& final(self).capability_index == old(self).capability_index
                &&& (final(self).provider_of(llm_id@) matches Some(inst) && inst.is_loaded)
                &&& forall|o: Seq<char>|
                    o != llm_id@ ==> final(self).provider_of(o) == old(self).provider_of(o)
            },
    {
        self.set_loaded(llm_id, true)
    }

    /// Marks the instance unloaded in place; fails with `LLMNotFound` for an
    /// unknown id.
    pub fn unload(&mut self, llm_id: &str) -> (r: Result<(), HybridLLMError>)
        requires
            old(self).wf(),
        ensures
            final(self).wf(),
            (r is Ok) == (old(self).provider_of(llm_id@) is Some),
            r matches Err(e) ==> e is LLMNotFound && *final(self) == *old(self),
            r is Ok ==> {
                &&& final(self).capability_index == old(self).capability_index
                &&& (final(self).provider_of(llm_id@) matches Some(inst) && !inst.is_loaded)
                &&& forall|o: Seq<char>|
                    o != llm_id@ ==> final(self).provider_of(o) == old(self).provider_of(o)
            },
    {
        self.set_loaded(llm_id, false)
    }

    /// Rewrites one instance's loaded flag, keeping registration order.
    fn set_loaded(&mut self, llm_id: &str, loaded: bool) -> (r: Result<(), HybridLLMError>)
        requires
            old(self).wf(),
        ensures
            final(self).wf(),
            (r is Ok) == (old(self).provider_of(llm_id@) is Some),
            r matches Err(e) ==> e is LLMNotFound && *final(self) == *old(self),
            r is Ok ==> {
                &&& final(self).capability_index == old(self).capability_index
                &&& (final(self).provider_of(llm_id@) matches Some(inst) && inst.is_loaded
                    == loaded)
                &&& forall|o: Seq<char>|
                    o != llm_id@ ==> final(self).provider_of(o) == old(self).provider_of(o)
            },
    {
        let ghost m0 = self.providers@;
        let n = self.providers.len();
        let mut i: usize = 0;
        while i < n
            invariant
                old(self).wf(),
                self == old(self),
                m0 == self.providers@,
                n == m0.len(),
                i <= n,
                forall|j: int| 0 <= j < i ==> (#[trigger] m0[j]).0@ != llm_id@,
            decreases n - i,
        {
            if str_eq(self.providers[i].0.as_str(), llm_id) {
                proof {
                    lemma_lookup_characterization(m0, llm_id@);
                }
                let (key, mut inst) = self.providers.remove(i);
                inst.is_loaded = loaded;
                self.providers.insert(i, (key, inst));
                proof {
                    let m1 = self.providers@;
                    assert(forall|j: int| 0 <= j < n && j != i ==> m1[j] == m0[j]);
                    assert(m1[i as int].0@ == llm_id@);
                    assert(m1[i as int].1.is_loaded == loaded);
                    assert forall|i2: int, j2: int|
                        0 <= i2 < j2 < m1.len() implies (#[trigger] m1[i2]).0@ != (
                    #[trigger] m1[j2]).0@ by {
                        assert(m1[i2].0@ == m0[i2].0@);
                        assert(m1[j2].0@ == m0[j2].0@);
                    }
                    lemma_lookup_characterization(m1, llm_id@);
                    assert forall|o: Seq<char>| o != llm_id@ implies map_lookup(m1, o)
                        == map_lookup(m0, o) by {
                        lemma_lookup_characterization(m1, o);
                        lemma_lookup_characterization(m0, o);
                        if exists|j: int| 0 <= j < m0.len() && (#[trigger] m0[j]).0@ == o {
                            let j = choose|j: int| 0 <= j < m0.len() && (#[trigger] m0[j]).0@ == o;
                            assert(j != i);
                            assert(m1[j] == m0[j]);
                        } else {
                            assert forall|j: int|
                                0 <= j < m1.len() implies (#[trigger] m1[j]).0@ != o by {
                                assert(m1[j].0@ == m0[j].0@);
                            }
                        }
                    }
                }
                return Ok(());
            }
            i += 1;
        }
        proof {
            lemma_lookup_characterization(m0, llm_id@);
        }
        Err(HybridLLMError::LLMNotFound(llm_id.to_owned()))
    }

    /// Registration and load counts.
    pub fn stats(&self) -> (s: PoolStats)
        ensures
            s.total_providers == self.providers@.len(),
            s.loaded_providers == loaded_count(self.providers@, self.providers@.len() as int),
            s.unloaded_providers == s.total_providers - s.loaded_providers,
    {
        let n = self.providers.len();
        let mut loaded: usize = 0;
        let mut i: usize = 0;
        while i < n
            invariant
                n == self.providers@.len(),
                i <= n,
                loaded == loaded_count(self.providers@, i as int),
                loaded <= i,
            decreases n - i,
        {
            if self.providers[i].1.is_loaded {
                loaded += 1;
            }
            i += 1;
        }
        PoolStats {
            total_providers: n,
            loaded_providers: loaded,
            unloaded_providers: n - loaded,
        }
    }
}

impl Default for LLMPool {
    fn default() -> (p: Self)
        ensures
            p.wf(),
            p.providers@.len() == 0,
            p.capability_index@.len() == 0,
    {
        LLMPool::new()
    }
}

} // verus!
