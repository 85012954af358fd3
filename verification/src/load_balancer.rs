//! Stateless-except-for-a-counter selection strategies over a caller-supplied
//! list of backend ids.

use vstd::prelude::*;
use vstd::string::StringExecFns as _;

verus! {

/// The counter after one selection: it advances by one and wraps at the
/// machine limit, as a relaxed atomic increment would.
pub open spec fn next_counter(c: usize) -> usize {
    if c == usize::MAX {
        0
    } else {
        (c + 1) as usize
    }
}

/// The counter after `k` selections from `start`.
pub open spec fn counter_iter(start: usize, k: nat) -> usize
    decreases k,
{
    if k == 0 {
        start
    } else {
        next_counter(counter_iter(start, (k - 1) as nat))
    }
}

/// The caller's predicate was observed to return `b` for the id at
/// position `i` of the list.
pub open spec fn observed<F: Fn(&str) -> bool>(f: F, ids: Seq<String>, i: int, b: bool) -> bool {
    exists|t: &str| t@ == ids[i]@ && #[trigger] f.ensures((t,), b)
}

/// What a prefer-local selection returns, as witnessed by the predicate's
/// observed results: `locals` and `clouds` partition the list's positions in
/// order, every local position was observed local and every cloud position
/// observed cloud, and the pick round-robins within the local group when it
/// is non-empty, else within the cloud group.
pub open spec fn prefer_local_choice<F: Fn(&str) -> bool>(
    f: F,
    ids: Seq<String>,
    locals: Seq<usize>,
    clouds: Seq<usize>,
    counter: usize,
    picked: Seq<char>,
) -> bool {
    &&& forall|a: int, b: int| 0 <= a < b < locals.len() ==> locals[a] < locals[b]
    &&& forall|a: int, b: int| 0 <= a < b < clouds.len() ==> clouds[a] < clouds[b]
    &&& forall|a: int| 0 <= a < locals.len() ==> (#[trigger] locals[a]) < ids.len()
    &&& forall|a: int| 0 <= a < clouds.len() ==> (#[trigger] clouds[a]) < ids.len()
    &&& locals.len() + clouds.len() == ids.len()
    &&& forall|x: usize|
        x < ids.len() ==> #[trigger] locals.contains(x) || #[trigger] clouds.contains(x)
    &&& forall|a: int| 0 <= a < locals.len() ==> observed(f, ids, locals[a] as int, true)
    &&& forall|a: int| 0 <= a < clouds.len() ==> observed(f, ids, clouds[a] as int, false)
    &&& if locals.len() > 0 {
        picked == ids[locals[counter as int % locals.len() as int] as int]@
    } else {
        &&& clouds.len() > 0
        &&& picked == ids[clouds[counter as int % clouds.len() as int] as int]@
    }
}

/// A prefer-local selection returned `picked`: some observed partition of
/// the list justifies it.
pub open spec fn prefer_local_post<F: Fn(&str) -> bool>(
    f: F,
    ids: Seq<String>,
    counter: usize,
    picked: Seq<char>,
) -> bool {
    exists|locals: Seq<usize>, clouds: Seq<usize>|
        #[trigger] prefer_local_choice(f, ids, locals, clouds, counter, picked)
}

/// Distributes requests across backends.
pub struct LoadBalancer {
    pub counter: usize,
}

impl LoadBalancer {
    /// A balancer with a fresh counter.
    pub fn new() -> (b: Self)
        ensures
            b.counter == 0,
    {
        LoadBalancer { counter: 0 }
    }

    /// Picks the id at the counter's position, cyclically, and advances the
    /// counter; an empty list yields nothing and leaves the counter alone.
    pub fn select_round_robin<'a>(&mut self, llm_ids: &'a Vec<String>) -> (r: Option<&'a String>)
        ensures
            llm_ids@.len() == 0 ==> r is None && *final(self) == *old(self),
            llm_ids@.len() > 0 ==> {
                &&& r matches Some(s) && s@ == llm_ids@[
                    old(self).counter as int % llm_ids@.len() as int
                ]@
                &&& final(self).counter == next_counter(old(self).counter)
            },
    {
        if llm_ids.len() == 0 {
            return None;
        }
        let count = self.counter;
        self.counter = if count == usize::MAX {
            0
        } else {
            count + 1
        };
        let index = count % llm_ids.len();
        Some(&llm_ids[index])
    }

    /// A placeholder for load-aware selection; currently round-robin.
    pub fn select_least_loaded<'a>(&mut self, llm_ids: &'a Vec<String>) -> (r: Option<&'a String>)
        ensures
            llm_ids@.len() == 0 ==> r is None && *final(self) == *old(self),
            llm_ids@.len() > 0 ==> {
                &&& r matches Some(s) && s@ == llm_ids@[
                    old(self).counter as int % llm_ids@.len() as int
                ]@
                &&& final(self).counter == next_counter(old(self).counter)
            },
    {
        self.select_round_robin(llm_ids)
    }

    /// Partitions the list with the caller's predicate and round-robins
    /// within the local group when it is non-empty, else within the cloud
    /// group; an empty list yields nothing. The returned id comes from the
    /// observed-local partition whenever that partition is non-empty.
    #[verifier::spinoff_prover]
    pub fn select_prefer_local<'a, F: Fn(&str) -> bool>(
        &mut self,
        llm_ids: &'a Vec<String>,
        is_local: F,
    ) -> (r: Option<&'a String>)
        requires
            forall|s: &str| is_local.requires((s,)),
        ensures
            (llm_ids@.len() == 0) == (r is None),
            r matches Some(s) ==> prefer_local_post(is_local, llm_ids@, old(self).counter, s@),
            r is Some ==> final(self).counter == next_counter(old(self).counter),
            r is None ==> *final(self) == *old(self),
    {
        let n = llm_ids.len();
        let mut local_idx: Vec<usize> = Vec::new();
        let mut cloud_idx: Vec<usize> = Vec::new();
        let mut i: usize = 0;
        while i < n
            invariant
                n == llm_ids@.len(),
                i <= n,
                local_idx@.len() + cloud_idx@.len() == i,
                forall|a: int, b: int|
                    0 <= a < b < local_idx@.len() ==> local_idx@[a] < local_idx@[b],
                forall|a: int, b: int|
                    0 <= a < b < cloud_idx@.len() ==> cloud_idx@[a] < cloud_idx@[b],
                forall|a: int| 0 <= a < local_idx@.len() ==> (#[trigger] local_idx@[a]) < i,
                forall|a: int| 0 <= a < cloud_idx@.len() ==> (#[trigger] cloud_idx@[a]) < i,
                forall|x: usize|
                    x < i ==> #[trigger] local_idx@.contains(x) || #[trigger] cloud_idx@.contains(
                        x,
                    ),
                forall|a: int|
                    0 <= a < local_idx@.len() ==> observed(
                        is_local,
                        llm_ids@,
                        local_idx@[a] as int,
                        true,
                    ),
                forall|a: int|
                    0 <= a < cloud_idx@.len() ==> observed(
                        is_local,
                        llm_ids@,
                        cloud_idx@[a] as int,
                        false,
                    ),
                forall|s: &str| is_local.requires((s,)),
            decreases n - i,
        {
            let id_ref = llm_ids[i].as_str();
            let here_local = is_local(id_ref);
            proof {
                assert(id_ref@ == llm_ids@[i as int]@);
                assert(is_local.ensures((id_ref,), here_local));
                assert(observed(is_local, llm_ids@, i as int, here_local));
            }
            let ghost l0 = local_idx@;
            let ghost c0 = cloud_idx@;
            if here_local {
                local_idx.push(i);
            } else {
                cloud_idx.push(i);
            }
            proof {
                assert forall|x: usize|
                    x < i + 1 implies #[trigger] local_idx@.contains(x)
                    || #[trigger] cloud_idx@.contains(x) by {
                    if x < i {
                        assert(l0.contains(x) || c0.contains(x));
                        if l0.contains(x) {
                            let a = choose|a: int| 0 <= a < l0.len() && l0[a] == x;
                            assert(local_idx@[a] == x);
                        } else {
                            assert(c0.contains(x));
                            let a = choose|a: int| 0 <= a < c0.len() && c0[a] == x;
                            assert(cloud_idx@[a] == x);
                        }
                    } else {
                        if here_local {
                            assert(local_idx@[l0.len() as int] == i);
                        } else {
                            assert(cloud_idx@[c0.len() as int] == i);
                        }
                    }
                }
            }
            i += 1;
        }
        let ghost locals = local_idx@;
        let ghost clouds = cloud_idx@;
        if local_idx.len() > 0 {
            let count = self.counter;
            self.counter = if count == usize::MAX {
                0
            } else {
                count + 1
            };
            let k = count % local_idx.len();
            let j = local_idx[k];
            let picked = &llm_ids[j];
            proof {
                assert(picked@ == llm_ids@[j as int]@);
                assert(count == old(self).counter);
                assert(prefer_local_choice(
                    is_local,
                    llm_ids@,
                    locals,
                    clouds,
                    old(self).counter,
                    picked@,
                ));
                assert(prefer_local_post(is_local, llm_ids@, old(self).counter, picked@));
            }
            Some(picked)
        } else if cloud_idx.len() > 0 {
            let count = self.counter;
            self.counter = if count == usize::MAX {
                0
            } else {
                count + 1
            };
            let k = count % cloud_idx.len();
            let j = cloud_idx[k];
            let picked = &llm_ids[j];
            proof {
                assert(picked@ == llm_ids@[j as int]@);
                assert(count == old(self).counter);
                assert(prefer_local_choice(
                    is_local,
                    llm_ids@,
                    locals,
                    clouds,
                    old(self).counter,
                    picked@,
                ));
                assert(prefer_local_post(is_local, llm_ids@, old(self).counter, picked@));
            }
            Some(picked)
        } else {
            None
        }
    }
}

impl Default for LoadBalancer {
    fn default() -> (b: Self)
        ensures
            b.counter == 0,
    {
        LoadBalancer::new()
    }
}

/// Round-robin over a non-empty list cycles through it: starting from a
/// fresh balancer, the counter before the `k`-th selection is `k` itself,
/// so that selection returns the id at position `k` modulo the list length.
pub proof fn lemma_round_robin_cycle(k: nat)
    requires
        k <= usize::MAX,
    ensures
        counter_iter(0, k) == k,
    decreases k,
{
    if k > 0 {
        lemma_round_robin_cycle((k - 1) as nat);
    }
}

} // verus!
