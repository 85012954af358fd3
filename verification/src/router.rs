//! The capability router: keeps a registry of backend instances and picks,
//! for a task, a loaded instance covering the task's required capabilities,
//! preferring the most generally capable one.

use vstd::prelude::*;
use vstd::string::StrSliceExecFns as _;

use crate::errors::HybridLLMError;
use crate::messages::TaskDescription;
use crate::permissions::lemma_append_entry;
use crate::permissions::lemma_lookup_characterization;
use crate::permissions::lemma_remove_entry;
use crate::permissions::lemma_update_entry;
use crate::permissions::map_lookup;
use crate::permissions::unique_keys;
use crate::text::str_eq;
use crate::types::Capability;
use crate::types::LLMInstance;

verus! {

/// The capability list covers every needed capability.
pub open spec fn covers(have: Seq<Capability>, need: Seq<Capability>) -> bool {
    forall|c: Capability| need.contains(c) ==> have.contains(c)
}

/// An instance can take the task: it is loaded and covers the required
/// capabilities.
pub open spec fn eligible(inst: LLMInstance, need: Seq<Capability>) -> bool {
    inst.is_loaded && covers(inst.capabilities@, need)
}

/// Whether a capability list holds `c`.
pub fn has_capability(have: &Vec<Capability>, c: Capability) -> (r: bool)
    ensures
        r == have@.contains(c),
{
    let n = have.len();
    let mut i: usize = 0;
    while i < n
        invariant
            n == have@.len(),
            i <= n,
            forall|j: int| 0 <= j < i ==> have@[j] != c,
        decreases n - i,
    {
        if have[i] == c {
            return true;
        }
        i += 1;
    }
    false
}

/// Whether `have` covers every capability in `need`.
pub fn covers_all(have: &Vec<Capability>, need: &Vec<Capability>) -> (r: bool)
    ensures
        r == covers(have@, need@),
{
    let n = need.len();
    let mut i: usize = 0;
    while i < n
        invariant
            n == need@.len(),
            i <= n,
            forall|j: int| 0 <= j < i ==> have@.contains(#[trigger] need@[j]),
        decreases n - i,
    {
        if !has_capability(have, need[i]) {
            return false;
        }
        i += 1;
    }
    proof {
        assert forall|c: Capability| need@.contains(c) implies have@.contains(c) by {
            let j = choose|j: int| 0 <= j < need@.len() && need@[j] == c;
            assert(have@.contains(need@[j]));
        }
    }
    true
}

/// The id names the backend `route_task` must pick: an eligible instance
/// whose capability count no eligible instance exceeds, and that no earlier
/// eligible instance matches (earliest-registered wins ties).
pub open spec fn routed_choice(
    reg: Seq<(String, LLMInstance)>,
    need: Seq<Capability>,
    id: Seq<char>,
) -> bool {
    exists|i: int|
        {
            &&& 0 <= i < reg.len()
            &&& eligible((#[trigger] reg[i]).1, need)
            &&& id == reg[i].1.id@
            &&& forall|j: int|
                0 <= j < reg.len() && eligible((#[trigger] reg[j]).1, need)
                    ==> reg[j].1.capabilities@.len() <= reg[i].1.capabilities@.len()
            &&& forall|j: int|
                0 <= j < i && eligible((#[trigger] reg[j]).1, need)
                    ==> reg[j].1.capabilities@.len() < reg[i].1.capabilities@.len()
        }
}

/// Routes tasks to registered backends by capability-subset matching; the
/// registry is an id-keyed association list kept consistent with the pool
/// through registration events.
pub struct Router {
    pub llm_registry: Vec<(String, LLMInstance)>,
}

impl Router {
    /// Keys are unique and each key is its instance's id.
    pub open spec fn wf(self) -> bool {
        &&& unique_keys(self.llm_registry@)
        &&& forall|i: int|
            0 <= i < self.llm_registry@.len() ==> (#[trigger] self.llm_registry@[i]).0@
                == self.llm_registry@[i].1.id@
    }

    /// The instance registered under an id, if any.
    pub open spec fn instance_of(self, id: Seq<char>) -> Option<LLMInstance> {
        map_lookup(self.llm_registry@, id)
    }

    /// An empty registry.
    pub fn new() -> (r: Self)
        ensures
            r.wf(),
            r.llm_registry@.len() == 0,
    {
        Router { llm_registry: Vec::new() }
    }

    /// Registers an instance, overwriting any instance with the same id.
    pub fn register_llm(&mut self, instance: LLMInstance)
        requires
            old(self).wf(),
        ensures
            final(self).wf(),
            final(self).instance_of(instance.id@) == Some(instance),
            forall|o: Seq<char>|
                o != instance.id@ ==> final(self).instance_of(o) == old(self).instance_of(o),
    {
        let ghost m0 = self.llm_registry@;
        let key = instance.id.clone();
        let n = self.llm_registry.len();
        let mut i: usize = 0;
        let mut idx: usize = n;
        while i < n
            invariant
                old(self).wf(),
                self == old(self),
                m0 == self.llm_registry@,
                n == m0.len(),
                i <= n,
                idx <= n,
                key@ == instance.id@,
                idx == n ==> forall|j: int| 0 <= j < i ==> (#[trigger] m0[j]).0@ != instance.id@,
                idx < n ==> m0[idx as int].0@ == instance.id@,
            decreases n - i,
        {
            if str_eq(self.llm_registry[i].0.as_str(), key.as_str()) {
                idx = i;
                i = n;
            } else {
                i += 1;
            }
        }
        if idx < n {
            let _old_entry = self.llm_registry.remove(idx);
            self.llm_registry.push((key, instance));
            proof {
                let m1 = self.llm_registry@;
                assert(m1[m0.len() - 1].0@ == m1[m0.len() - 1].1.id@);
                lemma_update_entry(m0, m1, idx as int, m1[m0.len() - 1].1.id@);
            }
        } else {
            self.llm_registry.push((key, instance));
            proof {
                let m1 = self.llm_registry@;
                assert(m1[m0.len() as int].0@ == m1[m0.len() as int].1.id@);
                lemma_append_entry(m0, m1, m1[m0.len() as int].1.id@);
            }
        }
    }

    /// Removes the instance registered under an id, if any.
    pub fn unregister_llm(&mut self, llm_id: &str)
        requires
            old(self).wf(),
        ensures
            final(self).wf(),
            final(self).instance_of(llm_id@) is None,
            forall|o: Seq<char>|
                o != llm_id@ ==> final(self).instance_of(o) == old(self).instance_of(o),
    {
        let ghost m0 = self.llm_registry@;
        let n = self.llm_registry.len();
        let mut i: usize = 0;
        while i < n
            invariant
                old(self).wf(),
                self == old(self),
                m0 == self.llm_registry@,
                n == m0.len(),
                i <= n,
                forall|j: int| 0 <= j < i ==> (#[trigger] m0[j]).0@ != llm_id@,
            decreases n - i,
        {
            if str_eq(self.llm_registry[i].0.as_str(), llm_id) {
                let _removed = self.llm_registry.remove(i);
                proof {
                    lemma_remove_entry(m0, self.llm_registry@, i as int, llm_id@);
                }
                return ;
            }
            i += 1;
        }
        proof {
            lemma_lookup_characterization(m0, llm_id@);
        }
    }

    /// Picks a backend for the task: among the loaded instances whose
    /// capabilities cover the task's requirements, the one with the most
    /// capabilities, earliest-registered on ties; fails with `LLMNotFound`
    /// when no instance qualifies.
    pub fn route_task(&self, task: &TaskDescription) -> (r: Result<String, HybridLLMError>)
        requires
            self.wf(),
        ensures
            (r is Ok) == (exists|i: int|
                0 <= i < self.llm_registry@.len() && eligible(
                    (#[trigger] self.llm_registry@[i]).1,
                    task.required_capabilities@,
                )),
            r matches Ok(id) ==> routed_choice(
                self.llm_registry@,
                task.required_capabilities@,
                id@,
            ),
            r matches Err(e) ==> e is LLMNotFound,
    {
        let n = self.llm_registry.len();
        let mut best: usize = n;
        let mut i: usize = 0;
        while i < n
            invariant
                self.wf(),
                n == self.llm_registry@.len(),
                i <= n,
                best <= n,
                best == n ==> forall|j: int|
                    0 <= j < i ==> !eligible(
                        (#[trigger] self.llm_registry@[j]).1,
                        task.required_capabilities@,
                    ),
                best < n ==> {
                    &&& best < i
                    &&& eligible(self.llm_registry@[best as int].1, task.required_capabilities@)
                    &&& forall|j: int|
                        0 <= j < i && eligible(
                            (#[trigger] self.llm_registry@[j]).1,
                            task.required_capabilities@,
                        ) ==> self.llm_registry@[j].1.capabilities@.len()
                            <= self.llm_registry@[best as int].1.capabilities@.len()
                    &&& forall|j: int|
                        0 <= j < best && eligible(
                            (#[trigger] self.llm_registry@[j]).1,
                            task.required_capabilities@,
                        ) ==> self.llm_registry@[j].1.capabilities@.len()
                            < self.llm_registry@[best as int].1.capabilities@.len()
                },
            decreases n - i,
        {
            let inst = &self.llm_registry[i].1;
            let is_eligible = inst.is_loaded && covers_all(
                &inst.capabilities,
                &task.required_capabilities,
            );
            if is_eligible {
                if best == n {
                    best = i;
                } else {
                    let best_len = self.llm_registry[best].1.capabilities.len();
                    if self.llm_registry[i].1.capabilities.len() > best_len {
                        best = i;
                    }
                }
            }
            i += 1;
        }
        if best < n {
            Ok(self.llm_registry[best].1.id.clone())
        } else {
            Err(
                HybridLLMError::LLMNotFound(
                    "No LLM available for the required capabilities".to_owned(),
                ),
            )
        }
    }

    /// References to all registered instances, in registration order.
    pub fn get_all_llms(&self) -> (r: Vec<&LLMInstance>)
        ensures
            r@.len() == self.llm_registry@.len(),
            forall|i: int| 0 <= i < r@.len() ==> *(#[trigger] r@[i]) == self.llm_registry@[i].1,
    {
        let n = self.llm_registry.len();
        let mut r: Vec<&LLMInstance> = Vec::new();
        let mut i: usize = 0;
        while i < n
            invariant
                n == self.llm_registry@.len(),
                i <= n,
                r@.len() == i,
                forall|j: int| 0 <= j < i ==> *(#[trigger] r@[j]) == self.llm_registry@[j].1,
            decreases n - i,
        {
            r.push(&self.llm_registry[i].1);
            i += 1;
        }
        r
    }

    /// The instance registered under an id, by reference.
    pub fn get_llm(&self, llm_id: &str) -> (r: Option<&LLMInstance>)
        requires
            self.wf(),
        ensures
            r matches Some(inst) ==> self.instance_of(llm_id@) == Some(*inst),
            r is None ==> self.instance_of(llm_id@) is None,
    {
        let n = self.llm_registry.len();
        let mut i: usize = 0;
        while i < n
            invariant
                self.wf(),
                n == self.llm_registry@.len(),
                i <= n,
                forall|j: int| 0 <= j < i ==> (#[trigger] self.llm_registry@[j]).0@ != llm_id@,
            decreases n - i,
        {
            if str_eq(self.llm_registry[i].0.as_str(), llm_id) {
                proof {
                    lemma_lookup_characterization(self.llm_registry@, llm_id@);
                }
                return Some(&self.llm_registry[i].1);
            }
            i += 1;
        }
        proof {
            lemma_lookup_characterization(self.llm_registry@, llm_id@);
        }
        None
    }

    /// References to the instances declaring a capability, in registration
    /// order.
    pub fn find_by_capability(&self, capability: &Capability) -> (r: Vec<&LLMInstance>)
        ensures
            with_capability(self.registry_instances(), *capability) == views_of(r@),
    {
        let n = self.llm_registry.len();
        let mut r: Vec<&LLMInstance> = Vec::new();
        let mut i: usize = 0;
        while i < n
            invariant
                n == self.llm_registry@.len(),
                i <= n,
                with_capability_upto(self.registry_instances(), *capability, i as int) == views_of(
                    r@,
                ),
            decreases n - i,
        {
            let ghost insts = self.registry_instances();
            if has_capability(&self.llm_registry[i].1.capabilities, *capability) {
                r.push(&self.llm_registry[i].1);
                proof {
                    assert(views_of(r@) =~= with_capability_upto(insts, *capability, i + 1));
                }
            } else {
                proof {
                    assert(views_of(r@) =~= with_capability_upto(insts, *capability, i + 1));
                }
            }
            i += 1;
        }
        r
    }

    /// The registered instances, in registration order.
    pub open spec fn registry_instances(self) -> Seq<LLMInstance> {
        Seq::new(self.llm_registry@.len(), |i: int| self.llm_registry@[i].1)
    }
}

/// The instances behind a list of references.
pub open spec fn views_of(r: Seq<&LLMInstance>) -> Seq<LLMInstance> {
    Seq::new(r.len(), |i: int| *r[i])
}

/// The instances among the first `n` declaring the capability, in order.
pub open spec fn with_capability_upto(s: Seq<LLMInstance>, c: Capability, n: int) -> Seq<
    LLMInstance,
>
    decreases n,
{
    if n <= 0 {
        Seq::empty()
    } else {
        with_capability_upto(s, c, n - 1) + if s[n - 1].capabilities@.contains(c) {
            seq![s[n - 1]]
        } else {
            Seq::empty()
        }
    }
}

/// The instances declaring the capability, in order.
pub open spec fn with_capability(s: Seq<LLMInstance>, c: Capability) -> Seq<LLMInstance> {
    with_capability_upto(s, c, s.len() as int)
}

impl Default for Router {
    fn default() -> (r: Self)
        ensures
            r.wf(),
            r.llm_registry@.len() == 0,
    {
        Router::new()
    }
}

} // verus!
