//! The stage executor. It walks a validated plan stage by stage:
//! callers fetch the current stage's module names, run those modules —
//! concurrently if they wish, each against the shared documents — and
//! report every module's outcome once all of them have finished. Only a
//! fully successful stage advances the executor; any failure moves it
//! to its failed state, names the first failing module, and no later
//! stage can be obtained. The record of completed modules is exactly
//! the concatenation of the earlier stages, which is what lets a module
//! assume that all of its dependencies have completed.

use vstd::prelude::*;
use crate::config::stage_view;
use crate::errors::ModuleError;
use crate::errors::RuntimeError;
use crate::modules::module_deps;
use crate::plan::PipelinePlan;
use crate::plan::appears_before;
use crate::config::clone_names;

verus! {

/// What one module's run reported, under the module's name.
pub struct ModuleOutcome {
    pub name: String,
    pub result: Result<(), ModuleError>,
}

/// The names of the modules scheduled strictly before stage `i`, in
/// stage order.
pub open spec fn flatten_upto(sv: Seq<Seq<Seq<char>>>, i: int) -> Seq<Seq<char>>
    decreases i,
{
    if i <= 0 {
        Seq::empty()
    } else {
        flatten_upto(sv, i - 1) + sv[i - 1]
    }
}

/// A name is scheduled before stage `i` exactly when the flattened
/// record of stages before `i` holds it.
pub proof fn lemma_flatten_upto_contains(sv: Seq<Seq<Seq<char>>>, i: int, name: Seq<char>)
    requires
        0 <= i <= sv.len(),
    ensures
        flatten_upto(sv, i).contains(name) <==> appears_before(sv, i, name),
    decreases i,
{
    if i > 0 {
        lemma_flatten_upto_contains(sv, i - 1, name);
        let whole = flatten_upto(sv, i);
        let front = flatten_upto(sv, i - 1);
        if whole.contains(name) {
            let x = choose|x: int| 0 <= x < whole.len() && whole[x] == name;
            if x < front.len() {
                assert(front[x] == name);
                assert(front.contains(name));
            } else {
                assert(sv[i - 1][x - front.len()] == name);
                assert(appears_before(sv, i, name));
            }
        }
        if appears_before(sv, i, name) {
            let (j, k) = choose|j: int, k: int|
                0 <= j < i && 0 <= k < sv[j].len() && #[trigger] sv[j][k] == name;
            if j < i - 1 {
                assert(appears_before(sv, i - 1, name));
                let x = choose|x: int| 0 <= x < front.len() && front[x] == name;
                assert(whole[x] == name);
            } else {
                assert(whole[front.len() + k] == name);
            }
        }
    }
}

/// The stage executor: Idle at stage zero, then executing stage after
/// stage, until every stage completed or one module failed.
pub struct Executor {
    pub plan: PipelinePlan,
    pub next_stage: usize,
    pub completed: Vec<String>,
    pub failure: Option<RuntimeError>,
}

impl Executor {
    /// The names of the modules that have completed, in stage order.
    pub open spec fn completed_names(&self) -> Seq<Seq<char>> {
        self.completed@.map_values(|s: String| s@)
    }

    /// The executor's well-formedness: the plan validated, the position
    /// is within it, and the record holds exactly the stages already
    /// completed.
    pub open spec fn wf(&self) -> bool {
        &&& self.plan.wf()
        &&& self.next_stage <= self.plan@.len()
        &&& self.completed_names() == flatten_upto(self.plan@, self.next_stage as int)
    }

    /// The run ended with every stage completed.
    pub open spec fn is_complete(&self) -> bool {
        self.failure is None && self.next_stage == self.plan@.len()
    }

    /// The run ended with a failing module.
    pub open spec fn has_failed(&self) -> bool {
        self.failure is Some
    }

    /// A fresh executor at the first stage of a validated plan.
    pub fn new(plan: PipelinePlan) -> (e: Executor)
        requires
            plan.wf(),
        ensures
            e.wf(),
            e.plan == plan,
            e.next_stage == 0,
            e.completed_names() == Seq::<Seq<char>>::empty(),
            e.failure is None,
    {
        let e = Executor { plan, next_stage: 0, completed: Vec::new(), failure: None };
        proof {
            assert(e.completed_names() =~= Seq::<Seq<char>>::empty());
        }
        e
    }

    /// The module names to run now: the current stage, as long as no
    /// stage has failed and stages remain. After a failure, or after
    /// the last stage, there is nothing left to run.
    pub fn current_stage(&self) -> (r: Option<Vec<String>>)
        ensures
            match r {
                Some(stage) => self.failure is None && self.next_stage < self.plan@.len()
                    && stage_view(stage) == self.plan@[self.next_stage as int],
                None => self.failure is Some || self.next_stage >= self.plan@.len(),
            },
    {
        if self.failure.is_some() {
            return None;
        }
        if self.next_stage >= self.plan.num_stages() {
            return None;
        }
        let stage = clone_names(self.plan.stage_at(self.next_stage));
        proof {
            assert(stage_view(stage) =~= self.plan@[self.next_stage as int]);
        }
        Some(stage)
    }

    /// Takes the outcomes of the current stage, one per module in stage
    /// order, after all of them have finished. If every module
    /// succeeded, the stage's modules join the completed record and the
    /// executor advances. If any failed, the executor moves to its
    /// failed state carrying the first failing module's name and error;
    /// the record and the position stay, and no later stage will run.
    pub fn report_stage(&mut self, outcomes: Vec<ModuleOutcome>)
        requires
            old(self).wf(),
            old(self).failure is None,
            old(self).next_stage < old(self).plan@.len(),
            outcomes@.len() == old(self).plan@[old(self).next_stage as int].len(),
            forall|k: int|
                0 <= k < outcomes@.len() ==> (#[trigger] outcomes@[k]).name@ == old(
                    self,
                ).plan@[old(self).next_stage as int][k],
        ensures
            final(self).wf(),
            final(self).plan == old(self).plan,
            (forall|k: int| 0 <= k < outcomes@.len() ==> (#[trigger] outcomes@[k]).result is Ok)
                ==> {
                &&& final(self).failure is None
                &&& final(self).next_stage == old(self).next_stage + 1
                &&& final(self).completed_names() == old(self).completed_names() + old(
                    self,
                ).plan@[old(self).next_stage as int]
            },
            (exists|k: int| 0 <= k < outcomes@.len() && (#[trigger] outcomes@[k]).result is Err)
                ==> {
                &&& final(self).next_stage == old(self).next_stage
                &&& final(self).completed_names() == old(self).completed_names()
                &&& final(self).failure matches Some(rt) && exists|f: int|
                    {
                        &&& 0 <= f < outcomes@.len()
                        &&& (#[trigger] outcomes@[f]).result matches Err(cause) && rt.cause
                            == cause && rt.module == outcomes@[f].name
                        &&& forall|e: int| 0 <= e < f ==> (#[trigger] outcomes@[e]).result is Ok
                    }
            },
    {
        let n = outcomes.len();
        let mut f: usize = 0;
        while f < n
            invariant
                0 <= f <= n,
                n == outcomes@.len(),
                forall|e: int| 0 <= e < f ==> (#[trigger] outcomes@[e]).result is Ok,
            decreases n - f,
        {
            if outcomes[f].result.is_err() {
                break ;
            }
            f = f + 1;
        }
        if f == n {
            // Every module of the stage succeeded: record them, advance.
            let total = self.plan.num_stages();
            assert(self.next_stage < total);
            let mut names = clone_names(self.plan.stage_at(self.next_stage));
            self.completed.append(&mut names);
            self.next_stage = self.next_stage + 1;
            proof {
                assert(final(self).completed_names() =~= old(self).completed_names() + old(
                    self,
                ).plan@[old(self).next_stage as int]);
                assert(flatten_upto(final(self).plan@, final(self).next_stage as int) == flatten_upto(
                    old(self).plan@,
                    old(self).next_stage as int,
                ) + old(self).plan@[old(self).next_stage as int]);
            }
        } else {
            let mut outcomes = outcomes;
            let oc = outcomes.remove(f);
            match oc.result {
                Err(cause) => {
                    self.failure = Some(RuntimeError { module: oc.name, cause });
                },
                Ok(_) => {
                    proof {
                        assert(false);
                    }
                },
            }
        }
    }
}

/// Dependencies run before their dependents: when the executor offers a
/// stage, the completed record already holds every dependency of every
/// module of that stage. Later-stage modules may therefore assume the
/// postconditions of all the modules they depend on.
pub proof fn lemma_deps_completed(e: &Executor, k: int, d: int)
    requires
        e.wf(),
        e.failure is None,
        e.next_stage < e.plan@.len(),
        0 <= k < e.plan@[e.next_stage as int].len(),
        0 <= d < module_deps(e.plan@[e.next_stage as int][k]).len(),
    ensures
        e.completed_names().contains(module_deps(e.plan@[e.next_stage as int][k])[d]),
{
    let sv = e.plan@;
    let i = e.next_stage as int;
    let name = sv[i][k];
    let dep = module_deps(name)[d];
    assert(appears_before(sv, i, dep));
    lemma_flatten_upto_contains(sv, i, dep);
}

} // verus!
