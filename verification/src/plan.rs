//! The pipeline planner. A stage list is valid when every module name
//! is registered and every declared dependency of every module appears
//! in a strictly earlier stage — a module may not depend on a same-stage
//! sibling. `plan_stages` checks exactly that, before anything runs:
//! it succeeds if and only if the stage list is valid, reports an
//! unknown name as `UnknownModule`, and a dependency scheduled too late
//! as `DependencyOrder`.

use vstd::prelude::*;
use crate::config::stage_view;
use crate::errors::PlanError;
use crate::modules::get_module;
use crate::modules::known_module;
use crate::modules::module_deps;
use crate::text::str_eq;

verus! {

/// The names of all stages, stage by stage.
pub open spec fn stages_view(stages: Seq<Vec<String>>) -> Seq<Seq<Seq<char>>> {
    stages.map_values(|st: Vec<String>| stage_view(st))
}

/// The name is scheduled in some stage strictly before `stage`.
pub open spec fn appears_before(sv: Seq<Seq<Seq<char>>>, stage: int, name: Seq<char>) -> bool {
    exists|j: int, k: int| 0 <= j < stage && 0 <= k < sv[j].len() && #[trigger] sv[j][k] == name
}

/// The name is scheduled somewhere in the stage list.
pub open spec fn occurs(sv: Seq<Seq<Seq<char>>>, name: Seq<char>) -> bool {
    appears_before(sv, sv.len() as int, name)
}

/// Every scheduled name is registered.
pub open spec fn all_known(sv: Seq<Seq<Seq<char>>>) -> bool {
    forall|i: int, k: int|
        0 <= i < sv.len() && 0 <= k < sv[i].len() ==> known_module(#[trigger] sv[i][k])
}

/// Every dependency of every scheduled module appears in a strictly
/// earlier stage.
pub open spec fn deps_ordered(sv: Seq<Seq<Seq<char>>>) -> bool {
    forall|i: int, k: int, d: int|
        0 <= i < sv.len() && 0 <= k < sv[i].len() && 0 <= d < module_deps(sv[i][k]).len()
            ==> appears_before(sv, i, #[trigger] module_deps(sv[i][k])[d])
}

/// A valid plan: known names, dependencies in strictly earlier stages.
pub open spec fn plan_valid(sv: Seq<Seq<Seq<char>>>) -> bool {
    all_known(sv) && deps_ordered(sv)
}

/// The dependency at position `d` of the module at stage `i`, position
/// `k`, is the first one in scan order — stages outermost, then the
/// modules of a stage, then a module's dependencies — that is not
/// scheduled in a strictly earlier stage.
pub open spec fn first_dependency_violation(sv: Seq<Seq<Seq<char>>>, i: int, k: int, d: int) -> bool {
    &&& 0 <= i < sv.len()
    &&& 0 <= k < sv[i].len()
    &&& 0 <= d < module_deps(sv[i][k]).len()
    &&& !appears_before(sv, i, module_deps(sv[i][k])[d])
    &&& forall|a: int, b: int, e: int|
        0 <= a < sv.len() && 0 <= b < sv[a].len() && 0 <= e < module_deps(sv[a][b]).len() && (a < i
            || (a == i && b < k) || (a == i && b == k && e < d)) ==> appears_before(
            sv,
            a,
            #[trigger] module_deps(sv[a][b])[e],
        )
}

/// The validated, ordered stage list. Immutable once execution begins.
pub struct PipelinePlan {
    pub stages: Vec<Vec<String>>,
}

impl PipelinePlan {
    /// The names of all stages, stage by stage.
    pub open spec fn view(&self) -> Seq<Seq<Seq<char>>> {
        stages_view(self.stages@)
    }

    /// The plan passed validation.
    pub open spec fn wf(&self) -> bool {
        plan_valid(self@)
    }

    /// How many stages the plan has.
    pub fn num_stages(&self) -> (n: usize)
        ensures
            n == self@.len(),
    {
        self.stages.len()
    }

    /// The module names of one stage.
    pub fn stage_at(&self, i: usize) -> (r: &Vec<String>)
        requires
            i < self@.len(),
        ensures
            stage_view(*r) == self@[i as int],
    {
        &self.stages[i]
    }
}

/// Whether the list holds the name.
fn contains_name(v: &Vec<String>, name: &str) -> (r: bool)
    ensures
        r <==> exists|j: int| 0 <= j < v@.len() && (#[trigger] v@[j])@ == name@,
{
    let mut i: usize = 0;
    let n = v.len();
    while i < n
        invariant
            0 <= i <= n,
            n == v@.len(),
            forall|j: int| 0 <= j < i ==> (#[trigger] v@[j])@ != name@,
        decreases n - i,
    {
        if str_eq(v[i].as_str(), name) {
            return true;
        }
        i = i + 1;
    }
    false
}

/// Scheduling at one more stage means scheduling earlier or at exactly
/// that stage.
proof fn lemma_appears_before_unfold(sv: Seq<Seq<Seq<char>>>, i: int, name: Seq<char>)
    requires
        0 <= i < sv.len(),
    ensures
        appears_before(sv, i + 1, name) <==> (appears_before(sv, i, name) || exists|k: int|
            0 <= k < sv[i].len() && #[trigger] sv[i][k] == name),
{
    if appears_before(sv, i + 1, name) {
        let (j, k) = choose|j: int, k: int|
            0 <= j < i + 1 && 0 <= k < sv[j].len() && #[trigger] sv[j][k] == name;
        if j < i {
            assert(appears_before(sv, i, name));
        } else {
            assert(sv[i][k] == name);
        }
    }
}

/// Validates the configured stage list: planning succeeds if and only
/// if every name is registered and every dependency of every module is
/// scheduled in a strictly earlier stage. A stage list with an
/// unregistered name is rejected as `UnknownModule`, naming it; one
/// whose names are all registered but whose dependency order is broken
/// is rejected as `DependencyOrder`, naming the first unsatisfied
/// dependency in scan order. Planning reads the stage list alone and
/// mutates nothing; the executor can only be built from a plan it
/// returned, so a rejected configuration never runs a module.
pub fn plan_stages(stages: Vec<Vec<String>>) -> (r: Result<PipelinePlan, PlanError>)
    ensures
        r is Ok <==> plan_valid(stages_view(stages@)),
        r matches Ok(p) ==> p.stages@ == stages@ && p.wf(),
        (exists|name: Seq<char>| occurs(stages_view(stages@), name) && !known_module(name)) <==> (
        r matches Err(PlanError::UnknownModule { .. })),
        r matches Err(PlanError::UnknownModule { name }) ==> occurs(stages_view(stages@), name@)
            && !known_module(name@),
        r matches Err(PlanError::DependencyOrder { module, dependency }) ==> all_known(
            stages_view(stages@),
        ) && exists|i: int, k: int, d: int|
            {
                &&& #[trigger] first_dependency_violation(stages_view(stages@), i, k, d)
                &&& stages_view(stages@)[i][k] == module@
                &&& module_deps(module@)[d] == dependency@
                &&& module_deps(module@).contains(dependency@)
            },
{
    let ghost sv = stages_view(stages@);
    let n = stages.len();
    // First pass: every scheduled name must be registered.
    let mut i: usize = 0;
    while i < n
        invariant
            0 <= i <= n,
            n == sv.len(),
            sv == stages_view(stages@),
            forall|a: int, b: int|
                0 <= a < i && 0 <= b < sv[a].len() ==> known_module(#[trigger] sv[a][b]),
        decreases n - i,
    {
        let stage = &stages[i];
        let mut k: usize = 0;
        let m = stage.len();
        while k < m
            invariant
                0 <= k <= m,
                0 <= i < n,
                m == sv[i as int].len(),
                forall|b: int| 0 <= b < k ==> known_module(#[trigger] sv[i as int][b]),
            decreases m - k,
        {
            let name = &stage[k];
            proof {
                assert(sv[i as int][k as int] == name@);
            }
            match get_module(name.as_str()) {
                Ok(_) => {},
                Err(e) => {
                    proof {
                        assert(occurs(sv, name@));
                    }
                    return Err(e);
                },
            }
            k = k + 1;
        }
        i = i + 1;
    }
    proof {
        assert(all_known(sv));
        assert forall|name: Seq<char>| occurs(sv, name) implies known_module(name) by {
            let (j, k) = choose|j: int, k: int|
                0 <= j < sv.len() && 0 <= k < sv[j].len() && #[trigger] sv[j][k] == name;
            assert(known_module(sv[j][k]));
        }
    }
    // Second pass: every dependency must be scheduled strictly earlier.
    let mut ran: Vec<String> = Vec::new();
    let mut i: usize = 0;
    while i < n
        invariant
            0 <= i <= n,
            n == sv.len(),
            sv == stages_view(stages@),
            all_known(sv),
            forall|name: Seq<char>|
                (exists|j: int| 0 <= j < ran@.len() && (#[trigger] ran@[j])@ == name) <==>
                #[trigger] appears_before(sv, i as int, name),
            forall|a: int, b: int, d: int|
                0 <= a < i && 0 <= b < sv[a].len() && 0 <= d < module_deps(sv[a][b]).len()
                    ==> appears_before(sv, a, #[trigger] module_deps(sv[a][b])[d]),
        decreases n - i,
    {
        let stage = &stages[i];
        let m = stage.len();
        let mut k: usize = 0;
        while k < m
            invariant
                0 <= k <= m,
                0 <= i < n,
                m == sv[i as int].len(),
                forall|b: int, d: int|
                    0 <= b < k && 0 <= d < module_deps(sv[i as int][b]).len() ==> appears_before(
                        sv,
                        i as int,
                        #[trigger] module_deps(sv[i as int][b])[d],
                    ),
            decreases m - k,
        {
            let name = &stage[k];
            proof {
                assert(sv[i as int][k as int] == name@);
            }
            match get_module(name.as_str()) {
                Err(_) => {
                    // The first pass established that every scheduled
                    // name is registered, so the lookup cannot fail here.
                    proof {
                        assert(known_module(sv[i as int][k as int]));
                        assert(false);
                    }
                    return Err(PlanError::UnknownModule { name: name.clone() });
                },
                Ok(ms) => {
                    let ghost deps = module_deps(name@);
                    let dn = ms.deps.len();
                    let mut d: usize = 0;
                    while d < dn
                        invariant
                            0 <= d <= dn,
                            dn == deps.len(),
                            deps == module_deps(name@),
                            ms.deps@.map_values(|s: String| s@) == deps,
                            name@ == sv[i as int][k as int],
                            0 <= i < n,
                            0 <= k < sv[i as int].len(),
                            forall|e: int| 0 <= e < d ==> appears_before(sv, i as int, #[trigger] deps[e]),
                        decreases dn - d,
                    {
                        let dep = &ms.deps[d];
                        proof {
                            assert(deps[d as int] == dep@);
                        }
                        if !contains_name(&ran, dep.as_str()) {
                            proof {
                                assert(!appears_before(sv, i as int, dep@));
                                assert(deps.contains(dep@));
                                assert(!deps_ordered(sv));
                                assert forall|a: int, b: int, e: int|
                                    0 <= a < sv.len() && 0 <= b < sv[a].len() && 0 <= e
                                        < module_deps(sv[a][b]).len() && (a < i as int || (a
                                        == i as int && b < k as int) || (a == i as int && b
                                        == k as int && e < d as int)) implies appears_before(
                                    sv,
                                    a,
                                    #[trigger] module_deps(sv[a][b])[e],
                                ) by {
                                    if a == i as int && b == k as int {
                                        assert(appears_before(sv, i as int, deps[e]));
                                    }
                                }
                                assert(first_dependency_violation(
                                    sv,
                                    i as int,
                                    k as int,
                                    d as int,
                                ));
                            }
                            return Err(PlanError::DependencyOrder {
                                module: name.clone(),
                                dependency: dep.clone(),
                            });
                        }
                        d = d + 1;
                    }
                },
            }
            k = k + 1;
        }
        // The stage is fully validated: its modules become available for
        // the dependency checks of later stages.
        let ghost ran_before = ran@;
        let mut k: usize = 0;
        while k < m
            invariant
                0 <= k <= m,
                0 <= i < n,
                m == sv[i as int].len(),
                ran@.len() == ran_before.len() + k,
                forall|j: int| 0 <= j < ran_before.len() ==> ran@[j] == ran_before[j],
                forall|b: int|
                    0 <= b < k ==> (#[trigger] ran@[ran_before.len() + b])@ == sv[i as int][b],
                forall|name: Seq<char>|
                    (exists|j: int| 0 <= j < ran_before.len() && (#[trigger] ran_before[j])@ == name)
                        <==> #[trigger] appears_before(sv, i as int, name),
            decreases m - k,
        {
            ran.push(stage[k].clone());
            k = k + 1;
        }
        proof {
            assert forall|name: Seq<char>|
                (exists|j: int| 0 <= j < ran@.len() && (#[trigger] ran@[j])@ == name)
                    <==> #[trigger] appears_before(sv, i as int + 1, name) by {
                lemma_appears_before_unfold(sv, i as int, name);
                if exists|j: int| 0 <= j < ran@.len() && (#[trigger] ran@[j])@ == name {
                    let j = choose|j: int| 0 <= j < ran@.len() && (#[trigger] ran@[j])@ == name;
                    if j < ran_before.len() {
                        assert(ran_before[j]@ == name);
                        assert(appears_before(sv, i as int, name));
                    } else {
                        let b = j - ran_before.len();
                        assert(ran@[ran_before.len() + b]@ == sv[i as int][b]);
                        assert(sv[i as int][b] == name);
                    }
                } else {
                }
                if appears_before(sv, i as int + 1, name) {
                    if appears_before(sv, i as int, name) {
                        let j = choose|j: int|
                            0 <= j < ran_before.len() && (#[trigger] ran_before[j])@ == name;
                        assert(ran@[j]@ == name);
                    } else {
                        let b = choose|k: int| 0 <= k < sv[i as int].len() && #[trigger] sv[i as int][k] == name;
                        assert(ran@[ran_before.len() + b]@ == name);
                    }
                }
            }
        }
        i = i + 1;
    }
    Ok(PipelinePlan { stages })
}

/// Placing a module and one of its dependencies in the same stage, with
/// the dependency nowhere earlier, never validates: planning such a
/// stage list fails, and — all names being registered — fails with a
/// `DependencyOrder` error.
pub proof fn lemma_same_stage_dependency_rejected(
    sv: Seq<Seq<Seq<char>>>,
    i: int,
    kb: int,
    ka: int,
    d: int,
)
    requires
        0 <= i < sv.len(),
        0 <= kb < sv[i].len(),
        0 <= ka < sv[i].len(),
        0 <= d < module_deps(sv[i][kb]).len(),
        module_deps(sv[i][kb])[d] == sv[i][ka],
        !appears_before(sv, i, sv[i][ka]),
    ensures
        !plan_valid(sv),
{
    assert(!deps_ordered(sv));
}

} // verus!
