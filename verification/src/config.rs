//! The run-wide configuration: the stage plan (`stage1`, `stage2`, … in
//! the order configured) and per-module settings, plus the global context
//! that bundles the configuration with the command-line options.
//! `collect_stages` reads the ordered stage list: numbering is 1-based
//! and contiguous, and collection stops at the first missing number.

use vstd::prelude::*;
use vstd::set_lib::set_int_range;
use vstd::set_lib::lemma_int_range;
use vstd::set_lib::lemma_len_subset;
use crate::cmdline::Args;
use crate::text::spec_decimal;
use crate::text::u64_to_string;
use crate::text::str_eq;
use crate::text::lemma_decimal_injective;
use crate::values::Document;
use vstd::string::StringExecFns;

verus! {

/// One `stageN` entry of the configuration: the stage's key and the
/// module names scheduled at that position.
pub struct StageEntry {
    pub name: String,
    pub modules: Vec<String>,
}

/// The settings document of one module, keyed by the module's name.
pub struct ModuleConfig {
    pub name: String,
    pub settings: Document,
}

/// The parsed configuration: stage entries and per-module settings.
pub struct Config {
    pub stages: Vec<StageEntry>,
    pub module: Vec<ModuleConfig>,
}

/// The shared global context: command-line options and configuration.
/// Modules read their settings from it and rarely write it.
pub struct GlobalContext {
    pub args: Args,
    pub config: Config,
}

impl Config {
    /// Every settings document is well formed.
    pub open spec fn wf(&self) -> bool {
        forall|i: int| 0 <= i < self.module@.len() ==> (#[trigger] self.module@[i]).settings.wf()
    }
}

impl GlobalContext {
    pub open spec fn wf(&self) -> bool {
        self.config.wf()
    }
}

/// The names of one stage's modules.
pub open spec fn stage_view(stage: Vec<String>) -> Seq<Seq<char>> {
    stage@.map_values(|s: String| s@)
}

/// The key under which stage `n` is configured: `stage1`, `stage2`, …
pub open spec fn stage_key(n: nat) -> Seq<char> {
    "stage"@ + spec_decimal(n)
}

/// Distinct stage numbers have distinct keys.
pub proof fn lemma_stage_key_injective(m: nat, n: nat)
    requires
        stage_key(m) == stage_key(n),
    ensures
        m == n,
{
    assert(("stage"@ + spec_decimal(m)).skip("stage"@.len() as int) =~= spec_decimal(m));
    assert(("stage"@ + spec_decimal(n)).skip("stage"@.len() as int) =~= spec_decimal(n));
    lemma_decimal_injective(m, n);
}

/// The first stage entry under the given key, if any: its module names.
pub open spec fn find_stage(stages: Seq<StageEntry>, key: Seq<char>) -> Option<Seq<Seq<char>>>
    decreases stages.len(),
{
    if stages.len() == 0 {
        None
    } else if stages[0].name@ == key {
        Some(stage_view(stages[0].modules))
    } else {
        find_stage(stages.drop_first(), key)
    }
}

/// Looking past a prefix of non-matching entries does not change what is
/// found.
proof fn lemma_find_stage_skip(stages: Seq<StageEntry>, key: Seq<char>, i: int)
    requires
        0 <= i <= stages.len(),
        forall|j: int| 0 <= j < i ==> (#[trigger] stages[j]).name@ != key,
    ensures
        find_stage(stages, key) == find_stage(stages.skip(i), key),
    decreases i,
{
    if i == 0 {
        assert(stages.skip(0) =~= stages);
    } else {
        lemma_find_stage_skip(stages, key, i - 1);
        let tail = stages.skip(i - 1);
        assert(tail[0] == stages[i - 1]);
        assert(tail[0].name@ != key);
        assert(tail.drop_first() =~= stages.skip(i));
    }
}

/// Finds the position of the first stage entry with the given key.
fn find_stage_index(stages: &Vec<StageEntry>, key: &str) -> (r: Option<usize>)
    ensures
        match r {
            Some(i) => {
                &&& i < stages@.len()
                &&& stages@[i as int].name@ == key@
                &&& forall|j: int| 0 <= j < i ==> (#[trigger] stages@[j]).name@ != key@
                &&& find_stage(stages@, key@) == Some(stage_view(stages@[i as int].modules))
            },
            None => find_stage(stages@, key@) is None,
        },
{
    let mut i: usize = 0;
    let n = stages.len();
    while i < n
        invariant
            0 <= i <= n,
            n == stages@.len(),
            forall|j: int| 0 <= j < i ==> (#[trigger] stages@[j]).name@ != key@,
        decreases n - i,
    {
        if str_eq(stages[i].name.as_str(), key) {
            proof {
                lemma_find_stage_skip(stages@, key@, i as int);
                assert(stages@.skip(i as int)[0] == stages@[i as int]);
            }
            return Some(i);
        }
        i = i + 1;
    }
    proof {
        lemma_find_stage_skip(stages@, key@, n as int);
        assert(stages@.skip(n as int) =~= Seq::<StageEntry>::empty());
    }
    None
}

/// An equal copy of a list of names.
pub(crate) fn clone_names(v: &Vec<String>) -> (r: Vec<String>)
    ensures
        r@ == v@,
{
    let mut copy: Vec<String> = Vec::new();
    let mut i: usize = 0;
    while i < v.len()
        invariant
            0 <= i <= v@.len(),
            copy@.len() == i,
            forall|j: int| 0 <= j < i ==> copy@[j] == v@[j],
        decreases v@.len() - i,
    {
        copy.push(v[i].clone());
        i = i + 1;
    }
    proof {
        assert(copy@ =~= v@);
    }
    copy
}

/// The exec form of `stage_key`.
fn stage_key_string(n: u64) -> (r: String)
    ensures
        r@ == stage_key(n as nat),
{
    "stage".to_owned().concat(u64_to_string(n).as_str())
}

/// Reads the ordered stage list from the configuration: `stage1`,
/// `stage2`, … in order, stopping at the first number that has no entry.
#[verifier::loop_isolation(true)]
pub fn collect_stages(config: &Config) -> (r: Vec<Vec<String>>)
    requires
        config.stages@.len() < usize::MAX,
    ensures
        forall|k: int|
            0 <= k < r@.len() ==> find_stage(config.stages@, stage_key((k + 1) as nat)) == Some(
                stage_view(#[trigger] r@[k]),
            ),
        find_stage(config.stages@, stage_key((r@.len() + 1) as nat)) is None,
{
    let table_len = config.stages.len();
    let mut result: Vec<Vec<String>> = Vec::new();
    let ghost mut used: Set<int> = Set::empty();
    let mut n: usize = 1;
    loop
        invariant
            1 <= n,
            n as int == result@.len() + 1,
            n <= table_len + 1,
            table_len == config.stages@.len(),
            table_len < usize::MAX,
            used.finite(),
            used.len() == n - 1,
            forall|x: int| #[trigger] used.contains(x) ==> 0 <= x < table_len,
            forall|x: int| #[trigger]
                used.contains(x) ==> exists|m: int|
                    1 <= m < n && config.stages@[x].name@ == #[trigger] stage_key(m as nat),
            forall|k: int|
                0 <= k < result@.len() ==> find_stage(config.stages@, stage_key((k + 1) as nat))
                    == Some(stage_view(#[trigger] result@[k])),
        ensures
            forall|k: int|
                0 <= k < result@.len() ==> find_stage(config.stages@, stage_key((k + 1) as nat))
                    == Some(stage_view(#[trigger] result@[k])),
            find_stage(config.stages@, stage_key((result@.len() + 1) as nat)) is None,
        decreases table_len + 1 - n,
    {
        let key = stage_key_string(n as u64);
        match find_stage_index(&config.stages, key.as_str()) {
            None => {
                break ;
            },
            Some(idx) => {
                proof {
                    if used.contains(idx as int) {
                        let m = choose|m: int|
                            1 <= m < n && config.stages@[idx as int].name@ == #[trigger] stage_key(
                                m as nat,
                            );
                        lemma_stage_key_injective(m as nat, n as nat);
                    }
                    used = used.insert(idx as int);
                    assert(used.len() == n);
                    assert(used.subset_of(set_int_range(0, table_len as int)));
                    lemma_int_range(0, table_len as int);
                    lemma_len_subset(used, set_int_range(0, table_len as int));
                    assert(n <= table_len);
                }
                result.push(clone_names(&config.stages[idx].modules));
                n = n + 1;
            },
        }
    }
    result
}

/// The first settings document configured under the given module name,
/// if any, as a map.
pub open spec fn find_settings(module: Seq<ModuleConfig>, name: Seq<char>) -> Option<
    Map<Seq<char>, crate::values::SpecVal>,
>
    decreases module.len(),
{
    if module.len() == 0 {
        None
    } else if module[0].name@ == name {
        Some(module[0].settings@)
    } else {
        find_settings(module.drop_first(), name)
    }
}

/// Looking past a prefix of non-matching entries does not change what is
/// found.
proof fn lemma_find_settings_skip(module: Seq<ModuleConfig>, name: Seq<char>, i: int)
    requires
        0 <= i <= module.len(),
        forall|j: int| 0 <= j < i ==> (#[trigger] module[j]).name@ != name,
    ensures
        find_settings(module, name) == find_settings(module.skip(i), name),
    decreases i,
{
    if i == 0 {
        assert(module.skip(0) =~= module);
    } else {
        lemma_find_settings_skip(module, name, i - 1);
        let tail = module.skip(i - 1);
        assert(tail[0] == module[i - 1]);
        assert(tail[0].name@ != name);
        assert(tail.drop_first() =~= module.skip(i));
    }
}

/// The settings configured for the named module, if any.
pub fn module_settings<'a>(config: &'a Config, name: &str) -> (r: Option<&'a Document>)
    ensures
        match r {
            Some(d) => find_settings(config.module@, name@) == Some(d@) && (config.wf()
                ==> d.wf()),
            None => find_settings(config.module@, name@) is None,
        },
{
    let mut i: usize = 0;
    let n = config.module.len();
    while i < n
        invariant
            0 <= i <= n,
            n == config.module@.len(),
            forall|j: int| 0 <= j < i ==> (#[trigger] config.module@[j]).name@ != name@,
        decreases n - i,
    {
        if str_eq(config.module[i].name.as_str(), name) {
            proof {
                lemma_find_settings_skip(config.module@, name@, i as int);
                assert(config.module@.skip(i as int)[0] == config.module@[i as int]);
            }
            return Some(&config.module[i].settings);
        }
        i = i + 1;
    }
    proof {
        lemma_find_settings_skip(config.module@, name@, n as int);
        assert(config.module@.skip(n as int) =~= Seq::<ModuleConfig>::empty());
    }
    None
}

} // verus!
