//! Configuration and script descriptors, which files are scripts, and the order scripts run in.

use vstd::multiset::Multiset;
use vstd::prelude::*;

use crate::error::ForceError;
use crate::text::{
    lemma_seq_lt_irreflexive, lemma_seq_lt_total, lemma_seq_lt_transitive, seq_lt, str_lt,
};

verus! {

broadcast use vstd::seq_lib::group_to_multiset_ensures;

/// The working-tree path template used when the configuration names none.
pub open spec fn default_path_template() -> Seq<char> {
    "../worktrees/$FORCE_FEATURE_SLUG"@
}

/// The default working-tree path template.
pub fn default_worktree_path() -> (r: String)
    ensures
        r@ == default_path_template(),
{
    String::from_str("../worktrees/$FORCE_FEATURE_SLUG")
}

/// By default a working tree is removed when its session is torn down.
pub fn default_remove_on_down() -> (r: bool)
    ensures
        r,
{
    true
}

/// The project's configuration.
#[derive(Debug)]
pub struct ForceConfig {
    pub worktree: WorktreeConfig,
}

/// How working trees are placed and kept.
#[derive(Debug)]
pub struct WorktreeConfig {
    /// Where a working tree goes; `$FORCE_FEATURE_SLUG` stands for the feature slug.
    pub path: String,
    /// Whether tearing a session down removes its working tree.
    pub remove_on_down: bool,
}

impl Default for WorktreeConfig {
    fn default() -> (r: Self)
        ensures
            r.path@ == default_path_template(),
            r.remove_on_down,
    {
        WorktreeConfig { path: default_worktree_path(), remove_on_down: default_remove_on_down() }
    }
}

impl Default for ForceConfig {
    fn default() -> (r: Self)
        ensures
            r.worktree.path@ == default_path_template(),
            r.worktree.remove_on_down,
    {
        ForceConfig { worktree: WorktreeConfig::default() }
    }
}

/// A script descriptor.
#[derive(Debug)]
pub struct Script {
    pub meta: ScriptMeta,
    pub up: ScriptCommand,
    /// What undoes `up`; a script without it is skipped on teardown.
    pub down: Option<ScriptCommand>,
}

/// Where a script stands in the order.
#[derive(Debug)]
pub struct ScriptMeta {
    pub category: String,
    /// Orders scripts within a category; absent means 0.
    pub priority: Option<i32>,
}

/// A shell command with an optional description.
#[derive(Debug)]
pub struct ScriptCommand {
    pub run: String,
    pub description: Option<String>,
}

/// A script together with the name of the file it came from.
#[derive(Debug)]
pub struct LoadedScript {
    pub name: String,
    pub script: Script,
}

/// The script name that a file name stands for: the stem of a `.toml` file other than
/// `config.toml`.
pub open spec fn script_name_of(file_name: Seq<char>) -> Option<Seq<char>> {
    let n = file_name.len();
    if n > 5 && file_name.skip(n - 5) == ".toml"@ && file_name.take(n - 5) != "config"@ {
        Some(file_name.take(n - 5))
    } else {
        None
    }
}

/// The script name that a file of the control directory stands for, if it is a script.
pub fn script_name(file_name: &str) -> (r: Option<String>)
    ensures
        r is Some <==> script_name_of(file_name@) is Some,
        r matches Some(s) ==> Some(s@) == script_name_of(file_name@),
{
    proof {
        reveal_strlit(".toml");
        reveal_strlit("config");
    }
    let v = crate::text::chars_of(file_name);
    let n = v.len();
    if n <= 5 {
        return None;
    }
    let suffix = crate::text::string_of(&v, n - 5, n);
    let stem = crate::text::string_of(&v, 0, n - 5);
    assert(v@.subrange(n - 5, n as int) == file_name@.skip(n - 5));
    assert(v@.subrange(0, n - 5) == file_name@.take(n - 5));
    let is_toml = suffix == String::from_str(".toml");
    let is_config = stem == String::from_str("config");
    if is_toml && !is_config {
        Some(stem)
    } else {
        None
    }
}

/// The priority of a script, 0 when it states none.
pub open spec fn priority_of(s: LoadedScript) -> int {
    match s.script.meta.priority {
        Some(p) => p as int,
        None => 0,
    }
}

/// `a` runs before `b`: by category, then priority, then name.
pub open spec fn runs_before(a: LoadedScript, b: LoadedScript) -> bool {
    ||| seq_lt(a.script.meta.category@, b.script.meta.category@)
    ||| (a.script.meta.category@ == b.script.meta.category@ && priority_of(a) < priority_of(b))
    ||| (a.script.meta.category@ == b.script.meta.category@ && priority_of(a) == priority_of(b)
        && seq_lt(a.name@, b.name@))
}

/// No script of `s` runs before one that precedes it.
pub open spec fn in_run_order(s: Seq<LoadedScript>) -> bool {
    forall|i: int, j: int| 0 <= i < j < s.len() ==> !runs_before(#[trigger] s[j], #[trigger] s[i])
}

/// `runs_before` is transitive.
pub proof fn lemma_runs_before_transitive(a: LoadedScript, b: LoadedScript, c: LoadedScript)
    requires
        runs_before(a, b),
        runs_before(b, c),
    ensures
        runs_before(a, c),
{
    let (ca, cb, cc) = (a.script.meta.category@, b.script.meta.category@, c.script.meta.category@);
    if seq_lt(ca, cb) && seq_lt(cb, cc) {
        lemma_seq_lt_transitive(ca, cb, cc);
    }
    if seq_lt(a.name@, b.name@) && seq_lt(b.name@, c.name@) {
        lemma_seq_lt_transitive(a.name@, b.name@, c.name@);
    }
}

/// `runs_before` never holds both ways.
pub proof fn lemma_runs_before_asymmetric(a: LoadedScript, b: LoadedScript)
    ensures
        !(runs_before(a, b) && runs_before(b, a)),
{
    let (ca, cb) = (a.script.meta.category@, b.script.meta.category@);
    if seq_lt(ca, cb) && seq_lt(cb, ca) {
        lemma_seq_lt_transitive(ca, cb, ca);
        lemma_seq_lt_irreflexive(ca);
    }
    if seq_lt(ca, cb) && ca == cb {
        lemma_seq_lt_irreflexive(ca);
    }
    if seq_lt(cb, ca) && ca == cb {
        lemma_seq_lt_irreflexive(ca);
    }
    if seq_lt(a.name@, b.name@) && seq_lt(b.name@, a.name@) {
        lemma_seq_lt_transitive(a.name@, b.name@, a.name@);
        lemma_seq_lt_irreflexive(a.name@);
    }
}

/// Two scripts with different names are always ordered one way or the other.
pub proof fn lemma_runs_before_total(a: LoadedScript, b: LoadedScript)
    requires
        a.name@ != b.name@,
    ensures
        runs_before(a, b) || runs_before(b, a),
{
    lemma_seq_lt_total(a.script.meta.category@, b.script.meta.category@);
    lemma_seq_lt_total(a.name@, b.name@);
}

fn priority_exec(s: &LoadedScript) -> (r: i32)
    ensures
        r == priority_of(*s),
{
    match s.script.meta.priority {
        Some(p) => p,
        None => 0,
    }
}

/// Whether `a` runs before `b`.
pub fn runs_before_exec(a: &LoadedScript, b: &LoadedScript) -> (r: bool)
    ensures
        r == runs_before(*a, *b),
{
    let ca = a.script.meta.category.as_str();
    let cb = b.script.meta.category.as_str();
    if str_lt(ca, cb) {
        return true;
    }
    if a.script.meta.category != b.script.meta.category {
        return false;
    }
    let pa = priority_exec(a);
    let pb = priority_exec(b);
    pa < pb || (pa == pb && str_lt(a.name.as_str(), b.name.as_str()))
}

/// Puts scripts in run order: by category, then priority, then name.
pub fn sort_scripts(scripts: Vec<LoadedScript>) -> (r: Vec<LoadedScript>)
    ensures
        r@.to_multiset() == scripts@.to_multiset(),
        in_run_order(r@),
{
    let mut rest = scripts;
    let mut out: Vec<LoadedScript> = Vec::new();
    while rest.len() > 0
        invariant
            out@.to_multiset().add(rest@.to_multiset()) == scripts@.to_multiset(),
            in_run_order(out@),
        decreases rest@.len(),
    {
        let ghost before_rest = rest@;
        let x = rest.pop().unwrap();
        assert(before_rest == rest@.push(x));
        let mut i: usize = 0;
        while i < out.len() && !runs_before_exec(&x, &out[i])
            invariant
                i <= out@.len(),
                forall|j: int| 0 <= j < i ==> !runs_before(x, #[trigger] out@[j]),
            decreases out@.len() - i,
        {
            i = i + 1;
        }
        let ghost before = out@;
        proof {
            assert forall|j: int| i <= j < before.len() implies !runs_before(
                #[trigger] before[j],
                x,
            ) by {
                if runs_before(before[j], x) {
                    lemma_runs_before_transitive(before[j], x, before[i as int]);
                    lemma_runs_before_asymmetric(before[j], before[i as int]);
                    if j == i {
                        lemma_runs_before_asymmetric(before[j], x);
                    }
                }
            }
        }
        out.insert(i, x);
        proof {
            before.insert_ensures(i as int, x);
            assert forall|a: int, b: int| 0 <= a < b < out@.len() implies !runs_before(
                #[trigger] out@[b],
                #[trigger] out@[a],
            ) by {
                if a < i && b < i {
                    assert(out@[a] == before[a] && out@[b] == before[b]);
                } else if a < i && b == i {
                } else if a < i {
                    assert(out@[a] == before[a] && out@[b] == before[b - 1]);
                } else if a == i {
                    assert(out@[b] == before[b - 1]);
                } else {
                    assert(out@[a] == before[a - 1] && out@[b] == before[b - 1]);
                }
            }
            assert(out@.to_multiset() == before.to_multiset().insert(x));
            assert(before_rest.to_multiset() == rest@.to_multiset().insert(x));
            assert(out@.to_multiset().add(rest@.to_multiset()) =~= before.to_multiset().add(
                before_rest.to_multiset(),
            ));
        }
    }
    assert(rest@.to_multiset() =~= Multiset::empty());
    assert(out@.to_multiset().add(Multiset::empty()) =~= out@.to_multiset());
    out
}

/// The scripts that a list of load results holds, where every one of them loaded.
pub open spec fn loaded_values(loaded: Seq<Result<LoadedScript, ForceError>>) -> Seq<LoadedScript> {
    loaded.map_values(|x: Result<LoadedScript, ForceError>| x->Ok_0)
}

/// Assembles the scripts of a control directory from what loading each file gave, in
/// listing order: the first failure fails the whole load; otherwise the scripts come back
/// in run order.
pub fn collect_scripts(loaded: Vec<Result<LoadedScript, ForceError>>) -> (r: Result<
    Vec<LoadedScript>,
    ForceError,
>)
    ensures
        r is Ok <==> forall|i: int| 0 <= i < loaded@.len() ==> (#[trigger] loaded@[i]) is Ok,
        r matches Ok(v) ==> v@.to_multiset() == loaded_values(loaded@).to_multiset()
            && in_run_order(v@),
        r matches Err(e) ==> exists|i: int|
            0 <= i < loaded@.len() && loaded@[i] == Err::<LoadedScript, ForceError>(e) && forall|
                j: int,
            | 0 <= j < i ==> (#[trigger] loaded@[j]) is Ok,
{
    let ghost all = loaded@;
    let mut rest = loaded;
    let mut scripts: Vec<LoadedScript> = Vec::new();
    let ghost mut k: int = 0;
    while rest.len() > 0
        invariant
            0 <= k <= all.len(),
            all == loaded@,
            rest@ == all.skip(k),
            forall|j: int| 0 <= j < k ==> (#[trigger] all[j]) is Ok,
            scripts@ == loaded_values(all.take(k)),
        decreases rest@.len(),
    {
        let item = rest.remove(0);
        assert(item == all[k]);
        assert(rest@ == all.skip(k + 1));
        match item {
            Ok(s) => {
                scripts.push(s);
                assert(all.take(k + 1) == all.take(k).push(all[k]));
                proof {
                    k = k + 1;
                }
            },
            Err(e) => {
                assert(all[k] == Err::<LoadedScript, ForceError>(e));
                return Err(e);
            },
        }
    }
    assert(all.take(k) == all);
    Ok(sort_scripts(scripts))
}

/// The names of `s` differ pairwise.
pub open spec fn names_distinct(s: Seq<LoadedScript>) -> bool {
    forall|i: int, j: int| 0 <= i < j < s.len() ==> (#[trigger] s[i]).name@ != (#[trigger] s[j]).name@
}

/// The run order depends on the scripts alone, not on the order they were found in: two
/// arrangements in run order of the same scripts, whose names differ, are the same.
pub proof fn lemma_run_order_is_unique(a: Seq<LoadedScript>, b: Seq<LoadedScript>)
    requires
        a.to_multiset() == b.to_multiset(),
        in_run_order(a),
        in_run_order(b),
        names_distinct(a),
    ensures
        a == b,
    decreases a.len(),
{
    a.to_multiset_ensures();
    b.to_multiset_ensures();
    if a.len() == 0 {
        assert(b.len() == 0);
        assert(a == b);
    } else {
        assert(b.len() == a.len());
        assert(a.to_multiset().count(a[0]) > 0);
        assert(b.contains(a[0]));
        let k = choose|k: int| 0 <= k < b.len() && b[k] == a[0];
        assert(b.to_multiset().count(b[0]) > 0);
        assert(a.contains(b[0]));
        let m = choose|m: int| 0 <= m < a.len() && a[m] == b[0];
        if a[0].name@ != b[0].name@ {
            lemma_runs_before_total(a[0], b[0]);
            if k > 0 {
                assert(!runs_before(b[k], b[0]));
            }
            if m > 0 {
                assert(!runs_before(a[m], a[0]));
            }
            if k == 0 {
                assert(a[0] == b[0]);
            }
        } else if m != 0 {
            assert(a[0].name@ != a[m].name@);
        }
        assert(a[0] == b[0]);
        let (ra, rb) = (a.drop_first(), b.drop_first());
        assert(a.remove(0) == ra);
        assert(b.remove(0) == rb);
        vstd::seq_lib::to_multiset_remove(a, 0);
        vstd::seq_lib::to_multiset_remove(b, 0);
        assert forall|i: int, j: int| 0 <= i < j < ra.len() implies !runs_before(
            #[trigger] ra[j],
            #[trigger] ra[i],
        ) by {
            assert(ra[j] == a[j + 1] && ra[i] == a[i + 1]);
        }
        assert forall|i: int, j: int| 0 <= i < j < rb.len() implies !runs_before(
            #[trigger] rb[j],
            #[trigger] rb[i],
        ) by {
            assert(rb[j] == b[j + 1] && rb[i] == b[i + 1]);
        }
        assert forall|i: int, j: int| 0 <= i < j < ra.len() implies (#[trigger] ra[i]).name@
            != (#[trigger] ra[j]).name@ by {
            assert(ra[j] == a[j + 1] && ra[i] == a[i + 1]);
        }
        lemma_run_order_is_unique(ra, rb);
        assert(a == seq![a[0]] + ra);
        assert(b == seq![b[0]] + rb);
    }
}

} // verus!
