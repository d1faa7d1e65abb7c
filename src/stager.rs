//! Staging an install folder by renaming it with a fixed suffix, reverting
//! it, and sweeping every staged folder back.
use vstd::prelude::*;
use vstd::string::StringExecFns;
use crate::keyvalue::{join, join_path};
use crate::text::{chars_of, ends_with_chars, ends_with_seq, string_of, strings_view, take_chars};

verus! {

pub open spec fn staged_suffix() -> Seq<char> {
    "_temp_rename"@
}

/// The name a folder gets while staged.
pub open spec fn staged_of(name: Seq<char>) -> Seq<char> {
    name + staged_suffix()
}

/// A staged name with its suffix removed once; other names stay as they are.
pub open spec fn unstaged_of(name: Seq<char>) -> Seq<char> {
    if ends_with_seq(name, staged_suffix()) {
        name.take(name.len() - staged_suffix().len())
    } else {
        name
    }
}

/// The folder of a library root that holds the install folders.
pub open spec fn common_of(root: Seq<char>) -> Seq<char> {
    join_path(root, "common"@)
}

/// One rename to perform: `from` becomes `to`; `name` is what the caller
/// reports for it.
#[derive(Debug)]
pub struct RenameStep {
    pub from: String,
    pub to: String,
    pub name: String,
}

pub struct StepView {
    pub from: Seq<char>,
    pub to: Seq<char>,
    pub name: Seq<char>,
}

impl View for RenameStep {
    type V = StepView;

    open spec fn view(&self) -> StepView {
        StepView { from: self.from@, to: self.to@, name: self.name@ }
    }
}

#[derive(Debug, PartialEq, Eq)]
pub enum StageError {
    /// No library root holds the folder.
    NotFound,
    /// The rename failed; the message says why.
    RenameError(String),
}

/// `k` is the first index at which `present` holds.
pub open spec fn first_present(present: Seq<bool>, k: int) -> bool {
    0 <= k < present.len() && present[k] && forall|j: int| 0 <= j < k ==> !present[j]
}

pub open spec fn stage_step_of(root: Seq<char>, rel: Seq<char>) -> StepView {
    StepView {
        from: join_path(common_of(root), rel),
        to: join_path(common_of(root), staged_of(rel)),
        name: staged_of(rel),
    }
}

pub open spec fn revert_step_of(root: Seq<char>, staged: Seq<char>) -> StepView {
    StepView {
        from: join_path(common_of(root), staged),
        to: join_path(common_of(root), unstaged_of(staged)),
        name: unstaged_of(staged),
    }
}

/// The step of a sweep for one entry of a root's install folder: only a
/// staged entry is renamed.
pub open spec fn sweep_step_of(common: Seq<char>, entry: Seq<char>) -> Option<StepView> {
    if ends_with_seq(entry, staged_suffix()) {
        Some(
            StepView {
                from: join_path(common, entry),
                to: join_path(common, unstaged_of(entry)),
                name: unstaged_of(entry),
            },
        )
    } else {
        None
    }
}

pub open spec fn sweep_of(common: Seq<char>, entries: Seq<Seq<char>>) -> Seq<StepView> {
    entries.filter_map(|e: Seq<char>| sweep_step_of(common, e))
}

pub open spec fn steps_view(v: Seq<RenameStep>) -> Seq<StepView> {
    v.map_values(|s: RenameStep| s@)
}

/// The names of the steps whose rename succeeded (`ok[i]` for `steps[i]`).
pub open spec fn restored_of(steps: Seq<StepView>, ok: Seq<bool>) -> Seq<Seq<char>>
    decreases steps.len(),
{
    if steps.len() == 0 {
        Seq::empty()
    } else {
        let n = steps.len() - 1;
        let before = restored_of(steps.drop_last(), ok.take(n));
        if ok[n] {
            before.push(steps[n].name)
        } else {
            before
        }
    }
}

/// The path of an install folder below a library root.
pub fn game_dir(root: &str, rel: &str) -> (r: String)
    ensures
        r@ == join_path(common_of(root@), rel@),
{
    let common = join(root, "common");
    join(common.as_str(), rel)
}

/// The staged name of a folder.
pub fn staged_name(name: &str) -> (r: String)
    ensures
        r@ == staged_of(name@),
{
    let mut r = String::from_str(name);
    r.append("_temp_rename");
    r
}

/// A staged name with its suffix removed.
pub fn unstaged_name(name: &str) -> (r: String)
    ensures
        r@ == unstaged_of(name@),
{
    let cs = chars_of(name);
    let suffix = chars_of("_temp_rename");
    if ends_with_chars(cs.as_slice(), suffix.as_slice()) {
        let kept = take_chars(cs.as_slice(), cs.len() - suffix.len());
        string_of(kept.as_slice())
    } else {
        String::from_str(name)
    }
}

fn first_present_index(present: &Vec<bool>) -> (r: Option<usize>)
    ensures
        match r {
            Some(k) => first_present(present@, k as int),
            None => forall|j: int| 0 <= j < present@.len() ==> !present@[j],
        },
{
    for k in 0..present.len()
        invariant
            forall|j: int| 0 <= j < k ==> !present@[j],
    {
        if present[k] {
            return Some(k);
        }
    }
    None
}

/// The rename that stages `rel` in the first root that holds it
/// (`present[i]` tells whether `game_dir(roots[i], rel)` exists).
pub fn stage_step(roots: &Vec<String>, present: &Vec<bool>, rel: &str) -> (r: Result<RenameStep, StageError>)
    requires
        roots@.len() == present@.len(),
    ensures
        match r {
            Ok(s) => exists|k: int| first_present(present@, k) && s@ == stage_step_of(roots@[k]@, rel@),
            Err(e) => e == StageError::NotFound && forall|j: int| 0 <= j < present@.len() ==> !present@[j],
        },
{
    match first_present_index(present) {
        None => Err(StageError::NotFound),
        Some(k) => {
            let root = roots[k].as_str();
            let common = join(root, "common");
            let name = staged_name(rel);
            let s = RenameStep {
                from: join(common.as_str(), rel),
                to: join(common.as_str(), name.as_str()),
                name,
            };
            assert(s@ == stage_step_of(roots@[k as int]@, rel@));
            Ok(s)
        },
    }
}

/// The rename that reverts the staged folder `staged` in the first root
/// that holds it (`present[i]` tells whether `game_dir(roots[i], staged)`
/// exists).
pub fn revert_step(roots: &Vec<String>, present: &Vec<bool>, staged: &str) -> (r: Result<RenameStep, StageError>)
    requires
        roots@.len() == present@.len(),
    ensures
        match r {
            Ok(s) => exists|k: int| first_present(present@, k) && s@ == revert_step_of(roots@[k]@, staged@),
            Err(e) => e == StageError::NotFound && forall|j: int| 0 <= j < present@.len() ==> !present@[j],
        },
{
    match first_present_index(present) {
        None => Err(StageError::NotFound),
        Some(k) => {
            let root = roots[k].as_str();
            let common = join(root, "common");
            let name = unstaged_name(staged);
            let s = RenameStep {
                from: join(common.as_str(), staged),
                to: join(common.as_str(), name.as_str()),
                name,
            };
            assert(s@ == revert_step_of(roots@[k as int]@, staged@));
            Ok(s)
        },
    }
}

/// The outcome of a stage or revert: the step's name once the rename
/// succeeded, its error otherwise.
pub fn rename_outcome(step: RenameStep, renamed: Result<(), String>) -> (r: Result<String, StageError>)
    ensures
        match renamed {
            Ok(_) => r matches Ok(n) && n@ == step@.name,
            Err(e) => r == Err::<String, StageError>(StageError::RenameError(e)),
        },
{
    match renamed {
        Ok(_) => Ok(step.name),
        Err(e) => Err(StageError::RenameError(e)),
    }
}

/// The renames that sweep the install folder `common`, whose entries are
/// `entries`: one for each staged entry, in order.
pub fn sweep_steps(common: &str, entries: &Vec<String>) -> (r: Vec<RenameStep>)
    ensures
        steps_view(r@) == sweep_of(common@, strings_view(entries@)),
{
    let ghost es = strings_view(entries@);
    let ghost f = |e: Seq<char>| sweep_step_of(common@, e);
    let suffix = chars_of("_temp_rename");
    let mut out: Vec<RenameStep> = Vec::new();
    assert(es.take(0) =~= Seq::<Seq<char>>::empty());
    assert(steps_view(out@) =~= es.take(0).filter_map(f));
    for i in 0..entries.len()
        invariant
            es == strings_view(entries@),
            f == (|e: Seq<char>| sweep_step_of(common@, e)),
            suffix@ == staged_suffix(),
            steps_view(out@) == es.take(i as int).filter_map(f),
    {
        proof {
            es.lemma_filter_map_take_succ(f, i as int);
        }
        let ghost before = steps_view(out@);
        let e = entries[i].as_str();
        let ec = chars_of(e);
        if ends_with_chars(ec.as_slice(), suffix.as_slice()) {
            let name = unstaged_name(e);
            let s = RenameStep { from: join(common, e), to: join(common, name.as_str()), name };
            out.push(s);
            assert(steps_view(out@) =~= before + seq![s@]);
        } else {
            assert(steps_view(out@) =~= before + Seq::<StepView>::empty());
        }
    }
    assert(es.take(es.len() as int) =~= es);
    out
}

/// The names that a sweep restored, in order (`renamed[i]` tells whether
/// `steps[i]` succeeded).
pub fn restored_names(steps: &Vec<RenameStep>, renamed: &Vec<bool>) -> (r: Vec<String>)
    requires
        steps@.len() == renamed@.len(),
    ensures
        strings_view(r@) == restored_of(steps_view(steps@), renamed@),
{
    let ghost sv = steps_view(steps@);
    let mut out: Vec<String> = Vec::new();
    assert(strings_view(out@) =~= Seq::<Seq<char>>::empty());
    for i in 0..steps.len()
        invariant
            sv == steps_view(steps@),
            steps@.len() == renamed@.len(),
            strings_view(out@) == restored_of(sv.take(i as int), renamed@.take(i as int)),
    {
        let ghost before = strings_view(out@);
        assert(sv.take(i + 1).drop_last() =~= sv.take(i as int));
        assert(renamed@.take(i + 1).take(i as int) =~= renamed@.take(i as int));
        if renamed[i] {
            out.push(String::from_str(steps[i].name.as_str()));
            assert(strings_view(out@) =~= before.push(sv[i as int].name));
        }
        assert(strings_view(out@) =~= restored_of(sv.take(i + 1), renamed@.take(i + 1)));
    }
    assert(sv.take(sv.len() as int) =~= sv);
    assert(renamed@.take(renamed@.len() as int) =~= renamed@);
    out
}

/// Reverting the name that staging returned renames the staged folder back
/// to the original path: the revert's rename is the stage's, reversed.
pub proof fn lemma_stage_revert_round_trip(root: Seq<char>, rel: Seq<char>)
    ensures
        unstaged_of(staged_of(rel)) == rel,
        revert_step_of(root, stage_step_of(root, rel).name).from == stage_step_of(root, rel).to,
        revert_step_of(root, stage_step_of(root, rel).name).to == stage_step_of(root, rel).from,
        revert_step_of(root, stage_step_of(root, rel).name).name == rel,
{
    let st = staged_of(rel);
    let n = staged_suffix().len();
    assert(st.subrange(st.len() - n, st.len() as int) =~= staged_suffix());
    assert(st.take(st.len() - n) =~= rel);
}

proof fn lemma_staged_entry_swept(common: Seq<char>, entries: Seq<Seq<char>>, i: int)
    requires
        0 <= i < entries.len(),
        ends_with_seq(entries[i], staged_suffix()),
    ensures
        sweep_of(common, entries).contains(sweep_step_of(common, entries[i])->0),
    decreases entries.len(),
{
    let f = |e: Seq<char>| sweep_step_of(common, e);
    let last = entries.len() - 1;
    assert(entries.drop_last().filter_map(f) == sweep_of(common, entries.drop_last()));
    if i == last {
        assert(sweep_of(common, entries) == entries.drop_last().filter_map(f) + seq![
            sweep_step_of(common, entries[i])->0,
        ]);
        assert(sweep_of(common, entries).last() == sweep_step_of(common, entries[i])->0);
    } else {
        lemma_staged_entry_swept(common, entries.drop_last(), i);
        let pre = sweep_of(common, entries.drop_last());
        let k = choose|k: int| 0 <= k < pre.len() && pre[k] == sweep_step_of(common, entries[i])->0;
        match f(entries.last()) {
            Some(s) => {
                assert(sweep_of(common, entries) == pre + seq![s]);
                assert(sweep_of(common, entries)[k] == pre[k]);
            },
            None => {
                assert(sweep_of(common, entries) == pre);
            },
        }
    }
}

proof fn lemma_restored_exact(steps: Seq<StepView>, ok: Seq<bool>, n: Seq<char>)
    requires
        steps.len() == ok.len(),
    ensures
        restored_of(steps, ok).contains(n) <==> exists|k: int|
            0 <= k < steps.len() && ok[k] && (#[trigger] steps[k]).name == n,
    decreases steps.len(),
{
    if steps.len() > 0 {
        let last = steps.len() - 1;
        let pre = steps.drop_last();
        let okp = ok.take(last);
        lemma_restored_exact(pre, okp, n);
        let r0 = restored_of(pre, okp);
        if restored_of(steps, ok).contains(n) {
            if ok[last] && steps[last].name == n {
            } else {
                let j = choose|j: int| 0 <= j < restored_of(steps, ok).len() && restored_of(steps, ok)[j] == n;
                if ok[last] {
                    assert(restored_of(steps, ok) == r0.push(steps[last].name));
                    if j < r0.len() {
                        assert(r0[j] == n);
                    }
                }
                assert(r0.contains(n));
                let k = choose|k: int| 0 <= k < pre.len() && okp[k] && (#[trigger] pre[k]).name == n;
                assert(steps[k] == pre[k]);
            }
        }
        if exists|k: int| 0 <= k < steps.len() && ok[k] && (#[trigger] steps[k]).name == n {
            let k = choose|k: int| 0 <= k < steps.len() && ok[k] && (#[trigger] steps[k]).name == n;
            if k == last {
                assert(restored_of(steps, ok).last() == n);
            } else {
                assert(pre[k] == steps[k]);
                assert(okp[k] == ok[k]);
                assert(r0.contains(n));
                let j = choose|j: int| 0 <= j < r0.len() && r0[j] == n;
                if ok[last] {
                    assert(restored_of(steps, ok)[j] == r0[j]);
                } else {
                    assert(restored_of(steps, ok) == r0);
                }
            }
        }
    }
}

/// A sweep renames exactly the staged entries, each back to its name without
/// the suffix, and reports exactly the names whose rename succeeded.
pub proof fn lemma_sweep_exact(common: Seq<char>, entries: Seq<Seq<char>>, ok: Seq<bool>, n: Seq<char>)
    requires
        ok.len() == sweep_of(common, entries).len(),
    ensures
        forall|s: StepView|
            #[trigger] sweep_of(common, entries).contains(s) ==> exists|e: Seq<char>|
                #[trigger] entries.contains(e) && ends_with_seq(e, staged_suffix()) && sweep_step_of(common, e)
                    == Some(s),
        forall|i: int|
            0 <= i < entries.len() && ends_with_seq(#[trigger] entries[i], staged_suffix()) ==> sweep_of(
                common,
                entries,
            ).contains(sweep_step_of(common, entries[i])->0),
        restored_of(sweep_of(common, entries), ok).contains(n) <==> exists|k: int|
            0 <= k < ok.len() && ok[k] && (#[trigger] sweep_of(common, entries)[k]).name == n,
{
    let f = |e: Seq<char>| sweep_step_of(common, e);
    assert forall|s: StepView| #[trigger] sweep_of(common, entries).contains(s) implies exists|e: Seq<char>|
        #[trigger] entries.contains(e) && ends_with_seq(e, staged_suffix()) && sweep_step_of(common, e)
            == Some(s) by {
        entries.lemma_filter_map_contains(f, s);
    }
    assert forall|i: int| 0 <= i < entries.len() && ends_with_seq(#[trigger] entries[i], staged_suffix()) implies sweep_of(
        common,
        entries,
    ).contains(sweep_step_of(common, entries[i])->0) by {
        lemma_staged_entry_swept(common, entries, i);
    }
    lemma_restored_exact(sweep_of(common, entries), ok, n);
}

} // verus!
