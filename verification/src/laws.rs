//! The general laws of the engine, each stated and proved over the
//! specification functions of [`crate::model`].
use vstd::prelude::*;

use crate::model::{
    apply_sem, clone_shifts_v, cmd_revert_msg, covered, desc_v, file_exists_msg, plan_apply_from,
    plan_revert_from, revert_sem, rollback_upto, ErrV, NodeV, RevertRunV, ShiftV, StepV, WorldV,
};

verus! {

// ---------------------------------------------------------------------------
// The worlds a plan's shifts see during apply
// ---------------------------------------------------------------------------

/// The world just before shift `j` is applied, assuming every earlier shift's
/// apply succeeded: the sequential composition of the first `j` apply effects.
pub open spec fn world_before(ss: Seq<ShiftV>, j: int, w: WorldV) -> WorldV
    decreases j,
{
    if j <= 0 {
        w
    } else {
        apply_sem(ss[j - 1], world_before(ss, j - 1, w)).w
    }
}

/// Every shift of `ss[0..j]` succeeds when applied in sequence order.
pub open spec fn applies_ok_upto(ss: Seq<ShiftV>, j: int, w: WorldV) -> bool {
    forall|i: int| 0 <= i < j ==> (#[trigger] apply_sem(ss[i], world_before(ss, i, w)).e) is None
}

proof fn lemma_apply_prefix(ss: Seq<ShiftV>, w: WorldV, j: int)
    requires
        0 <= j <= ss.len(),
        applies_ok_upto(ss, j, w),
    ensures
        plan_apply_from(ss, 0, w) == plan_apply_from(ss, j, world_before(ss, j, w)),
    decreases j,
{
    if j > 0 {
        lemma_apply_prefix(ss, w, j - 1);
        assert(apply_sem(ss[j - 1], world_before(ss, j - 1, w)).e is None);
    }
}

/// When no shift's apply fails, the whole plan apply succeeds and its
/// post-state is exactly the sequential composition of each shift's
/// individual apply effect, in sequence order.
pub proof fn lemma_apply_all_succeed(ss: Seq<ShiftV>, w: WorldV)
    requires
        applies_ok_upto(ss, ss.len() as int, w),
    ensures
        plan_apply_from(ss, 0, w).e is None,
        plan_apply_from(ss, 0, w).w == world_before(ss, ss.len() as int, w),
{
    lemma_apply_prefix(ss, w, ss.len() as int);
}

/// When shift `k` is the first to fail during apply, the shifts before it are
/// rolled back by one revert each, in the order `k-1`, `k-2`, ..., `0` — that
/// is what `rollback_upto(ss, k, _)` folds — and the plan apply surfaces
/// shift `k`'s own failure, never a rollback failure.
pub proof fn lemma_apply_rolls_back_on_failure(ss: Seq<ShiftV>, w: WorldV, k: int)
    requires
        0 <= k < ss.len(),
        applies_ok_upto(ss, k, w),
        apply_sem(ss[k], world_before(ss, k, w)).e is Some,
    ensures
        plan_apply_from(ss, 0, w).e == apply_sem(ss[k], world_before(ss, k, w)).e,
        plan_apply_from(ss, 0, w).w == rollback_upto(
            ss,
            k,
            apply_sem(ss[k], world_before(ss, k, w)).w,
        ),
{
    lemma_apply_prefix(ss, w, k);
}

// ---------------------------------------------------------------------------
// Idempotence of the creation shifts
// ---------------------------------------------------------------------------

/// Directory creation is idempotent: when it succeeds once, applying it again
/// immediately afterwards succeeds too and leaves the world identical.
pub proof fn lemma_dir_apply_idempotent(path: Seq<char>, w: WorldV)
    requires
        apply_sem(ShiftV::Dir { path }, w).e is None,
    ensures
        apply_sem(ShiftV::Dir { path }, apply_sem(ShiftV::Dir { path }, w).w).e is None,
        apply_sem(ShiftV::Dir { path }, apply_sem(ShiftV::Dir { path }, w).w).w == apply_sem(
            ShiftV::Dir { path },
            w,
        ).w,
{
}

/// File creation is not idempotent against itself: after one successful
/// apply, applying again at the same path always fails with an already-exists
/// failure — even with identical content — and changes nothing.
pub proof fn lemma_file_apply_not_idempotent(path: Seq<char>, content: Seq<char>, w: WorldV)
    requires
        apply_sem(ShiftV::File { path, content }, w).e is None,
    ensures
        apply_sem(ShiftV::File { path, content }, apply_sem(ShiftV::File { path, content }, w).w).e
            == Option::Some(ErrV::AlreadyExists(file_exists_msg(path))),
        apply_sem(ShiftV::File { path, content }, apply_sem(ShiftV::File { path, content }, w).w).w
            == apply_sem(ShiftV::File { path, content }, w).w,
{
}

/// Reverting a command execution fails unconditionally — whatever the world,
/// so in particular whether or not its apply succeeded — and changes nothing.
pub proof fn lemma_cmd_revert_always_fails(
    program: Seq<char>,
    args: Seq<Seq<char>>,
    working_dir: Option<Seq<char>>,
    ok_codes: Seq<int>,
    w: WorldV,
)
    ensures
        revert_sem(ShiftV::Cmd { program, args, working_dir, ok_codes }, w).e == Option::Some(
            ErrV::Custom(cmd_revert_msg()),
        ),
        revert_sem(ShiftV::Cmd { program, args, working_dir, ok_codes }, w).w == w,
{
}

// ---------------------------------------------------------------------------
// Best-effort revert: one attempt per shift, failures all enumerated
// ---------------------------------------------------------------------------

/// The world after reverting every shift with index `j` or above, in strictly
/// descending index order, one attempt per shift whatever each attempt
/// returned.
pub open spec fn world_down(ss: Seq<ShiftV>, j: int, w: WorldV) -> WorldV
    decreases ss.len() - j,
{
    if j < 0 || j >= ss.len() {
        w
    } else {
        revert_sem(ss[j], world_down(ss, j + 1, w)).w
    }
}

/// The single revert attempt the chain makes at index `i`.
pub open spec fn revert_step_at(ss: Seq<ShiftV>, i: int, w: WorldV) -> StepV {
    revert_sem(ss[i], world_down(ss, i + 1, w))
}

/// The (description, failure) pairs of the failing attempts among indices
/// `j-1` down to `0`, in attempt order.
pub open spec fn fail_list(ss: Seq<ShiftV>, j: int, w: WorldV) -> Seq<(Seq<char>, ErrV)>
    decreases j,
{
    if j <= 0 || j > ss.len() {
        Seq::empty()
    } else {
        (match revert_step_at(ss, j - 1, w).e {
            Option::Some(e) => seq![(desc_v(ss[j - 1]), e)],
            Option::None => Seq::empty(),
        }) + fail_list(ss, j - 1, w)
    }
}

proof fn lemma_revert_chain(ss: Seq<ShiftV>, w: WorldV, j: int)
    requires
        0 <= j <= ss.len(),
    ensures
        plan_revert_from(ss, j, world_down(ss, j, w)) == (RevertRunV {
            w: world_down(ss, 0, w),
            failures: fail_list(ss, j, w),
        }),
    decreases j,
{
    if j > 0 {
        assert(world_down(ss, j - 1, w) == revert_sem(ss[j - 1], world_down(ss, j, w)).w);
        lemma_revert_chain(ss, w, j - 1);
    }
}

/// A plan revert attempts every shift exactly once, in strictly descending
/// index order, even when earlier attempts in the same call fail: its
/// post-state is the fold of exactly one revert per shift, and its aggregate
/// failure list is exactly the failing attempts, each with that shift's
/// description, in attempt order.
pub proof fn lemma_revert_best_effort(ss: Seq<ShiftV>, w: WorldV)
    ensures
        plan_revert_from(ss, ss.len() as int, w).w == world_down(ss, 0, w),
        plan_revert_from(ss, ss.len() as int, w).failures == fail_list(ss, ss.len() as int, w),
{
    assert(world_down(ss, ss.len() as int, w) == w);
    lemma_revert_chain(ss, w, ss.len() as int);
}

/// The aggregate failure list is complete: every failing attempt's
/// (description, failure) pair appears in it.
pub proof fn lemma_fail_list_complete(ss: Seq<ShiftV>, w: WorldV, j: int, i: int)
    requires
        0 <= i < j <= ss.len(),
        revert_step_at(ss, i, w).e is Some,
    ensures
        fail_list(ss, j, w).contains(
            (desc_v(ss[i]), revert_step_at(ss, i, w).e.unwrap()),
        ),
    decreases j,
{
    if i == j - 1 {
        assert(fail_list(ss, j, w)[0] == (desc_v(ss[i]), revert_step_at(ss, i, w).e.unwrap()));
    } else {
        lemma_fail_list_complete(ss, w, j - 1, i);
        let pair = (desc_v(ss[i]), revert_step_at(ss, i, w).e.unwrap());
        let rest = fail_list(ss, j - 1, w);
        let idx = choose|idx: int| 0 <= idx < rest.len() && rest[idx] == pair;
        let head = match revert_step_at(ss, j - 1, w).e {
            Option::Some(e) => seq![(desc_v(ss[j - 1]), e)],
            Option::None => Seq::<(Seq<char>, ErrV)>::empty(),
        };
        assert(fail_list(ss, j, w)[head.len() + idx] == pair);
    }
}

// ---------------------------------------------------------------------------
// Round trip: apply establishes every shift's post-condition, revert restores
// the pre-apply file tree
// ---------------------------------------------------------------------------

/// The path a shift manages in the file tree, when it manages one.
pub open spec fn managed_path(s: ShiftV) -> Option<Seq<char>> {
    match s {
        ShiftV::Dir { path } => Option::Some(path),
        ShiftV::File { path, .. } => Option::Some(path),
        ShiftV::Cmd { .. } => Option::None,
        ShiftV::Github { target_dir, .. } => Option::Some(target_dir),
    }
}

/// Does the shift's revert remove a whole tree rather than a single entry?
pub open spec fn dir_rooted(s: ShiftV) -> bool {
    s is Dir || s is Github
}

/// Nothing in the file tree sits at or below `p`.
pub open spec fn no_key_under(fs0: Map<Seq<char>, NodeV>, p: Seq<char>) -> bool {
    forall|k: Seq<char>| #[trigger] fs0.contains_key(k) ==> !covered(p, k)
}

/// The shift's managed path is untouched ground in the file tree `fs0`: the
/// path is absent, and — for a shift whose revert removes a whole tree —
/// nothing pre-existing sits below it either.
pub open spec fn fresh_one(s: ShiftV, fs0: Map<Seq<char>, NodeV>) -> bool {
    match managed_path(s) {
        Option::Some(p) => !fs0.contains_key(p) && (dir_rooted(s) ==> no_key_under(fs0, p)),
        Option::None => true,
    }
}

/// Every shift of the plan manages untouched ground in `fs0`.
pub open spec fn fresh_for(ss: Seq<ShiftV>, fs0: Map<Seq<char>, NodeV>) -> bool {
    forall|i: int| 0 <= i < ss.len() ==> #[trigger] fresh_one(ss[i], fs0)
}

/// Was the path `k` possibly created by one of the first `j` shifts?
pub open spec fn created_by(ss: Seq<ShiftV>, j: int, k: Seq<char>) -> bool {
    exists|i: int| 0 <= i < j && (#[trigger] managed_path(ss[i])) == Option::Some(k)
}

/// One shift's individual post-condition on the file tree after its apply
/// succeeded: the directory exists, the file exists with the given content,
/// a command demands nothing of the tree, the composite's target directory
/// exists.
pub open spec fn shift_done(s: ShiftV, fs: Map<Seq<char>, NodeV>) -> bool {
    match s {
        ShiftV::Dir { path } => fs.contains_key(path) && fs[path] is Dir,
        ShiftV::File { path, content } => fs.contains_key(path) && fs[path] == NodeV::File(
            content,
        ),
        ShiftV::Cmd { .. } => true,
        ShiftV::Github { target_dir, .. } => fs.contains_key(target_dir) && fs[target_dir] is Dir,
    }
}

/// How the file tree after the first `j` applies relates to the original
/// `fs0`: originals intact, every addition owned by one of those shifts, and
/// each of those shifts' post-conditions established.
pub open spec fn apply_ext(
    ss: Seq<ShiftV>,
    j: int,
    fs0: Map<Seq<char>, NodeV>,
    fs: Map<Seq<char>, NodeV>,
) -> bool {
    &&& forall|k: Seq<char>| #[trigger]
        fs0.contains_key(k) ==> fs.contains_key(k) && fs[k] == fs0[k]
    &&& forall|k: Seq<char>| #[trigger] fs.contains_key(k) ==> fs0.contains_key(k) || created_by(
        ss,
        j,
        k,
    )
    &&& forall|i: int| 0 <= i < j ==> #[trigger] shift_done(ss[i], fs)
}

proof fn lemma_apply_effect(ss: Seq<ShiftV>, w: WorldV, j: int)
    requires
        0 <= j <= ss.len(),
        fresh_for(ss, w.fs),
        applies_ok_upto(ss, j, w),
    ensures
        apply_ext(ss, j, w.fs, world_before(ss, j, w).fs),
    decreases j,
{
    if j > 0 {
        lemma_apply_effect(ss, w, j - 1);
        let wb = world_before(ss, j - 1, w);
        let st = apply_sem(ss[j - 1], wb);
        assert(apply_sem(ss[j - 1], world_before(ss, j - 1, w)).e is None);
        assert(fresh_one(ss[j - 1], w.fs));
        match ss[j - 1] {
            ShiftV::Dir { path } => {
                assert(managed_path(ss[j - 1]) == Option::Some(path));
                lemma_one_create(ss, w, j, wb.fs, st.w.fs, path, NodeV::Dir);
            },
            ShiftV::File { path, content } => {
                assert(managed_path(ss[j - 1]) == Option::Some(path));
                assert(!wb.fs.contains_key(path));
                lemma_one_create(ss, w, j, wb.fs, st.w.fs, path, NodeV::File(content));
            },
            ShiftV::Cmd { .. } => {
                assert(st.w.fs == wb.fs);
                lemma_ext_step_unchanged(ss, w, j, wb.fs);
            },
            ShiftV::Github { repo_url, target_dir, branch, depth, .. } => {
                let cs = clone_shifts_v(repo_url, target_dir, branch, depth);
                let st0 = apply_sem(cs[0], wb);
                assert(rollback_upto(cs, 0, st0.w) == st0.w);
                assert(st0.e is None) by {
                    if st0.e is Some {
                        assert(plan_apply_from(cs, 0, wb) == StepV {
                            w: rollback_upto(cs, 0, st0.w),
                            e: st0.e,
                        });
                    }
                }
                let st1 = apply_sem(cs[1], st0.w);
                assert(st1.e is None) by {
                    if st1.e is Some {
                        assert(plan_apply_from(cs, 1, st0.w) == StepV {
                            w: rollback_upto(cs, 1, st1.w),
                            e: st1.e,
                        });
                    }
                }
                assert(plan_apply_from(cs, 2, st1.w) == StepV { w: st1.w, e: Option::None });
                assert(st.w == st1.w);
                assert(st1.w.fs == st0.w.fs);
                assert(managed_path(ss[j - 1]) == Option::Some(target_dir));
                lemma_one_create(ss, w, j, wb.fs, st.w.fs, target_dir, NodeV::Dir);
            },
        }
    }
}

/// The inductive step where shift `j-1` leaves the tree unchanged.
proof fn lemma_ext_step_unchanged(ss: Seq<ShiftV>, w: WorldV, j: int, fs: Map<Seq<char>, NodeV>)
    requires
        0 < j <= ss.len(),
        apply_ext(ss, j - 1, w.fs, fs),
        shift_done(ss[j - 1], fs),
    ensures
        apply_ext(ss, j, w.fs, fs),
{
    assert forall|k: Seq<char>| #[trigger]
        fs.contains_key(k) implies w.fs.contains_key(k) || created_by(ss, j, k) by {
        if !w.fs.contains_key(k) {
            let i = choose|i: int|
                0 <= i < j - 1 && (#[trigger] managed_path(ss[i])) == Option::Some(k);
            assert(0 <= i < j && managed_path(ss[i]) == Option::Some(k));
        }
    }
}

/// The inductive step where shift `j-1`'s apply either found its directory in
/// place (no change) or inserted its node at an absent path.
proof fn lemma_one_create(
    ss: Seq<ShiftV>,
    w: WorldV,
    j: int,
    fs: Map<Seq<char>, NodeV>,
    fs2: Map<Seq<char>, NodeV>,
    path: Seq<char>,
    node: NodeV,
)
    requires
        0 < j <= ss.len(),
        apply_ext(ss, j - 1, w.fs, fs),
        managed_path(ss[j - 1]) == Option::Some(path),
        fs2 == fs || (!fs.contains_key(path) && fs2 == fs.insert(path, node)),
        shift_done(ss[j - 1], fs2),
    ensures
        apply_ext(ss, j, w.fs, fs2),
{
    if fs2 == fs {
        lemma_ext_step_unchanged(ss, w, j, fs);
    } else {
        assert forall|k: Seq<char>| #[trigger]
            fs2.contains_key(k) implies w.fs.contains_key(k) || created_by(ss, j, k) by {
            if k == path {
                assert(0 <= j - 1 < j && managed_path(ss[j - 1]) == Option::Some(k));
            } else if !w.fs.contains_key(k) {
                assert(fs.contains_key(k));
                let i = choose|i: int|
                    0 <= i < j - 1 && (#[trigger] managed_path(ss[i])) == Option::Some(k);
                assert(0 <= i < j && managed_path(ss[i]) == Option::Some(k));
            }
        }
        assert forall|i: int| 0 <= i < j implies #[trigger] shift_done(ss[i], fs2) by {
            if i < j - 1 {
                assert(shift_done(ss[i], fs));
            }
        }
    }
}

/// How the file tree during revert relates to the original `fs0` and to the
/// tree `fsa` at the end of apply, once every shift with index `j` or above
/// has been reverted: still a restriction of `fsa`, originals intact, and
/// every remaining addition owned by a not-yet-reverted shift.
pub open spec fn revert_ext(
    ss: Seq<ShiftV>,
    j: int,
    fs0: Map<Seq<char>, NodeV>,
    fsa: Map<Seq<char>, NodeV>,
    fs: Map<Seq<char>, NodeV>,
) -> bool {
    &&& forall|k: Seq<char>| #[trigger]
        fs.contains_key(k) ==> fsa.contains_key(k) && fs[k] == fsa[k]
    &&& forall|k: Seq<char>| #[trigger]
        fs0.contains_key(k) ==> fs.contains_key(k) && fs[k] == fs0[k]
    &&& forall|k: Seq<char>| #[trigger]
        fs.contains_key(k) && !fs0.contains_key(k) ==> created_by(ss, j, k)
}

/// The revert step where the reverted shift removes (at most) the tree at its
/// managed path.
proof fn lemma_one_remove(
    ss: Seq<ShiftV>,
    j: int,
    fs0: Map<Seq<char>, NodeV>,
    fsa: Map<Seq<char>, NodeV>,
    fs: Map<Seq<char>, NodeV>,
    fs2: Map<Seq<char>, NodeV>,
    path: Seq<char>,
)
    requires
        0 <= j < ss.len(),
        revert_ext(ss, j + 1, fs0, fsa, fs),
        managed_path(ss[j]) == Option::Some(path),
        fresh_one(ss[j], fs0),
        (!fs.contains_key(path) && fs2 == fs) || (dir_rooted(ss[j]) && fs2 == crate::model::prune(
            fs,
            path,
        )) || (!dir_rooted(ss[j]) && fs2 == fs.remove(path)),
    ensures
        revert_ext(ss, j, fs0, fsa, fs2),
{
    assert forall|k: Seq<char>| #[trigger]
        fs0.contains_key(k) implies fs2.contains_key(k) && fs2[k] == fs0[k] by {
        assert(fs.contains_key(k) && fs[k] == fs0[k]);
        assert(k != path);
        if dir_rooted(ss[j]) {
            assert(!covered(path, k));
        }
    }
    assert forall|k: Seq<char>| #[trigger]
        fs2.contains_key(k) && !fs0.contains_key(k) implies created_by(ss, j, k) by {
        assert(fs.contains_key(k));
        assert(created_by(ss, j + 1, k));
        let i = choose|i: int|
            0 <= i < j + 1 && (#[trigger] managed_path(ss[i])) == Option::Some(k);
        if i == j {
            assert(k == path);
            if dir_rooted(ss[j]) && fs2 == crate::model::prune(fs, path) {
                assert(covered(path, path));
                assert(!fs2.contains_key(k));
            } else if !fs.contains_key(path) {
                assert(!fs2.contains_key(k));
            } else {
                assert(!fs2.contains_key(k));
            }
        } else {
            assert(0 <= i < j && managed_path(ss[i]) == Option::Some(k));
        }
    }
}

proof fn lemma_revert_effect(ss: Seq<ShiftV>, w: WorldV, j: int)
    requires
        0 <= j <= ss.len(),
        fresh_for(ss, w.fs),
        applies_ok_upto(ss, ss.len() as int, w),
    ensures
        revert_ext(
            ss,
            j,
            w.fs,
            world_before(ss, ss.len() as int, w).fs,
            world_down(ss, j, world_before(ss, ss.len() as int, w)).fs,
        ),
    decreases ss.len() - j,
{
    let wa = world_before(ss, ss.len() as int, w);
    lemma_apply_effect(ss, w, ss.len() as int);
    if j == ss.len() {
        assert(world_down(ss, j, wa) == wa);
        assert forall|k: Seq<char>| #[trigger]
            wa.fs.contains_key(k) && !w.fs.contains_key(k) implies created_by(ss, j, k) by {}
    } else {
        lemma_revert_effect(ss, w, j + 1);
        let cur = world_down(ss, j + 1, wa);
        let st = revert_sem(ss[j], cur);
        assert(world_down(ss, j, wa) == st.w);
        assert(fresh_one(ss[j], w.fs));
        assert(shift_done(ss[j], wa.fs));
        match ss[j] {
            ShiftV::Dir { path } => {
                if cur.fs.contains_key(path) {
                    assert(cur.fs[path] == wa.fs[path]);
                    assert(cur.fs[path] is Dir);
                    assert(st.w.fs == crate::model::prune(cur.fs, path));
                }
                lemma_one_remove(ss, j, w.fs, wa.fs, cur.fs, st.w.fs, path);
            },
            ShiftV::File { path, content } => {
                if cur.fs.contains_key(path) {
                    assert(cur.fs[path] == wa.fs[path]);
                    assert(cur.fs[path] is File);
                    assert(st.w.fs == cur.fs.remove(path));
                }
                lemma_one_remove(ss, j, w.fs, wa.fs, cur.fs, st.w.fs, path);
            },
            ShiftV::Cmd { .. } => {
                assert(st.w.fs == cur.fs);
                assert forall|k: Seq<char>| #[trigger]
                    st.w.fs.contains_key(k) && !w.fs.contains_key(k) implies created_by(
                    ss,
                    j,
                    k,
                ) by {
                    assert(created_by(ss, j + 1, k));
                    let i = choose|i: int|
                        0 <= i < j + 1 && (#[trigger] managed_path(ss[i])) == Option::Some(k);
                    assert(i != j);
                }
            },
            ShiftV::Github { repo_url, target_dir, branch, depth, .. } => {
                let cs = clone_shifts_v(repo_url, target_dir, branch, depth);
                let rr = plan_revert_from(cs, 2, cur);
                let stc = revert_sem(cs[1], cur);
                assert(stc.w == cur);
                let std0 = revert_sem(cs[0], cur);
                assert(plan_revert_from(cs, 0, std0.w) == RevertRunV {
                    w: std0.w,
                    failures: Seq::empty(),
                });
                let rest = plan_revert_from(cs, 1, stc.w);
                assert(rr.w == rest.w);
                assert(revert_sem(cs[0], stc.w) == std0);
                assert(rest.w == plan_revert_from(cs, 0, std0.w).w);
                assert(rr.w == std0.w);
                if cur.fs.contains_key(target_dir) {
                    assert(cur.fs[target_dir] == wa.fs[target_dir]);
                    assert(cur.fs[target_dir] is Dir);
                    assert(std0.w.fs == crate::model::prune(cur.fs, target_dir));
                }
                assert(st.w == rr.w);
                lemma_one_remove(ss, j, w.fs, wa.fs, cur.fs, st.w.fs, target_dir);
            },
        }
    }
}

/// The round trip. For a plan whose shifts all manage untouched ground and
/// whose applies all succeed: the plan apply succeeds, its post-state
/// satisfies the conjunction of each shift's individual post-condition in
/// sequence order, and a subsequent plan revert returns the file tree exactly
/// to its pre-apply state. (The record of executed commands is not a managed
/// resource: command execution is precisely the variant with no meaningful
/// undo.)
pub proof fn lemma_apply_then_revert_round_trip(ss: Seq<ShiftV>, w: WorldV)
    requires
        fresh_for(ss, w.fs),
        applies_ok_upto(ss, ss.len() as int, w),
    ensures
        plan_apply_from(ss, 0, w).e is None,
        forall|i: int|
            0 <= i < ss.len() ==> #[trigger] shift_done(ss[i], plan_apply_from(ss, 0, w).w.fs),
        plan_revert_from(ss, ss.len() as int, plan_apply_from(ss, 0, w).w).w.fs == w.fs,
{
    lemma_apply_all_succeed(ss, w);
    lemma_apply_effect(ss, w, ss.len() as int);
    let wa = world_before(ss, ss.len() as int, w);
    lemma_revert_best_effort(ss, wa);
    lemma_revert_effect(ss, w, 0);
    let fs_end = world_down(ss, 0, wa).fs;
    assert forall|k: Seq<char>| #[trigger] fs_end.contains_key(k) implies w.fs.contains_key(k)
        && fs_end[k] == w.fs[k] by {
        if !w.fs.contains_key(k) {
            assert(created_by(ss, 0, k));
        }
    }
    assert(fs_end =~= w.fs);
}

} // verus!
