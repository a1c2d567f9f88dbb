//! The mathematical model of the engine: ghost views of the world, of the
//! error taxonomy and of every shift, together with the specification
//! functions that define what applying and reverting a shift or a plan means.
//!
//! Executable code in the other modules carries contracts stated over these
//! definitions, so the whole orchestration algorithm — sequencing, compensating
//! rollback in reverse order, and best-effort revert with failure
//! aggregation — is pinned down here in one place.
use vstd::prelude::*;

verus! {

/// One entry of the modelled file tree: a directory, or a file with its
/// textual content.
pub enum NodeV {
    Dir,
    File(Seq<char>),
}

/// The modelled outcome of one external command invocation: the process could
/// not be launched, or it finished with an exit code (absent when the process
/// was terminated by a signal) and captured standard-error text.
pub enum CmdOutcomeV {
    LaunchFailure(Seq<char>),
    Finished(Option<int>, Seq<char>),
}

/// The record of one attempted command invocation.
#[verifier::ext_equal]
pub struct RunV {
    pub program: Seq<char>,
    pub args: Seq<Seq<char>>,
    pub working_dir: Option<Seq<char>>,
}

/// The view of the ambient state a plan reads and mutates: the file tree,
/// the outcomes still pending for future command invocations, and the record
/// of command invocations attempted so far.
#[verifier::ext_equal]
pub struct WorldV {
    pub fs: Map<Seq<char>, NodeV>,
    pub pending: Seq<CmdOutcomeV>,
    pub runs: Seq<RunV>,
}

/// The view of a single shift failure.
pub enum ErrV {
    Io(Seq<char>),
    Command(Seq<char>),
    Validation(Seq<char>),
    AlreadyExists(Seq<char>),
    NotFound(Seq<char>),
    Custom(Seq<char>),
}

/// The view of one shift.
pub enum ShiftV {
    Dir { path: Seq<char> },
    File { path: Seq<char>, content: Seq<char> },
    Cmd {
        program: Seq<char>,
        args: Seq<Seq<char>>,
        working_dir: Option<Seq<char>>,
        ok_codes: Seq<int>,
    },
    Github {
        repo_url: Seq<char>,
        target_dir: Seq<char>,
        branch: Option<Seq<char>>,
        depth: Option<int>,
        auth_token: Option<Seq<char>>,
    },
}

/// The view of a plan: identifying metadata and the ordered shift sequence.
#[verifier::ext_equal]
pub struct PlanV {
    pub name: Seq<char>,
    pub description: Seq<char>,
    pub shifts: Seq<ShiftV>,
}

/// The result of one apply or revert step: the world afterwards, and the
/// failure if the step failed.
#[verifier::ext_equal]
pub struct StepV {
    pub w: WorldV,
    pub e: Option<ErrV>,
}

/// The result of reverting a whole plan: the world afterwards, and one
/// (description, failure) pair for every shift whose revert failed, in the
/// order the reverts were attempted.
#[verifier::ext_equal]
pub struct RevertRunV {
    pub w: WorldV,
    pub failures: Seq<(Seq<char>, ErrV)>,
}

// ---------------------------------------------------------------------------
// Paths
// ---------------------------------------------------------------------------

/// Does removing the tree rooted at `root` take the path `k` with it?
/// It does when `k` is `root` itself or lies strictly below it.
pub open spec fn covered(root: Seq<char>, k: Seq<char>) -> bool {
    k == root || (k.len() > root.len() && k.subrange(0, root.len() as int) == root && k[root.len() as int] == '/')
}

/// The file tree after removing the whole tree rooted at `root`.
pub open spec fn prune(m: Map<Seq<char>, NodeV>, root: Seq<char>) -> Map<Seq<char>, NodeV> {
    Map::new(|k: Seq<char>| m.contains_key(k) && !covered(root, k), |k: Seq<char>| m[k])
}

// ---------------------------------------------------------------------------
// Rendered text: decimal numbers, argument lists, failure messages
// ---------------------------------------------------------------------------

/// The decimal digit character for `d` (meaningful for `d < 10`).
pub open spec fn digit_char(d: nat) -> char {
    if d == 0 { '0' }
    else if d == 1 { '1' }
    else if d == 2 { '2' }
    else if d == 3 { '3' }
    else if d == 4 { '4' }
    else if d == 5 { '5' }
    else if d == 6 { '6' }
    else if d == 7 { '7' }
    else if d == 8 { '8' }
    else if d == 9 { '9' }
    else { '?' }
}

/// The decimal rendering of a natural number, without sign or padding.
pub open spec fn dec_rep(n: nat) -> Seq<char>
    decreases n,
{
    if n < 10 {
        seq![digit_char(n)]
    } else {
        dec_rep(n / 10).push(digit_char(n % 10))
    }
}

/// The decimal rendering of an integer, with a leading minus sign when
/// negative.
pub open spec fn int_dec(i: int) -> Seq<char> {
    if i < 0 {
        seq!['-'] + dec_rep((-i) as nat)
    } else {
        dec_rep(i as nat)
    }
}

/// How an optional exit code is rendered in a failure message.
pub open spec fn opt_code_text(code: Option<int>) -> Seq<char> {
    match code {
        Option::Some(c) => "Some("@ + int_dec(c) + ")"@,
        Option::None => "None"@,
    }
}

/// One argument, rendered between double quotes.
pub open spec fn quoted(s: Seq<char>) -> Seq<char> {
    seq!['"'] + s + seq!['"']
}

/// The arguments rendered as a comma-separated list of quoted items.
pub open spec fn args_items(args: Seq<Seq<char>>) -> Seq<char>
    decreases args.len(),
{
    if args.len() == 0 {
        Seq::empty()
    } else if args.len() == 1 {
        quoted(args[0])
    } else {
        args_items(args.drop_last()) + ", "@ + quoted(args.last())
    }
}

/// The arguments rendered as a bracketed list.
pub open spec fn args_text(args: Seq<Seq<char>>) -> Seq<char> {
    seq!['['] + args_items(args) + seq![']']
}

/// The descriptions joined with comma separators, for the message of a
/// folded aggregate failure.
pub open spec fn joined(items: Seq<Seq<char>>) -> Seq<char>
    decreases items.len(),
{
    if items.len() == 0 {
        Seq::empty()
    } else if items.len() == 1 {
        items[0]
    } else {
        joined(items.drop_last()) + ", "@ + items.last()
    }
}

pub open spec fn dir_wrong_kind_msg(path: Seq<char>) -> Seq<char> {
    "Path "@ + path + " exists but is not a directory"@
}

pub open spec fn dir_not_dir_msg(path: Seq<char>) -> Seq<char> {
    "Path "@ + path + " is not a directory"@
}

pub open spec fn file_exists_msg(path: Seq<char>) -> Seq<char> {
    "File "@ + path + " already exists"@
}

pub open spec fn file_not_file_msg(path: Seq<char>) -> Seq<char> {
    "Path "@ + path + " is not a file"@
}

pub open spec fn launch_exhausted_msg() -> Seq<char> {
    "process could not be launched"@
}

pub open spec fn cmd_failed_msg(program: Seq<char>, code: Option<int>, stderr: Seq<char>) -> Seq<char> {
    "Command '"@ + program + "' failed with exit code "@ + opt_code_text(code) + ". Stderr: "@ + stderr
}

pub open spec fn cmd_revert_msg() -> Seq<char> {
    "Cannot automatically revert a command execution"@
}

pub open spec fn cmd_check_msg() -> Seq<char> {
    "Cannot check if a command has been applied"@
}

pub open spec fn aggregate_msg(descriptions: Seq<Seq<char>>) -> Seq<char> {
    "Failed to revert some shifts: "@ + joined(descriptions)
}

// ---------------------------------------------------------------------------
// The repository name derived from a URL
// ---------------------------------------------------------------------------

/// The index of the last `/` in `s`, or `-1` when there is none.
pub open spec fn last_slash_at(s: Seq<char>) -> int
    decreases s.len(),
{
    if s.len() == 0 {
        -1
    } else if s.last() == '/' {
        s.len() - 1
    } else {
        last_slash_at(s.drop_last())
    }
}

/// The final path segment of a URL: everything after the last `/`.
pub open spec fn tail_segment(s: Seq<char>) -> Seq<char> {
    s.subrange(last_slash_at(s) + 1, s.len() as int)
}

/// `t` without a trailing `.git`, when it carries one.
pub open spec fn strip_git_suffix(t: Seq<char>) -> Seq<char> {
    if t.len() >= 4 && t.subrange(t.len() - 4, t.len() as int) == ".git"@ {
        t.subrange(0, t.len() - 4)
    } else {
        t
    }
}

/// The human-readable repository name derived from a URL: its final path
/// segment, stripped of a trailing `.git` suffix if present.
pub open spec fn repo_name_of(url: Seq<char>) -> Seq<char> {
    strip_git_suffix(tail_segment(url))
}

// ---------------------------------------------------------------------------
// The plan a composite clone shift builds
// ---------------------------------------------------------------------------

/// The argument list of the clone command a composite clone shift runs.
pub open spec fn clone_args_v(
    repo_url: Seq<char>,
    target_dir: Seq<char>,
    branch: Option<Seq<char>>,
    depth: Option<int>,
) -> Seq<Seq<char>> {
    seq!["clone"@, repo_url]
        + (match branch {
            Option::Some(b) => seq!["--branch"@, b],
            Option::None => Seq::empty(),
        })
        + (match depth {
            Option::Some(d) => seq!["--depth"@, dec_rep(d as nat)],
            Option::None => Seq::empty(),
        })
        + seq![target_dir]
}

/// The shifts of the plan a composite clone shift builds: create the target
/// directory, then run the clone command inside it.
pub open spec fn clone_shifts_v(
    repo_url: Seq<char>,
    target_dir: Seq<char>,
    branch: Option<Seq<char>>,
    depth: Option<int>,
) -> Seq<ShiftV> {
    seq![
        ShiftV::Dir { path: target_dir },
        ShiftV::Cmd {
            program: "git"@,
            args: clone_args_v(repo_url, target_dir, branch, depth),
            working_dir: Option::Some(target_dir),
            ok_codes: seq![0int],
        },
    ]
}

pub open spec fn clone_plan_name_v(repo_url: Seq<char>) -> Seq<char> {
    "Clone GitHub repository "@ + repo_name_of(repo_url)
}

pub open spec fn clone_desc_v(repo_url: Seq<char>, target_dir: Seq<char>) -> Seq<char> {
    "Clone GitHub repository "@ + repo_name_of(repo_url) + " into directory "@ + target_dir
}

/// The view of the plan a composite clone shift builds on demand.
pub open spec fn clone_plan_v(
    repo_url: Seq<char>,
    target_dir: Seq<char>,
    branch: Option<Seq<char>>,
    depth: Option<int>,
) -> PlanV {
    PlanV {
        name: clone_plan_name_v(repo_url),
        description: clone_desc_v(repo_url, target_dir),
        shifts: clone_shifts_v(repo_url, target_dir, branch, depth),
    }
}

// ---------------------------------------------------------------------------
// Descriptions
// ---------------------------------------------------------------------------

/// The stable human-readable description of a shift. It has no side effects
/// and does not depend on execution order.
pub open spec fn desc_v(s: ShiftV) -> Seq<char> {
    match s {
        ShiftV::Dir { path } => "Create directory at "@ + path,
        ShiftV::File { path, content } => "Create file at "@ + path + " with specific content"@,
        ShiftV::Cmd { program, args, working_dir, ok_codes } => {
            "Execute command '"@ + program + "' with args "@ + args_text(args)
                + (match working_dir {
                    Option::Some(d) => " in directory "@ + d,
                    Option::None => Seq::empty(),
                })
        },
        ShiftV::Github { repo_url, target_dir, .. } => clone_desc_v(repo_url, target_dir),
    }
}

// ---------------------------------------------------------------------------
// Apply and revert semantics
// ---------------------------------------------------------------------------

/// The termination rank of one shift: a composite sits above the leaves it
/// delegates to.
pub open spec fn srank(s: ShiftV) -> nat {
    match s {
        ShiftV::Github { .. } => 2,
        _ => 0,
    }
}

/// The termination rank of a shift sequence: above every rank its members can
/// have.
pub open spec fn seq_rank(ss: Seq<ShiftV>) -> nat {
    if exists|i: int| 0 <= i < ss.len() && #[trigger] srank(ss[i]) != 0 {
        3
    } else {
        1
    }
}

/// What applying one shift to the world `w` does: the world afterwards and
/// the failure, if any. A composite delegates to the full plan-apply
/// algorithm, nested rollback included.
pub open spec fn apply_sem(s: ShiftV, w: WorldV) -> StepV
    decreases srank(s), 2int, 0int,
{
    match s {
        ShiftV::Dir { path } => {
            if w.fs.contains_key(path) {
                if w.fs[path] is Dir {
                    StepV { w, e: Option::None }
                } else {
                    StepV { w, e: Option::Some(ErrV::AlreadyExists(dir_wrong_kind_msg(path))) }
                }
            } else {
                StepV {
                    w: WorldV { fs: w.fs.insert(path, NodeV::Dir), ..w },
                    e: Option::None,
                }
            }
        },
        ShiftV::File { path, content } => {
            if w.fs.contains_key(path) {
                StepV { w, e: Option::Some(ErrV::AlreadyExists(file_exists_msg(path))) }
            } else {
                StepV {
                    w: WorldV { fs: w.fs.insert(path, NodeV::File(content)), ..w },
                    e: Option::None,
                }
            }
        },
        ShiftV::Cmd { program, args, working_dir, ok_codes } => {
            let w2 = WorldV {
                pending: if w.pending.len() > 0 {
                    w.pending.subrange(1, w.pending.len() as int)
                } else {
                    w.pending
                },
                runs: w.runs.push(RunV { program, args, working_dir }),
                ..w
            };
            if w.pending.len() == 0 {
                StepV { w: w2, e: Option::Some(ErrV::Io(launch_exhausted_msg())) }
            } else {
                match w.pending[0] {
                    CmdOutcomeV::LaunchFailure(m) => {
                        StepV { w: w2, e: Option::Some(ErrV::Io(m)) }
                    },
                    CmdOutcomeV::Finished(code, stderr) => {
                        let c = match code {
                            Option::Some(c0) => c0,
                            Option::None => -1,
                        };
                        if ok_codes.contains(c) {
                            StepV { w: w2, e: Option::None }
                        } else {
                            StepV {
                                w: w2,
                                e: Option::Some(ErrV::Command(cmd_failed_msg(program, code, stderr))),
                            }
                        }
                    },
                }
            }
        },
        ShiftV::Github { repo_url, target_dir, branch, depth, .. } => {
            plan_apply_from(clone_shifts_v(repo_url, target_dir, branch, depth), 0, w)
        },
    }
}

/// What reverting one shift does. Reverting a command execution always fails;
/// a composite delegates to the full plan-revert algorithm and folds its
/// aggregate failure, if any, into one custom failure naming every failed
/// shift's description.
pub open spec fn revert_sem(s: ShiftV, w: WorldV) -> StepV
    decreases srank(s), 2int, 0int,
{
    match s {
        ShiftV::Dir { path } => {
            if !w.fs.contains_key(path) {
                StepV { w, e: Option::None }
            } else if !(w.fs[path] is Dir) {
                StepV { w, e: Option::Some(ErrV::Validation(dir_not_dir_msg(path))) }
            } else {
                StepV { w: WorldV { fs: prune(w.fs, path), ..w }, e: Option::None }
            }
        },
        ShiftV::File { path, .. } => {
            if !w.fs.contains_key(path) {
                StepV { w, e: Option::None }
            } else if !(w.fs[path] is File) {
                StepV { w, e: Option::Some(ErrV::Validation(file_not_file_msg(path))) }
            } else {
                StepV { w: WorldV { fs: w.fs.remove(path), ..w }, e: Option::None }
            }
        },
        ShiftV::Cmd { .. } => StepV { w, e: Option::Some(ErrV::Custom(cmd_revert_msg())) },
        ShiftV::Github { repo_url, target_dir, branch, depth, .. } => {
            let rr = plan_revert_from(
                clone_shifts_v(repo_url, target_dir, branch, depth),
                clone_shifts_v(repo_url, target_dir, branch, depth).len() as int,
                w,
            );
            if rr.failures.len() == 0 {
                StepV { w: rr.w, e: Option::None }
            } else {
                StepV {
                    w: rr.w,
                    e: Option::Some(ErrV::Custom(aggregate_msg(
                        rr.failures.map_values(|f: (Seq<char>, ErrV)| f.0),
                    ))),
                }
            }
        },
    }
}

/// What observing whether one shift is applied returns. It never changes the
/// world; command execution has no checkable state and fails; a composite
/// checks only its primary target.
pub open spec fn is_applied_sem(s: ShiftV, w: WorldV) -> Result<bool, ErrV> {
    match s {
        ShiftV::Dir { path } => Result::Ok(w.fs.contains_key(path) && w.fs[path] is Dir),
        ShiftV::File { path, .. } => Result::Ok(w.fs.contains_key(path) && w.fs[path] is File),
        ShiftV::Cmd { .. } => Result::Err(ErrV::Custom(cmd_check_msg())),
        ShiftV::Github { target_dir, .. } => {
            Result::Ok(w.fs.contains_key(target_dir) && w.fs[target_dir] is Dir)
        },
    }
}

/// The compensating rollback after a failed apply: revert the applied prefix
/// `shifts[0..j]` in strictly reverse order — `j-1`, `j-2`, ..., `0` — each
/// shift exactly once, whatever each individual revert returns.
pub open spec fn rollback_upto(ss: Seq<ShiftV>, j: int, w: WorldV) -> WorldV
    decreases seq_rank(ss), 0int, j,
{
    if j <= 0 || j > ss.len() {
        w
    } else {
        rollback_upto(ss, j - 1, revert_sem(ss[j - 1], w).w)
    }
}

/// The plan-apply algorithm from position `i`: apply each shift in sequence
/// order; on the first failure, roll the applied prefix back in reverse order
/// and surface the original triggering failure, never a rollback failure.
pub open spec fn plan_apply_from(ss: Seq<ShiftV>, i: int, w: WorldV) -> StepV
    decreases seq_rank(ss), 1int, ss.len() - i,
{
    if i < 0 || i >= ss.len() {
        StepV { w, e: Option::None }
    } else {
        let st = apply_sem(ss[i], w);
        if st.e is None {
            plan_apply_from(ss, i + 1, st.w)
        } else {
            StepV { w: rollback_upto(ss, i, st.w), e: st.e }
        }
    }
}

/// The plan-revert algorithm over `shifts[0..j]`: revert in strictly reverse
/// order, attempting every shift exactly once whatever the earlier reverts
/// returned, and accumulate one (description, failure) pair per failed revert
/// in the order the reverts were attempted.
pub open spec fn plan_revert_from(ss: Seq<ShiftV>, j: int, w: WorldV) -> RevertRunV
    decreases seq_rank(ss), 1int, j,
{
    if j <= 0 || j > ss.len() {
        RevertRunV { w, failures: Seq::empty() }
    } else {
        let st = revert_sem(ss[j - 1], w);
        let rest = plan_revert_from(ss, j - 1, st.w);
        RevertRunV {
            w: rest.w,
            failures: (match st.e {
                Option::Some(e) => seq![(desc_v(ss[j - 1]), e)],
                Option::None => Seq::empty(),
            }) + rest.failures,
        }
    }
}

} // verus!
