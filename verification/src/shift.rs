//! The shift capability: every action supports apply, revert, is-applied and
//! describe. The leaf variants create a directory, create a file, or execute
//! an external command; the composite variant delegates to an internally
//! built plan.
//!
//! Every method's contract equals the corresponding specification function of
//! [`crate::model`], so a plan can reason about its shifts without inspecting
//! their internals.
use vstd::prelude::*;

use crate::errors::{check_view, res_err_view, ShiftError};
use crate::github::GitHubClone;
use crate::model::{
    apply_sem, cmd_check_msg, cmd_failed_msg, cmd_revert_msg, desc_v, dir_not_dir_msg,
    dir_wrong_kind_msg, file_exists_msg, file_not_file_msg, is_applied_sem, launch_exhausted_msg,
    revert_sem, srank, ShiftV,
};
use crate::text::push_i32_dec;
use crate::world::{clone_strings, CmdOutcome, FsNode, World};

verus! {

/// A shift that creates one directory level if absent.
pub struct CreateDir {
    pub path: String,
}

impl View for CreateDir {
    type V = ShiftV;

    open spec fn view(&self) -> ShiftV {
        ShiftV::Dir { path: self.path@ }
    }
}

impl CreateDir {
    pub fn new(path: String) -> (s: Self)
        ensures
            s == (CreateDir { path }),
    {
        CreateDir { path }
    }

    /// Ensures the directory exists: succeeds when the path is absent (the
    /// directory is created) or already a directory; fails when the path
    /// exists with another kind.
    pub fn apply(&self, w: &mut World) -> (r: Result<(), ShiftError>)
        requires
            old(w).wf(),
        ensures
            final(w).wf(),
            final(w)@ == apply_sem(self@, old(w)@).w,
            res_err_view(r) == apply_sem(self@, old(w)@).e,
    {
        match w.node_at(&self.path) {
            Option::Some(n) => match n {
                FsNode::Dir => Result::Ok(()),
                FsNode::File(_) => {
                    let mut m = String::new();
                    m.append("Path ");
                    m.append(self.path.as_str());
                    m.append(" exists but is not a directory");
                    proof {
                        assert(m@ =~= dir_wrong_kind_msg(self.path@));
                    }
                    Result::Err(ShiftError::AlreadyExists(m))
                },
            },
            Option::None => {
                w.insert_node(&self.path, FsNode::Dir);
                proof {
                    assert(w@ =~= apply_sem(self@, old(w)@).w);
                }
                Result::Ok(())
            },
        }
    }

    /// Undoes the creation: removes the whole tree at the path if it is a
    /// directory, does nothing if the path is absent, and fails when the path
    /// exists with another kind.
    pub fn revert(&self, w: &mut World) -> (r: Result<(), ShiftError>)
        requires
            old(w).wf(),
        ensures
            final(w).wf(),
            final(w)@ == revert_sem(self@, old(w)@).w,
            res_err_view(r) == revert_sem(self@, old(w)@).e,
    {
        match w.node_at(&self.path) {
            Option::None => Result::Ok(()),
            Option::Some(n) => match n {
                FsNode::Dir => {
                    w.remove_tree(&self.path);
                    proof {
                        assert(w@ =~= revert_sem(self@, old(w)@).w);
                    }
                    Result::Ok(())
                },
                FsNode::File(_) => {
                    let mut m = String::new();
                    m.append("Path ");
                    m.append(self.path.as_str());
                    m.append(" is not a directory");
                    proof {
                        assert(m@ =~= dir_not_dir_msg(self.path@));
                    }
                    Result::Err(ShiftError::ValidationFailed(m))
                },
            },
        }
    }

    /// Reports whether the path currently exists as a directory. Never
    /// changes the world.
    pub fn is_applied(&self, w: &World) -> (r: Result<bool, ShiftError>)
        requires
            w.wf(),
        ensures
            check_view(r) == is_applied_sem(self@, w@),
    {
        match w.node_at(&self.path) {
            Option::Some(n) => match n {
                FsNode::Dir => Result::Ok(true),
                FsNode::File(_) => Result::Ok(false),
            },
            Option::None => Result::Ok(false),
        }
    }

    /// A stable human-readable summary; side-effect free.
    pub fn describe(&self) -> (r: String)
        ensures
            r@ == desc_v(self@),
    {
        let mut m = String::new();
        m.append("Create directory at ");
        m.append(self.path.as_str());
        proof {
            assert(m@ =~= desc_v(self@));
        }
        m
    }
}

/// A shift that creates a file with specific content.
pub struct CreateFile {
    pub path: String,
    pub content: String,
}

impl View for CreateFile {
    type V = ShiftV;

    open spec fn view(&self) -> ShiftV {
        ShiftV::File { path: self.path@, content: self.content@ }
    }
}

impl CreateFile {
    pub fn new(path: String, content: String) -> (s: Self)
        ensures
            s == (CreateFile { path, content }),
    {
        CreateFile { path, content }
    }

    /// Writes the file: succeeds only when the path is absent; an existing
    /// path is always a failure, even with byte-identical content.
    pub fn apply(&self, w: &mut World) -> (r: Result<(), ShiftError>)
        requires
            old(w).wf(),
        ensures
            final(w).wf(),
            final(w)@ == apply_sem(self@, old(w)@).w,
            res_err_view(r) == apply_sem(self@, old(w)@).e,
    {
        match w.node_at(&self.path) {
            Option::Some(_) => {
                let mut m = String::new();
                m.append("File ");
                m.append(self.path.as_str());
                m.append(" already exists");
                proof {
                    assert(m@ =~= file_exists_msg(self.path@));
                }
                Result::Err(ShiftError::AlreadyExists(m))
            },
            Option::None => {
                w.insert_node(&self.path, FsNode::File(self.content.clone()));
                proof {
                    assert(w@ =~= apply_sem(self@, old(w)@).w);
                }
                Result::Ok(())
            },
        }
    }

    /// Undoes the creation: removes the path if it is a file, does nothing if
    /// it is absent, and fails when the path exists with another kind.
    pub fn revert(&self, w: &mut World) -> (r: Result<(), ShiftError>)
        requires
            old(w).wf(),
        ensures
            final(w).wf(),
            final(w)@ == revert_sem(self@, old(w)@).w,
            res_err_view(r) == revert_sem(self@, old(w)@).e,
    {
        match w.node_at(&self.path) {
            Option::None => Result::Ok(()),
            Option::Some(n) => match n {
                FsNode::File(_) => {
                    w.remove_entry(&self.path);
                    proof {
                        assert(w@ =~= revert_sem(self@, old(w)@).w);
                    }
                    Result::Ok(())
                },
                FsNode::Dir => {
                    let mut m = String::new();
                    m.append("Path ");
                    m.append(self.path.as_str());
                    m.append(" is not a file");
                    proof {
                        assert(m@ =~= file_not_file_msg(self.path@));
                    }
                    Result::Err(ShiftError::ValidationFailed(m))
                },
            },
        }
    }

    /// Reports whether the path currently exists as a regular file. Never
    /// changes the world.
    pub fn is_applied(&self, w: &World) -> (r: Result<bool, ShiftError>)
        requires
            w.wf(),
        ensures
            check_view(r) == is_applied_sem(self@, w@),
    {
        match w.node_at(&self.path) {
            Option::Some(n) => match n {
                FsNode::File(_) => Result::Ok(true),
                FsNode::Dir => Result::Ok(false),
            },
            Option::None => Result::Ok(false),
        }
    }

    /// A stable human-readable summary; side-effect free.
    pub fn describe(&self) -> (r: String)
        ensures
            r@ == desc_v(self@),
    {
        let mut m = String::new();
        m.append("Create file at ");
        m.append(self.path.as_str());
        m.append(" with specific content");
        proof {
            assert(m@ =~= desc_v(self@));
        }
        m
    }
}

/// A shift that executes an external command and accepts a configured set of
/// exit codes as success (by default only zero).
pub struct Cmd {
    pub command: String,
    pub args: Vec<String>,
    pub working_dir: Option<String>,
    pub success_exit_codes: Vec<i32>,
}

impl View for Cmd {
    type V = ShiftV;

    open spec fn view(&self) -> ShiftV {
        ShiftV::Cmd {
            program: self.command@,
            args: Seq::new(self.args@.len(), |i: int| self.args@[i]@),
            working_dir: match self.working_dir {
                Option::Some(d) => Option::Some(d@),
                Option::None => Option::None,
            },
            ok_codes: Seq::new(
                self.success_exit_codes@.len(),
                |i: int| self.success_exit_codes@[i] as int,
            ),
        }
    }
}

impl Cmd {
    pub fn new(
        command: String,
        args: Vec<String>,
        working_dir: Option<String>,
        success_exit_codes: Option<Vec<i32>>,
    ) -> (s: Self)
        ensures
            s.command == command,
            s.args == args,
            s.working_dir == working_dir,
            match success_exit_codes {
                Option::Some(v) => s.success_exit_codes == v,
                Option::None => s.success_exit_codes@.len() == 1 && s.success_exit_codes@[0]
                    == 0i32,
            },
    {
        let codes = match success_exit_codes {
            Option::Some(v) => v,
            Option::None => {
                let mut d: Vec<i32> = Vec::new();
                d.push(0i32);
                d
            },
        };
        Cmd { command, args, working_dir, success_exit_codes: codes }
    }

    /// Runs the external program and waits for it. Success means the process
    /// launched and exited with an accepted code; otherwise the failure
    /// carries the exit code and the captured standard-error text. Execution
    /// is not idempotent: every call consumes one more invocation.
    pub fn apply(&self, w: &mut World) -> (r: Result<(), ShiftError>)
        requires
            old(w).wf(),
        ensures
            final(w).wf(),
            final(w)@ == apply_sem(self@, old(w)@).w,
            res_err_view(r) == apply_sem(self@, old(w)@).e,
    {
        let out = w.run_command(&self.command, &self.args, &self.working_dir);
        match out {
            Option::None => {
                let m = String::from_str("process could not be launched");
                proof {
                    assert(m@ == launch_exhausted_msg());
                }
                Result::Err(ShiftError::IoError(m))
            },
            Option::Some(CmdOutcome::LaunchFailure(m)) => Result::Err(ShiftError::IoError(m)),
            Option::Some(CmdOutcome::Finished(code, stderr)) => {
                let c: i32 = match code {
                    Option::Some(c0) => c0,
                    Option::None => -1,
                };
                if contains_code(&self.success_exit_codes, c) {
                    Result::Ok(())
                } else {
                    let mut m = String::new();
                    m.append("Command '");
                    m.append(self.command.as_str());
                    m.append("' failed with exit code ");
                    match code {
                        Option::Some(c0) => {
                            m.append("Some(");
                            push_i32_dec(&mut m, c0);
                            m.append(")");
                        },
                        Option::None => {
                            m.append("None");
                        },
                    }
                    m.append(". Stderr: ");
                    m.append(stderr.as_str());
                    proof {
                        let codev = match code {
                            Option::Some(c0) => Option::Some(c0 as int),
                            Option::None => Option::None,
                        };
                        assert(m@ =~= cmd_failed_msg(self.command@, codev, stderr@));
                    }
                    Result::Err(ShiftError::CommandFailed(m))
                }
            },
        }
    }

    /// Always fails: arbitrary programs are not assumed reversible. Never
    /// changes the world.
    pub fn revert(&self, w: &mut World) -> (r: Result<(), ShiftError>)
        requires
            old(w).wf(),
        ensures
            final(w).wf(),
            final(w)@ == revert_sem(self@, old(w)@).w,
            res_err_view(r) == revert_sem(self@, old(w)@).e,
    {
        let m = String::from_str("Cannot automatically revert a command execution");
        proof {
            assert(m@ == cmd_revert_msg());
        }
        Result::Err(ShiftError::Custom(m))
    }

    /// Always fails: command execution has no persistent, checkable state.
    pub fn is_applied(&self, w: &World) -> (r: Result<bool, ShiftError>)
        requires
            w.wf(),
        ensures
            check_view(r) == is_applied_sem(self@, w@),
    {
        let m = String::from_str("Cannot check if a command has been applied");
        proof {
            assert(m@ == cmd_check_msg());
        }
        Result::Err(ShiftError::Custom(m))
    }

    /// A stable human-readable summary; side-effect free.
    pub fn describe(&self) -> (r: String)
        ensures
            r@ == desc_v(self@),
    {
        let ghost argsv = Seq::new(self.args@.len(), |i: int| self.args@[i]@);
        let mut m = String::new();
        m.append("Execute command '");
        m.append(self.command.as_str());
        m.append("' with args ");
        m.append("[");
        proof {
            reveal_strlit("[");
            assert(m@ =~= "Execute command '"@ + self.command@ + "' with args "@
                + seq!['[']);
        }
        let ghost head = m@;
        let mut i: usize = 0;
        while i < self.args.len()
            invariant
                i <= self.args@.len(),
                argsv == Seq::new(self.args@.len(), |k: int| self.args@[k]@),
                head == "Execute command '"@ + self.command@ + "' with args "@ + seq!['['],
                m@ == head + crate::model::args_items(argsv.subrange(0, i as int)),
            decreases self.args@.len() - i,
        {
            let ghost before = m@;
            if i > 0 {
                m.append(", ");
            }
            m.append("\"");
            m.append(self.args[i].as_str());
            m.append("\"");
            proof {
                reveal_strlit("\"");
                let part = argsv.subrange(0, i as int);
                let part2 = argsv.subrange(0, i + 1 as int);
                assert(part2.drop_last() =~= part);
                assert(part2.last() == argsv[i as int]);
                assert(crate::model::quoted(argsv[i as int]) =~= seq!['"'] + self.args@[i as int]@
                    + seq!['"']);
                if i == 0 {
                    assert(crate::model::args_items(part2) == crate::model::quoted(part2[0]));
                    assert(m@ =~= head + crate::model::args_items(part2));
                } else {
                    assert(crate::model::args_items(part2) == crate::model::args_items(part)
                        + ", "@ + crate::model::quoted(part2.last()));
                    assert(m@ =~= head + crate::model::args_items(part2));
                }
            }
            i = i + 1;
        }
        m.append("]");
        match &self.working_dir {
            Option::Some(d) => {
                m.append(" in directory ");
                m.append(d.as_str());
            },
            Option::None => {},
        }
        proof {
            reveal_strlit("]");
            assert(argsv.subrange(0, self.args@.len() as int) =~= argsv);
            assert(m@ =~= desc_v(self@));
        }
        m
    }
}

/// Does the accepted-exit-code list contain `c`?
fn contains_code(v: &Vec<i32>, c: i32) -> (b: bool)
    ensures
        b == Seq::new(v@.len(), |i: int| v@[i] as int).contains(c as int),
{
    let ghost codes = Seq::new(v@.len(), |i: int| v@[i] as int);
    let mut i: usize = 0;
    while i < v.len()
        invariant
            i <= v@.len(),
            codes == Seq::new(v@.len(), |k: int| v@[k] as int),
            forall|j: int| 0 <= j < i ==> codes[j] != c as int,
        decreases v@.len() - i,
    {
        if v[i] == c {
            proof {
                assert(codes[i as int] == c as int);
            }
            return true;
        }
        i = i + 1;
    }
    proof {
        if codes.contains(c as int) {
            let j = choose|j: int| 0 <= j < codes.len() && codes[j] == c as int;
        }
    }
    false
}

/// One shift: a closed set of variants, each implementing the capability.
pub enum Shift {
    Dir(CreateDir),
    File(CreateFile),
    Cmd(Cmd),
    Github(GitHubClone),
}

impl View for Shift {
    type V = ShiftV;

    open spec fn view(&self) -> ShiftV {
        match self {
            Shift::Dir(d) => d@,
            Shift::File(f) => f@,
            Shift::Cmd(c) => c@,
            Shift::Github(g) => g@,
        }
    }
}

impl Shift {
    /// Performs the shift's forward effect.
    pub fn apply(&self, w: &mut World) -> (r: Result<(), ShiftError>)
        requires
            old(w).wf(),
        ensures
            final(w).wf(),
            final(w)@ == apply_sem(self@, old(w)@).w,
            res_err_view(r) == apply_sem(self@, old(w)@).e,
        decreases srank(self@), 2int, 0int,
    {
        match self {
            Shift::Dir(d) => d.apply(w),
            Shift::File(f) => f.apply(w),
            Shift::Cmd(c) => c.apply(w),
            Shift::Github(g) => g.apply(w),
        }
    }

    /// Undoes the shift's forward effect, or fails explicitly when undoing is
    /// not meaningful for the variant.
    pub fn revert(&self, w: &mut World) -> (r: Result<(), ShiftError>)
        requires
            old(w).wf(),
        ensures
            final(w).wf(),
            final(w)@ == revert_sem(self@, old(w)@).w,
            res_err_view(r) == revert_sem(self@, old(w)@).e,
        decreases srank(self@), 2int, 0int,
    {
        match self {
            Shift::Dir(d) => d.revert(w),
            Shift::File(f) => f.revert(w),
            Shift::Cmd(c) => c.revert(w),
            Shift::Github(g) => g.revert(w),
        }
    }

    /// Reports the current-state observation without side effects, where
    /// meaningful; fails explicitly for variants with no checkable state.
    pub fn is_applied(&self, w: &World) -> (r: Result<bool, ShiftError>)
        requires
            w.wf(),
        ensures
            check_view(r) == is_applied_sem(self@, w@),
    {
        match self {
            Shift::Dir(d) => d.is_applied(w),
            Shift::File(f) => f.is_applied(w),
            Shift::Cmd(c) => c.is_applied(w),
            Shift::Github(g) => g.is_applied(w),
        }
    }

    /// A stable human-readable summary; side-effect free and independent of
    /// execution order.
    pub fn describe(&self) -> (r: String)
        ensures
            r@ == desc_v(self@),
    {
        match self {
            Shift::Dir(d) => d.describe(),
            Shift::File(f) => f.describe(),
            Shift::Cmd(c) => c.describe(),
            Shift::Github(g) => g.describe(),
        }
    }
}

} // verus!
