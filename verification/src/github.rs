//! The composite shift: a repository-clone operation built from a
//! directory-creation shift plus a command-execution shift. It implements the
//! shift capability by building its internal plan on demand and delegating to
//! the plan's apply and revert algorithms, which makes composition recursive
//! and uniform.
use vstd::prelude::*;

use crate::errors::{check_view, res_err_view, ShiftError};
use crate::model::{
    aggregate_msg, apply_sem, clone_args_v, clone_desc_v, clone_plan_name_v, clone_plan_v,
    clone_shifts_v, is_applied_sem, joined, last_slash_at, repo_name_of, revert_sem,
    ShiftV,
};
use crate::plan::ShiftPlan;
use crate::shift::{Cmd, CreateDir, Shift};
use crate::text::dec_string;
use crate::world::{FsNode, World};

verus! {

/// A composite shift that clones a repository: it creates the target
/// directory, then runs the clone command inside it. The authentication
/// token is accepted as a parameter; how it is injected into the underlying
/// command belongs to the surrounding glue layer, not to this core.
pub struct GitHubClone {
    pub repo_url: String,
    pub target_dir: String,
    pub branch: Option<String>,
    pub depth: Option<usize>,
    pub auth_token: Option<String>,
}

impl View for GitHubClone {
    type V = ShiftV;

    open spec fn view(&self) -> ShiftV {
        ShiftV::Github {
            repo_url: self.repo_url@,
            target_dir: self.target_dir@,
            branch: match self.branch {
                Option::Some(b) => Option::Some(b@),
                Option::None => Option::None,
            },
            depth: match self.depth {
                Option::Some(d) => Option::Some(d as int),
                Option::None => Option::None,
            },
            auth_token: match self.auth_token {
                Option::Some(t) => Option::Some(t@),
                Option::None => Option::None,
            },
        }
    }
}

impl GitHubClone {
    pub fn new(
        repo_url: String,
        target_dir: String,
        branch: Option<String>,
        depth: Option<usize>,
        auth_token: Option<String>,
    ) -> (g: Self)
        ensures
            g.repo_url == repo_url,
            g.target_dir == target_dir,
            g.branch == branch,
            g.depth == depth,
            g.auth_token == auth_token,
    {
        GitHubClone { repo_url, target_dir, branch, depth, auth_token }
    }

    /// The human-readable repository name: the URL's final path segment,
    /// stripped of a trailing `.git` suffix if present.
    pub fn get_repo_name(&self) -> (r: String)
        ensures
            r@ == repo_name_of(self.repo_url@),
    {
        let s = self.repo_url.as_str();
        let n = s.unicode_len();
        let mut start: usize = 0;
        let mut i: usize = 0;
        while i < n
            invariant
                s@ == self.repo_url@,
                n == s@.len(),
                i <= n,
                start <= i,
                start as int - 1 == last_slash_at(s@.subrange(0, i as int)),
            decreases n - i,
        {
            proof {
                let t = s@.subrange(0, i as int + 1);
                assert(t.drop_last() =~= s@.subrange(0, i as int));
                assert(t.last() == s@[i as int]);
            }
            if s.get_char(i) == '/' {
                start = i + 1;
            }
            i = i + 1;
        }
        proof {
            assert(s@.subrange(0, n as int) =~= s@);
        }
        let tail = s.substring_char(start, n);
        let tn = n - start;
        proof {
            assert(tail@ =~= crate::model::tail_segment(self.repo_url@));
            assert(tail@.len() == tn);
        }
        if tn >= 4 {
            let c1 = tail.get_char(tn - 4);
            let c2 = tail.get_char(tn - 3);
            let c3 = tail.get_char(tn - 2);
            let c4 = tail.get_char(tn - 1);
            if c1 == '.' && c2 == 'g' && c3 == 'i' && c4 == 't' {
                let base = tail.substring_char(0, tn - 4);
                let r = String::from_str(base);
                proof {
                    reveal_strlit(".git");
                    assert(tail@.subrange(tn - 4, tn as int) =~= ".git"@);
                    assert(r@ == repo_name_of(self.repo_url@));
                }
                return r;
            }
            proof {
                reveal_strlit(".git");
                if tail@.subrange(tn - 4, tn as int) == ".git"@ {
                    assert(tail@.subrange(tn - 4, tn as int)[0] == '.');
                    assert(tail@.subrange(tn - 4, tn as int)[1] == 'g');
                    assert(tail@.subrange(tn - 4, tn as int)[2] == 'i');
                    assert(tail@.subrange(tn - 4, tn as int)[3] == 't');
                    assert(false);
                }
            }
        }
        let r = String::from_str(tail);
        proof {
            if tail@.len() >= 4 {
                assert(tail@.subrange(tail@.len() - 4, tail@.len() as int) != ".git"@);
            }
            assert(r@ == repo_name_of(self.repo_url@));
        }
        r
    }

    /// Builds the internal plan: create the target directory, then run the
    /// clone command inside it, with `--branch` and `--depth` arguments when
    /// configured.
    pub fn build_plan(&self) -> (p: ShiftPlan)
        ensures
            p@ == clone_plan_v(
                self.repo_url@,
                self.target_dir@,
                match self.branch {
                    Option::Some(b) => Option::Some(b@),
                    Option::None => Option::None,
                },
                match self.depth {
                    Option::Some(d) => Option::Some(d as int),
                    Option::None => Option::None,
                },
            ),
    {
        let ghost branchv = match &self.branch {
            Option::Some(b) => Option::Some(b@),
            Option::None => Option::None,
        };
        let ghost depthv = match self.depth {
            Option::Some(d) => Option::Some(d as int),
            Option::None => Option::None,
        };
        let mut args: Vec<String> = Vec::new();
        args.push(String::from_str("clone"));
        args.push(self.repo_url.clone());
        match &self.branch {
            Option::Some(b) => {
                args.push(String::from_str("--branch"));
                args.push(b.clone());
            },
            Option::None => {},
        }
        match self.depth {
            Option::Some(d) => {
                args.push(String::from_str("--depth"));
                let ds = dec_string(d as u64);
                proof {
                    assert((d as u64) as nat == (d as int) as nat);
                }
                args.push(ds);
            },
            Option::None => {},
        }
        args.push(self.target_dir.clone());
        proof {
            assert(Seq::new(args@.len(), |i: int| args@[i]@) =~= clone_args_v(
                self.repo_url@,
                self.target_dir@,
                branchv,
                depthv,
            ));
        }
        let git_shift = Cmd::new(
            String::from_str("git"),
            args,
            Option::Some(self.target_dir.clone()),
            Option::None,
        );
        let rn = self.get_repo_name();
        let mut plan_name = String::new();
        plan_name.append("Clone GitHub repository ");
        plan_name.append(rn.as_str());
        proof {
            assert(plan_name@ =~= clone_plan_name_v(self.repo_url@));
        }
        let mut plan_desc = String::new();
        plan_desc.append("Clone GitHub repository ");
        plan_desc.append(rn.as_str());
        plan_desc.append(" into directory ");
        plan_desc.append(self.target_dir.as_str());
        proof {
            assert(plan_desc@ =~= clone_desc_v(self.repo_url@, self.target_dir@));
        }
        let mut shifts: Vec<Shift> = Vec::new();
        shifts.push(Shift::Dir(CreateDir::new(self.target_dir.clone())));
        shifts.push(Shift::Cmd(git_shift));
        let p = ShiftPlan::new(plan_name, plan_desc, shifts);
        proof {
            let expected = clone_shifts_v(self.repo_url@, self.target_dir@, branchv, depthv);
            assert(p@.shifts.len() == 2);
            assert(p@.shifts[0] == expected[0]);
            assert(p@.shifts[1] matches ShiftV::Cmd { program, args: av, working_dir, ok_codes }
                && program == "git"@ && av == clone_args_v(
                self.repo_url@,
                self.target_dir@,
                branchv,
                depthv,
            ) && working_dir == Option::Some(self.target_dir@) && ok_codes =~= seq![0int]);
            assert(p@.shifts[1] == expected[1]);
            assert(p@.shifts =~= expected);
            assert(p@ =~= clone_plan_v(self.repo_url@, self.target_dir@, branchv, depthv));
        }
        p
    }

    /// Applies the composite: builds the internal plan and delegates to its
    /// apply algorithm in full, nested rollback included.
    pub fn apply(&self, w: &mut World) -> (r: Result<(), ShiftError>)
        requires
            old(w).wf(),
        ensures
            final(w).wf(),
            final(w)@ == apply_sem(self@, old(w)@).w,
            res_err_view(r) == apply_sem(self@, old(w)@).e,
        decreases 2int, 1int, 2int,
    {
        let plan = self.build_plan();
        plan.apply(w)
    }

    /// Reverts the composite: builds the internal plan and delegates to its
    /// revert algorithm; an aggregate failure is folded into one custom
    /// failure whose message names every failed shift's description.
    pub fn revert(&self, w: &mut World) -> (r: Result<(), ShiftError>)
        requires
            old(w).wf(),
        ensures
            final(w).wf(),
            final(w)@ == revert_sem(self@, old(w)@).w,
            res_err_view(r) == revert_sem(self@, old(w)@).e,
        decreases 2int, 1int, 2int,
    {
        let ghost rr = crate::model::plan_revert_from(
            clone_shifts_v(
                self.repo_url@,
                self.target_dir@,
                match &self.branch {
                    Option::Some(b) => Option::Some(b@),
                    Option::None => Option::None,
                },
                match self.depth {
                    Option::Some(d) => Option::Some(d as int),
                    Option::None => Option::None,
                },
            ),
            2,
            old(w)@,
        );
        let plan = self.build_plan();
        let outcome = plan.revert(w);
        match outcome {
            Result::Ok(_) => Result::Ok(()),
            Result::Err(agg) => {
                let ghost descs = rr.failures.map_values(|f: (Seq<char>, crate::model::ErrV)| f.0);
                let mut m = String::new();
                m.append("Failed to revert some shifts: ");
                let ghost head = m@;
                proof {
                    assert(head == "Failed to revert some shifts: "@);
                    assert(agg@ == rr.failures);
                    assert(descs.len() == agg@.len());
                }
                let mut k: usize = 0;
                while k < agg.failures.len()
                    invariant
                        k <= agg.failures@.len(),
                        agg@ == rr.failures,
                        agg@.len() == agg.failures@.len(),
                        descs == rr.failures.map_values(
                            |f: (Seq<char>, crate::model::ErrV)| f.0,
                        ),
                        descs.len() == agg@.len(),
                        head == "Failed to revert some shifts: "@,
                        m@ == head + joined(descs.subrange(0, k as int)),
                    decreases agg.failures@.len() - k,
                {
                    if k > 0 {
                        m.append(", ");
                    }
                    m.append(agg.failures[k].description.as_str());
                    proof {
                        let part = descs.subrange(0, k as int);
                        let part2 = descs.subrange(0, k + 1 as int);
                        assert(part2.drop_last() =~= part);
                        assert(part2.last() == descs[k as int]);
                        assert(descs[k as int] == agg@[k as int].0);
                        assert(agg.failures@[k as int]@.0 == agg@[k as int].0);
                        if k == 0 {
                            assert(joined(part2) == part2[0]);
                            assert(m@ =~= head + joined(part2));
                        } else {
                            assert(joined(part2) == joined(part) + ", "@ + part2.last());
                            assert(m@ =~= head + joined(part2));
                        }
                    }
                    k = k + 1;
                }
                proof {
                    assert(descs.subrange(0, descs.len() as int) =~= descs);
                    assert(m@ == aggregate_msg(descs));
                }
                Result::Err(ShiftError::Custom(m))
            },
        }
    }

    /// The composite-specific observation: does the target directory exist as
    /// a directory? It does not recompute the nested plan's state.
    pub fn is_applied(&self, w: &World) -> (r: Result<bool, ShiftError>)
        requires
            w.wf(),
        ensures
            check_view(r) == is_applied_sem(self@, w@),
    {
        match w.node_at(&self.target_dir) {
            Option::Some(n) => match n {
                FsNode::Dir => Result::Ok(true),
                FsNode::File(_) => Result::Ok(false),
            },
            Option::None => Result::Ok(false),
        }
    }

    /// A stable single-line summary naming the operation and its primary
    /// target; independent of the nested plan's descriptions.
    pub fn describe(&self) -> (r: String)
        ensures
            r@ == crate::model::desc_v(self@),
    {
        let rn = self.get_repo_name();
        let mut m = String::new();
        m.append("Clone GitHub repository ");
        m.append(rn.as_str());
        m.append(" into directory ");
        m.append(self.target_dir.as_str());
        proof {
            assert(m@ =~= clone_desc_v(self.repo_url@, self.target_dir@));
        }
        m
    }
}

} // verus!
