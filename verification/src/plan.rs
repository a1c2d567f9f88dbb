//! The plan orchestrator: an ordered sequence of shifts executed as a unit,
//! with compensating rollback on failure and best-effort revert with failure
//! aggregation.
use vstd::prelude::*;

use crate::errors::{res_err_view, AggregateError, RevertFailure, ShiftError};
use crate::model::{
    apply_sem, plan_apply_from, plan_revert_from, revert_sem, rollback_upto, seq_rank, PlanV,
    ShiftV, StepV,
};
use crate::shift::Shift;
use crate::world::World;

verus! {

/// A named, ordered sequence of shifts executed as a unit. The sequence is
/// immutable once constructed: a plan is a value during execution, and
/// insertion order is both the apply order and the reverse of the revert
/// order.
pub struct ShiftPlan {
    pub name: String,
    pub description: String,
    pub shifts: Vec<Shift>,
}

impl View for ShiftPlan {
    type V = PlanV;

    open spec fn view(&self) -> PlanV {
        PlanV {
            name: self.name@,
            description: self.description@,
            shifts: Seq::new(self.shifts@.len(), |i: int| self.shifts@[i]@),
        }
    }
}

impl ShiftPlan {
    pub fn new(name: String, description: String, shifts: Vec<Shift>) -> (p: Self)
        ensures
            p.name == name,
            p.description == description,
            p.shifts == shifts,
    {
        ShiftPlan { name, description, shifts }
    }

    /// Applies each shift in sequence order. On the first failure, the
    /// already-applied prefix is rolled back in reverse order — each of those
    /// shifts' revert is invoked exactly once, whatever each revert returns —
    /// and the original triggering failure is surfaced, never a rollback
    /// failure.
    pub fn apply(&self, w: &mut World) -> (r: Result<(), ShiftError>)
        requires
            old(w).wf(),
        ensures
            final(w).wf(),
            final(w)@ == plan_apply_from(self@.shifts, 0, old(w)@).w,
            res_err_view(r) == plan_apply_from(self@.shifts, 0, old(w)@).e,
        decreases seq_rank(self@.shifts), 1int, 0int,
    {
        let ghost ss = self@.shifts;
        let ghost w0 = old(w)@;
        let mut i: usize = 0;
        while i < self.shifts.len()
            invariant
                old(w).wf(),
                w.wf(),
                i <= ss.len(),
                ss == self@.shifts,
                ss.len() == self.shifts@.len(),
                w0 == old(w)@,
                plan_apply_from(ss, 0, w0) == plan_apply_from(ss, i as int, w@),
            decreases ss.len() - i,
        {
            let ghost w_pre = w@;
            let outcome = self.shifts[i].apply(w);
            match outcome {
                Result::Ok(_) => {
                    proof {
                        assert(plan_apply_from(ss, i as int, w_pre) == plan_apply_from(
                            ss,
                            i as int + 1,
                            w@,
                        ));
                    }
                    i = i + 1;
                },
                Result::Err(e) => {
                    let ghost w_err = w@;
                    let ghost st = apply_sem(ss[i as int], w_pre);
                    let mut j: usize = i;
                    while j > 0
                        invariant
                            w.wf(),
                            j <= i,
                            i < ss.len(),
                            ss == self@.shifts,
                            ss.len() == self.shifts@.len(),
                            rollback_upto(ss, i as int, w_err) == rollback_upto(ss, j as int, w@),
                        decreases j,
                    {
                        let ghost w_cur = w@;
                        let ignored = self.shifts[j - 1].revert(w);
                        proof {
                            assert(rollback_upto(ss, j as int, w_cur) == rollback_upto(
                                ss,
                                j as int - 1,
                                w@,
                            ));
                        }
                        j = j - 1;
                    }
                    proof {
                        assert(rollback_upto(ss, 0, w@) == w@);
                        assert(plan_apply_from(ss, i as int, w_pre) == StepV {
                            w: rollback_upto(ss, i as int, st.w),
                            e: st.e,
                        });
                        assert(w@ == plan_apply_from(ss, 0, w0).w);
                    }
                    return Result::Err(e);
                },
            }
        }
        proof {
            assert(plan_apply_from(ss, ss.len() as int, w@) == StepV { w: w@, e: Option::None });
        }
        Result::Ok(())
    }

    /// Reverts the entire shift sequence in reverse order. Every shift's
    /// revert is attempted exactly once whatever the earlier reverts
    /// returned; if any failed, the aggregate failure enumerates every failed
    /// shift's description with the failure it returned, in the order the
    /// reverts were attempted.
    pub fn revert(&self, w: &mut World) -> (r: Result<(), AggregateError>)
        requires
            old(w).wf(),
        ensures
            final(w).wf(),
            final(w)@ == plan_revert_from(self@.shifts, self@.shifts.len() as int, old(w)@).w,
            match r {
                Result::Ok(u) => plan_revert_from(
                    self@.shifts,
                    self@.shifts.len() as int,
                    old(w)@,
                ).failures.len() == 0,
                Result::Err(agg) => agg@ == plan_revert_from(
                    self@.shifts,
                    self@.shifts.len() as int,
                    old(w)@,
                ).failures && agg@.len() > 0,
            },
        decreases seq_rank(self@.shifts), 1int, 0int,
    {
        let ghost ss = self@.shifts;
        let ghost w0 = old(w)@;
        let ghost total = plan_revert_from(ss, ss.len() as int, w0);
        let mut failures: Vec<RevertFailure> = Vec::new();
        let mut j: usize = self.shifts.len();
        while j > 0
            invariant
                w.wf(),
                j <= ss.len(),
                ss == self@.shifts,
                ss.len() == self.shifts@.len(),
                total == plan_revert_from(ss, ss.len() as int, w0),
                total.w == plan_revert_from(ss, j as int, w@).w,
                total.failures =~= Seq::new(failures@.len(), |k: int| failures@[k]@)
                    + plan_revert_from(ss, j as int, w@).failures,
            decreases j,
        {
            let ghost w_cur = w@;
            let ghost fv_before = Seq::new(failures@.len(), |k: int| failures@[k]@);
            let outcome = self.shifts[j - 1].revert(w);
            proof {
                assert(plan_revert_from(ss, j as int, w_cur).w == plan_revert_from(
                    ss,
                    j as int - 1,
                    w@,
                ).w);
            }
            match outcome {
                Result::Ok(_) => {},
                Result::Err(e) => {
                    let d = self.shifts[j - 1].describe();
                    let ghost pair = (d@, e@);
                    failures.push(RevertFailure { description: d, error: e });
                    proof {
                        let fv_after = Seq::new(failures@.len(), |k: int| failures@[k]@);
                        assert(fv_after =~= fv_before.push(pair));
                        assert(plan_revert_from(ss, j as int, w_cur).failures =~= seq![pair]
                            + plan_revert_from(ss, j as int - 1, w@).failures);
                        assert(fv_before + (seq![pair] + plan_revert_from(
                            ss,
                            j as int - 1,
                            w@,
                        ).failures) =~= fv_before.push(pair) + plan_revert_from(
                            ss,
                            j as int - 1,
                            w@,
                        ).failures);
                    }
                },
            }
            j = j - 1;
        }
        proof {
            assert(plan_revert_from(ss, 0, w@).failures == Seq::<(Seq<char>, crate::model::ErrV)>::empty());
            assert(total.failures =~= Seq::new(failures@.len(), |k: int| failures@[k]@));
        }
        if failures.len() == 0 {
            proof {
                assert(total.failures.len() == 0);
            }
            Result::Ok(())
        } else {
            let agg = AggregateError { failures };
            proof {
                assert(agg@ =~= total.failures);
            }
            Result::Err(agg)
        }
    }
}

} // verus!
