//! Laws of plans: what carrying them out leaves resident.

use vstd::prelude::*;

use crate::gpu_backend::metal_graph::device::{Action, Resident};
use crate::gpu_backend::metal_graph::graph::Residency;

verus! {

/// Nothing in the plan makes a buffer resident.
pub open spec fn keeps_nothing(plan: Seq<Action>) -> bool {
    forall|i: int| 0 <= i < plan.len() ==> !(#[trigger] plan[i] is Keep)
}

/// No buffer is allocated in the plan.
pub open spec fn allocates_nothing(plan: Seq<Action>) -> bool {
    forall|i: int| 0 <= i < plan.len() ==> !(#[trigger] plan[i] is Alloc)
}

/// Carrying out two plans one after the other is carrying out their
/// concatenation.
pub proof fn law_plans_compose(s: Residency, a: Seq<Action>, b: Seq<Action>)
    ensures
        s.after(a + b) == s.after(a).after(b),
    decreases b.len(),
{
    if b.len() == 0 {
        assert(a + b =~= a);
    } else {
        law_plans_compose(s, a, b.drop_last());
        assert((a + b).drop_last() =~= a + b.drop_last());
        assert((a + b).last() == b.last());
    }
}

/// A plan that keeps nothing leaves residency as it was.
pub proof fn law_no_keep_no_change(s: Residency, plan: Seq<Action>)
    requires
        keeps_nothing(plan),
    ensures
        s.after(plan) == s,
    decreases plan.len(),
{
    if plan.len() > 0 {
        assert forall|i: int| 0 <= i < plan.drop_last().len() implies !(#[trigger] plan.drop_last()[i]
            is Keep) by {
            assert(plan.drop_last()[i] == plan[i]);
        }
        law_no_keep_no_change(s, plan.drop_last());
        assert(!(plan[plan.len() - 1] is Keep));
    }
}

/// A plan that keeps nothing, followed by one kept set, makes that set
/// resident.
pub proof fn law_keep_at_end(s: Residency, plan: Seq<Action>, r: Resident)
    requires
        keeps_nothing(plan),
    ensures
        s.after(plan.push(Action::Keep(r))) == s.with(r),
{
    law_no_keep_no_change(s, plan);
    assert(plan.push(Action::Keep(r)).drop_last() =~= plan);
}

} // verus!
