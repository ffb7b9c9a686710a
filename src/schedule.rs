//! The tick schedule as a mathematical model, for any rule: within a tick
//! the ants step one after another in creation order, each seeing the cells
//! as the ants before it left them.

use vstd::prelude::*;

verus! {

/// The cells and ants after the first `k` ants of `ants` have each taken one
/// `step`, in order.
pub open spec fn tick_prefix<C, A>(
    step: spec_fn(Seq<C>, A) -> (Seq<C>, A),
    cells: Seq<C>,
    ants: Seq<A>,
    k: nat,
) -> (Seq<C>, Seq<A>)
    decreases k,
{
    if k == 0 {
        (cells, ants)
    } else {
        let (c, a) = tick_prefix(step, cells, ants, (k - 1) as nat);
        let (c2, moved) = step(c, a[k - 1]);
        (c2, a.update(k - 1, moved))
    }
}

/// The cells and ants after one tick: every ant steps once, in order.
pub open spec fn ticked<C, A>(step: spec_fn(Seq<C>, A) -> (Seq<C>, A), cells: Seq<C>, ants: Seq<A>) -> (
    Seq<C>,
    Seq<A>,
) {
    tick_prefix(step, cells, ants, ants.len())
}

/// The cells and ants after `n` ticks.
pub open spec fn run_ticks<C, A>(
    step: spec_fn(Seq<C>, A) -> (Seq<C>, A),
    cells: Seq<C>,
    ants: Seq<A>,
    n: nat,
) -> (Seq<C>, Seq<A>)
    decreases n,
{
    if n == 0 {
        (cells, ants)
    } else {
        let (c, a) = run_ticks(step, cells, ants, (n - 1) as nat);
        ticked(step, c, a)
    }
}

/// Partway through a tick the ants are as many as before, and those that have
/// not stepped yet are unchanged.
pub proof fn lemma_prefix_leaves_rest<C, A>(
    step: spec_fn(Seq<C>, A) -> (Seq<C>, A),
    cells: Seq<C>,
    ants: Seq<A>,
    k: nat,
)
    requires
        k <= ants.len(),
    ensures
        tick_prefix(step, cells, ants, k).1.len() == ants.len(),
        forall|j: int|
            k <= j < ants.len() ==> #[trigger] tick_prefix(step, cells, ants, k).1[j] == ants[j],
    decreases k,
{
    if k > 0 {
        lemma_prefix_leaves_rest(step, cells, ants, (k - 1) as nat);
    }
}

} // verus!
