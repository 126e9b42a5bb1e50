use vstd::prelude::*;

verus! {

/// Where a worker stands in its receive loop.
#[derive(Clone, Copy, Debug, PartialEq, Eq, Structural)]
pub enum WorkerState {
    /// Waiting on the dispatch queue.
    Idle,
    /// Running a job it has taken; it takes nothing else until the job returns.
    Executing,
    /// Has taken its `Terminate` and left the loop; final.
    Terminated,
}

pub open spec fn is_live(s: WorkerState) -> bool {
    !(s is Terminated)
}

/// How many workers have not yet left their loop.
pub open spec fn live_count(ws: Seq<WorkerState>) -> nat
    decreases ws.len(),
{
    if ws.len() == 0 {
        0
    } else {
        live_count(ws.drop_last()) + if is_live(ws.last()) {
            1nat
        } else {
            0nat
        }
    }
}

/// Changing one worker's state changes the live count by what that worker's
/// liveness did.
pub proof fn lemma_live_update(ws: Seq<WorkerState>, w: int, s: WorkerState)
    requires
        0 <= w < ws.len(),
    ensures
        live_count(ws.update(w, s)) + (if is_live(ws[w]) {
            1nat
        } else {
            0nat
        }) == live_count(ws) + (if is_live(s) {
            1nat
        } else {
            0nat
        }),
    decreases ws.len(),
{
    let us = ws.update(w, s);
    if w == ws.len() - 1 {
        assert(us.drop_last() =~= ws.drop_last());
    } else {
        lemma_live_update(ws.drop_last(), w, s);
        assert(us.drop_last() =~= ws.drop_last().update(w, s));
    }
}

/// With no worker terminated, every worker is live.
pub proof fn lemma_all_live(ws: Seq<WorkerState>)
    requires
        forall|w: int| 0 <= w < ws.len() ==> is_live(#[trigger] ws[w]),
    ensures
        live_count(ws) == ws.len(),
    decreases ws.len(),
{
    if ws.len() > 0 {
        lemma_all_live(ws.drop_last());
    }
}

/// One live worker makes the live count positive.
pub proof fn lemma_some_live(ws: Seq<WorkerState>, w: int)
    requires
        0 <= w < ws.len(),
        is_live(ws[w]),
    ensures
        live_count(ws) > 0,
    decreases ws.len(),
{
    if w < ws.len() - 1 {
        lemma_some_live(ws.drop_last(), w);
    }
}

/// With every worker terminated, none is live.
pub proof fn lemma_no_live_counts_zero(ws: Seq<WorkerState>)
    requires
        forall|w: int| 0 <= w < ws.len() ==> !is_live(#[trigger] ws[w]),
    ensures
        live_count(ws) == 0,
    decreases ws.len(),
{
    if ws.len() > 0 {
        lemma_no_live_counts_zero(ws.drop_last());
    }
}

} // verus!
