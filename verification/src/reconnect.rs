//! The tasks that make lost connections again.
use crate::actions::{Action, ActionView, Actions};
use vstd::prelude::*;

verus! {

/// Handle to a running reconnection task.
#[derive(Debug)]
pub struct ReconnectHandle {
    pub task: u64,
}

/// What stopping tasks asks for, in their order.
pub open spec fn stop_actions(handles: Seq<ReconnectHandle>) -> Seq<ActionView> {
    Seq::new(handles.len(), |i: int| ActionView::StopReconnect { task: handles[i].task })
}

/// Stops all reconnection tasks.
pub fn stop_all(handles: &mut Vec<ReconnectHandle>, out: &mut Actions)
    ensures
        final(handles)@ == Seq::<ReconnectHandle>::empty(),
        final(out)@ == old(out)@ + stop_actions(old(handles)@),
{
    let ghost all = handles@;
    let ghost said = out@;
    let mut i: usize = 0;
    while i < handles.len()
        invariant
            i <= handles@.len(),
            handles@ == all,
            out@ == said + stop_actions(all).take(i as int),
        decreases handles@.len() - i,
    {
        out.push(Action::StopReconnect { task: handles[i].task });
        assert(out@ =~= said + stop_actions(all).take(i + 1));
        i = i + 1;
    }
    assert(stop_actions(all).take(i as int) =~= stop_actions(all));
    handles.clear();
}

/// Every task is stopped, once, in the order in which they were started.
pub proof fn every_task_is_stopped(handles: Seq<ReconnectHandle>, i: int)
    ensures
        stop_actions(handles).len() == handles.len(),
        0 <= i < handles.len() ==> stop_actions(handles)[i] == (ActionView::StopReconnect {
            task: handles[i].task,
        }),
{
}

} // verus!
