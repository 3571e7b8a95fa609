//! What a socket asks to be done.
//!
//! Connections, channels and tasks are known here by handles. Whoever drives a
//! socket holds what the handles stand for and carries out the actions in order.
use crate::message::{Message, MessageView};
use crate::socket::{SocketEvent, SocketEventView};
use vstd::prelude::*;

verus! {

#[derive(Debug)]
pub enum Action {
    /// Send on a queue.
    Send { queue: u64, message: Message },
    /// Drop a queue, which closes the sending half of its connection.
    CloseSender { queue: u64 },
    /// Let the fair queue read a stream.
    OpenStream { peer: u64, stream: u64 },
    /// Drop a stream, which closes the receiving half of its connection.
    CloseStream { stream: u64 },
    /// Run a task that reads the peer's subscriptions until `stop` is signalled.
    StartSubscription { peer: u64, stream: u64, stop: u64 },
    /// Signal a subscription task to stop.
    StopSubscription { stop: u64 },
    /// Run a heartbeat task for a peer.
    StartHeartbeat { peer: u64, task: u64 },
    /// Signal a heartbeat task to stop.
    StopHeartbeat { task: u64 },
    /// Signal a reconnection task to stop.
    StopReconnect { task: u64 },
    /// Offer an event to a monitor, which may be full.
    Emit { monitor: u64, event: SocketEvent },
    /// Offer a peer's disconnection to a reconnection task, which may be full.
    Notify { notifier: u64, peer: u64 },
}

/// An action as a value.
pub enum ActionView {
    Send { queue: u64, message: MessageView },
    CloseSender { queue: u64 },
    OpenStream { peer: u64, stream: u64 },
    CloseStream { stream: u64 },
    StartSubscription { peer: u64, stream: u64, stop: u64 },
    StopSubscription { stop: u64 },
    StartHeartbeat { peer: u64, task: u64 },
    StopHeartbeat { task: u64 },
    StopReconnect { task: u64 },
    Emit { monitor: u64, event: SocketEventView },
    Notify { notifier: u64, peer: u64 },
}

impl View for Action {
    type V = ActionView;

    open spec fn view(&self) -> ActionView {
        match self {
            Action::Send { queue, message } => ActionView::Send {
                queue: *queue,
                message: message@,
            },
            Action::CloseSender { queue } => ActionView::CloseSender { queue: *queue },
            Action::OpenStream { peer, stream } => ActionView::OpenStream {
                peer: *peer,
                stream: *stream,
            },
            Action::CloseStream { stream } => ActionView::CloseStream { stream: *stream },
            Action::StartSubscription { peer, stream, stop } => ActionView::StartSubscription {
                peer: *peer,
                stream: *stream,
                stop: *stop,
            },
            Action::StopSubscription { stop } => ActionView::StopSubscription { stop: *stop },
            Action::StartHeartbeat { peer, task } => ActionView::StartHeartbeat {
                peer: *peer,
                task: *task,
            },
            Action::StopHeartbeat { task } => ActionView::StopHeartbeat { task: *task },
            Action::StopReconnect { task } => ActionView::StopReconnect { task: *task },
            Action::Emit { monitor, event } => ActionView::Emit {
                monitor: *monitor,
                event: event@,
            },
            Action::Notify { notifier, peer } => ActionView::Notify {
                notifier: *notifier,
                peer: *peer,
            },
        }
    }
}

/// Actions in the order in which they are carried out.
#[derive(Debug)]
pub struct Actions {
    pub list: Vec<Action>,
}

impl View for Actions {
    type V = Seq<ActionView>;

    open spec fn view(&self) -> Seq<ActionView> {
        Seq::new(self.list@.len(), |i: int| self.list@[i]@)
    }
}

impl Actions {
    pub fn new() -> (r: Actions)
        ensures
            r@ == Seq::<ActionView>::empty(),
    {
        let r = Actions { list: Vec::new() };
        assert(r@ =~= Seq::<ActionView>::empty());
        r
    }

    /// Puts an action behind the others.
    pub fn push(&mut self, action: Action)
        ensures
            final(self)@ == old(self)@.push(action@),
    {
        self.list.push(action);
        assert(self@ =~= old(self)@.push(action@));
    }
}

/// Actions are seen in their order, each as it is, with all that is sent or told.
pub proof fn actions_are_seen_whole(
    all: Actions,
    i: int,
    queue: u64,
    message: Message,
    peer: u64,
    stream: u64,
    task: u64,
    event: SocketEvent,
)
    ensures
        all@.len() == all.list@.len(),
        0 <= i < all.list@.len() ==> all@[i] == all.list@[i]@,
        (Action::Send { queue, message })@ == (ActionView::Send { queue, message: message@ }),
        (Action::CloseSender { queue })@ == (ActionView::CloseSender { queue }),
        (Action::OpenStream { peer, stream })@ == (ActionView::OpenStream { peer, stream }),
        (Action::CloseStream { stream })@ == (ActionView::CloseStream { stream }),
        (Action::StartSubscription { peer, stream, stop: task })@ == (
        ActionView::StartSubscription { peer, stream, stop: task }),
        (Action::StopSubscription { stop: task })@ == (ActionView::StopSubscription { stop: task }),
        (Action::StartHeartbeat { peer, task })@ == (ActionView::StartHeartbeat { peer, task }),
        (Action::StopHeartbeat { task })@ == (ActionView::StopHeartbeat { task }),
        (Action::StopReconnect { task })@ == (ActionView::StopReconnect { task }),
        (Action::Emit { monitor: task, event })@ == (ActionView::Emit {
            monitor: task,
            event: event@,
        }),
        (Action::Notify { notifier: task, peer })@ == (ActionView::Notify {
            notifier: task,
            peer,
        }),
{
}

} // verus!
