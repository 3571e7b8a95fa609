//! The queue that deals outgoing messages out among peers.
use crossbeam_queue::SegQueue;
use vstd::prelude::*;

verus! {

/// `crossbeam_queue::SegQueue`: an unbounded concurrent queue.
#[verifier::external_type_specification]
#[verifier::external_body]
#[verifier::reject_recursive_types(T)]
pub struct ExSegQueue<T>(SegQueue<T>);

/// What a queue holds, in the order in which it comes out.
pub uninterp spec fn queued(q: SegQueue<u64>) -> Seq<u64>;

/// `SegQueue::new`: an empty queue.
#[verifier::external_body]
fn queue_new() -> (q: SegQueue<u64>)
    ensures
        queued(q) == Seq::<u64>::empty(),
{
    SegQueue::new()
}

/// `SegQueue::push`: puts an item behind the others.
#[verifier::external_body]
fn queue_push(q: &mut SegQueue<u64>, item: u64)
    ensures
        queued(*final(q)) == queued(*old(q)).push(item),
{
    q.push(item)
}

/// `SegQueue::pop`: takes the item in front, or returns nothing where the queue is
/// empty.
#[verifier::external_body]
fn queue_pop(q: &mut SegQueue<u64>) -> (item: Option<u64>)
    ensures
        queued(*old(q)).len() == 0 ==> item is None && queued(*final(q)) == queued(*old(q)),
        queued(*old(q)).len() > 0 ==> item == Some(queued(*old(q))[0]) && queued(*final(q))
            == queued(*old(q)).skip(1),
{
    q.pop()
}

/// Peers in the order in which they are dealt messages. A peer that has gone may
/// still stand in it.
#[derive(Debug)]
pub struct RoundRobin {
    queue: SegQueue<u64>,
}

impl View for RoundRobin {
    type V = Seq<u64>;

    closed spec fn view(&self) -> Seq<u64> {
        queued(self.queue)
    }
}

impl RoundRobin {
    pub fn new() -> (r: RoundRobin)
        ensures
            r@ == Seq::<u64>::empty(),
    {
        RoundRobin { queue: queue_new() }
    }

    /// Puts a peer at the end.
    pub fn push(&mut self, peer: u64)
        ensures
            final(self)@ == old(self)@.push(peer),
    {
        queue_push(&mut self.queue, peer)
    }

    /// Takes the peer in front.
    pub fn pop(&mut self) -> (peer: Option<u64>)
        ensures
            old(self)@.len() == 0 ==> peer is None && final(self)@ == old(self)@,
            old(self)@.len() > 0 ==> peer == Some(old(self)@[0]) && final(self)@ == old(
                self,
            )@.skip(1),
    {
        queue_pop(&mut self.queue)
    }
}

} // verus!
