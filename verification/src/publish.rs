//! How messages find the peers that have asked for them.
use crate::actions::{ActionView, Actions};
use crate::error::{CodecError, IoErrorKind, ZmqError};
use crate::lifecycle;
use crate::message::{Message, MessageView, ZmqMessage};
use crate::peers;
use crate::peers::PeerView;
use crate::policy::PeerPolicy;
use crate::registry::{Registry, RegistryView};
use vstd::prelude::*;
use vstd::slice::slice_subrange;
use vstd::slice::slice_to_vec;

verus! {

/// First octet of a request for a topic.
pub const SUBSCRIBE: u8 = 1;

/// First octet of a request that gives a topic up.
pub const UNSUBSCRIBE: u8 = 0;

/// The peers after a message from one of them. A message of a single frame that begins
/// with one of the two octets asks for a topic or gives it up; the topic is the rest of
/// the frame. Anything else changes nothing.
pub open spec fn after_message(
    known: Map<u64, PeerView>,
    peer: u64,
    message: MessageView,
) -> Map<u64, PeerView> {
    match message {
        MessageView::Message(frames) => if frames.len() == 1 && frames[0].len() > 0 {
            let topic = frames[0].skip(1);
            if frames[0][0] == SUBSCRIBE {
                peers::subscribed(known, peer, topic)
            } else if frames[0][0] == UNSUBSCRIBE {
                peers::unsubscribed(known, peer, topic)
            } else {
                known
            }
        } else {
            known
        },
        _ => known,
    }
}

/// Takes note of what a peer asks for or gives up.
pub fn message_received<P: PeerPolicy>(r: &mut Registry<P>, peer: u64, message: &Message)
    ensures
        final(r)@ == (RegistryView {
            peers: after_message(old(r)@.peers, peer, message@),
            ..old(r)@
        }),
{
    match message {
        Message::Message(m) => {
            if m.len() != 1 {
                return;
            }
            match m.get(0) {
                Some(data) => {
                    if data.len() == 0 {
                        return;
                    }
                    let topic = slice_subrange(data, 1, data.len());
                    assert(topic@ =~= data@.skip(1));
                    if data[0] == SUBSCRIBE {
                        r.peers.subscribe(peer, slice_to_vec(topic));
                    } else if data[0] == UNSUBSCRIBE {
                        r.peers.unsubscribe(peer, topic);
                    }
                },
                None => {},
            }
        },
        _ => {},
    }
}

/// A peer that a message goes to.
#[derive(Debug, Copy, Clone)]
pub struct Target {
    pub peer: u64,
    pub queue: u64,
}

/// A message that is being handed to the peers that have asked for it.
#[derive(Debug)]
pub struct Publication {
    pub message: ZmqMessage,
    /// The peers to try.
    pub targets: Vec<Target>,
    /// How many of them were tried.
    pub tried: usize,
    /// The peers found to be gone.
    pub dead: Vec<u64>,
}

/// A peer has asked for messages with this first frame.
pub open spec fn asks(known: Map<u64, PeerView>, peer: u64, frame: Seq<u8>) -> bool {
    known.contains_key(peer) && peers::wanted(known[peer].subscriptions, frame)
}

/// The targets of a message: each peer that has asked for its first frame, once, with
/// its queue. A message without frames goes nowhere.
pub open spec fn targets_of(
    known: Map<u64, PeerView>,
    message: Seq<Seq<u8>>,
    targets: Seq<Target>,
) -> bool {
    &&& forall|i: int, j: int|
        0 <= i < j < targets.len() ==> (#[trigger] targets[i]).peer != (#[trigger] targets[j]).peer
    &&& forall|i: int|
        0 <= i < targets.len() ==> message.len() > 0 && asks(
            known,
            (#[trigger] targets[i]).peer,
            message[0],
        ) && targets[i].queue == known[targets[i].peer].send_queue
    &&& forall|peer: u64|
        message.len() > 0 && #[trigger] asks(known, peer, message[0]) ==> exists|i: int|
            0 <= i < targets.len() && (#[trigger] targets[i]).peer == peer
}

/// What became of a try.
pub enum Verdict {
    /// The message went out, or was dropped.
    Done,
    /// The peer is gone.
    Dead,
    /// Publishing fails.
    Fail(ZmqError),
}

/// A broken pipe shows that the peer is gone. Other I/O failures and full queues drop
/// the message for that peer: <https://rfc.zeromq.org/spec/29/> says that a publisher
/// SHALL silently drop the message if the queue for a subscriber is full. Any other
/// error ends the publication.
pub open spec fn verdict(outcome: Result<(), ZmqError>) -> Verdict {
    match outcome {
        Ok(()) => Verdict::Done,
        Err(ZmqError::Codec(CodecError::Io(kind))) => if kind == IoErrorKind::BrokenPipe {
            Verdict::Dead
        } else {
            Verdict::Done
        },
        Err(ZmqError::BufferFull(_)) => Verdict::Done,
        Err(e) => Verdict::Fail(e),
    }
}

/// What a try makes of a publication: it is counted, and a dead peer is kept in mind. A
/// failure changes nothing.
pub open spec fn noted(p: Publication, outcome: Result<(), ZmqError>, after: Publication) -> bool {
    &&& after.message == p.message
    &&& after.targets == p.targets
    &&& match verdict(outcome) {
        Verdict::Done => after.tried == p.tried + 1 && after.dead@ == p.dead@,
        Verdict::Dead => after.tried == p.tried + 1 && after.dead@ == p.dead@.push(
            p.targets@[p.tried as int].peer,
        ),
        Verdict::Fail(_) => after == p,
    }
}

impl Publication {
    /// No more targets were tried than there are.
    pub open spec fn wf(&self) -> bool {
        self.tried <= self.targets@.len()
    }

    /// The queue to try next, and the frames to try it with.
    pub open spec fn offer(&self) -> Option<(u64, Seq<Seq<u8>>)> {
        if self.tried < self.targets@.len() {
            Some((self.targets@[self.tried as int].queue, self.message@))
        } else {
            None
        }
    }

    /// The queue to try next with the message, while targets are left.
    pub fn next(&self) -> (r: Option<(u64, ZmqMessage)>)
        requires
            self.wf(),
        ensures
            r is Some <==> self.offer() is Some,
            r matches Some((queue, message)) ==> self.offer() == Some((queue, message@)),
    {
        if self.tried < self.targets.len() {
            Some((self.targets[self.tried].queue, self.message.clone()))
        } else {
            None
        }
    }

    /// Takes note of how the try went. An error that is returned ends the publication.
    pub fn note(&mut self, outcome: Result<(), ZmqError>) -> (failure: Option<ZmqError>)
        requires
            old(self).tried < old(self).targets@.len(),
        ensures
            noted(*old(self), outcome, *final(self)),
            failure == match verdict(outcome) {
                Verdict::Fail(e) => Some(e),
                _ => None,
            },
    {
        match outcome {
            Ok(()) => {},
            Err(ZmqError::Codec(CodecError::Io(kind))) => {
                if kind == IoErrorKind::BrokenPipe {
                    self.dead.push(self.targets[self.tried].peer);
                }
            },
            Err(ZmqError::BufferFull(_)) => {},
            Err(e) => {
                return Some(e);
            },
        }
        assert(self.tried < self.targets.len());
        self.tried = self.tried + 1;
        None
    }
}

/// A publication that begins: the message, all its targets, and nothing tried yet.
pub open spec fn begins(known: Map<u64, PeerView>, message: ZmqMessage, p: Publication) -> bool {
    &&& p.wf()
    &&& p.message == message
    &&& p.tried == 0
    &&& p.dead@.len() == 0
    &&& targets_of(known, message@, p.targets@)
}

/// What comes of a publication that ends: the peers found to be gone are let go, unless it
/// failed.
pub open spec fn ended(
    was: RegistryView,
    said: Seq<ActionView>,
    p: Publication,
    failure: Option<ZmqError>,
    is: RegistryView,
    out: Seq<ActionView>,
    result: Result<(), ZmqError>,
) -> bool {
    match failure {
        None => {
            &&& result is Ok
            &&& is == was.disconnected_all(p.dead@)
            &&& out == said + was.disconnect_all_actions(p.dead@)
        },
        Some(e) => {
            &&& result == Err::<(), ZmqError>(e)
            &&& is == was
            &&& out == said
        },
    }
}

/// Finds the peers that a message goes to.
pub fn publish<P: PeerPolicy>(r: &Registry<P>, message: ZmqMessage) -> (p: Publication)
    ensures
        begins(r@.peers, message, p),
{
    let mut targets: Vec<Target> = Vec::new();
    match message.get(0) {
        Some(frame) => {
            let ids = r.peers.ids();
            let ghost known = r@.peers;
            let mut i: usize = 0;
            while i < ids.len()
                invariant
                    i <= ids@.len(),
                    known == r@.peers,
                    frame@ == message@[0],
                    message@.len() > 0,
                    ids@.no_duplicates(),
                    forall|a: int, b: int|
                        0 <= a < b < targets@.len() ==> (#[trigger] targets@[a]).peer != (
                        #[trigger] targets@[b]).peer,
                    forall|a: int|
                        0 <= a < targets@.len() ==> asks(
                            known,
                            (#[trigger] targets@[a]).peer,
                            message@[0],
                        ) && targets@[a].queue == known[targets@[a].peer].send_queue,
                    forall|a: int|
                        0 <= a < targets@.len() ==> exists|j: int|
                            0 <= j < i && ids@[j] == (#[trigger] targets@[a]).peer,
                    forall|j: int|
                        0 <= j < i && asks(known, #[trigger] ids@[j], message@[0]) ==> exists|a: int|
                            0 <= a < targets@.len() && (#[trigger] targets@[a]).peer == ids@[j],
                decreases ids@.len() - i,
            {
                let peer = ids[i];
                let ghost before = targets@;
                match r.peers.queue_for(peer, frame) {
                    Some(queue) => {
                        targets.push(Target { peer, queue });
                        proof {
                            assert(targets@[before.len() as int].peer == ids@[i as int]);
                            assert forall|j: int|
                                0 <= j < i + 1 && asks(
                                    known,
                                    #[trigger] ids@[j],
                                    message@[0],
                                ) implies exists|a: int|
                                0 <= a < targets@.len() && (#[trigger] targets@[a]).peer
                                    == ids@[j] by {
                                if j < i {
                                    let a = choose|a: int|
                                        0 <= a < before.len() && (#[trigger] before[a]).peer
                                            == ids@[j];
                                    assert(targets@[a].peer == ids@[j]);
                                }
                            }
                        }
                    },
                    None => {},
                }
                i = i + 1;
            }
            assert forall|peer: u64|
                message@.len() > 0 && #[trigger] asks(known, peer, message@[0]) implies exists|
                a: int,
            | 0 <= a < targets@.len() && (#[trigger] targets@[a]).peer == peer by {
                assert(ids@.to_set().contains(peer));
                let j = choose|j: int| 0 <= j < ids@.len() && ids@[j] == peer;
                assert(asks(known, ids@[j], message@[0]));
            }
        },
        None => {},
    }
    Publication { message, targets, tried: 0, dead: Vec::new() }
}

/// Ends a publication: the peers found to be gone are let go, unless it failed.
pub fn published<P: PeerPolicy>(
    r: &mut Registry<P>,
    p: Publication,
    failure: Option<ZmqError>,
    out: &mut Actions,
) -> (result: Result<(), ZmqError>)
    ensures
        ended(old(r)@, old(out)@, p, failure, final(r)@, final(out)@, result),
{
    match failure {
        None => {
            r.peers_disconnected(&p.dead, out);
            Ok(())
        },
        Some(e) => Err(e),
    }
}

/// The peers that tries in turn have shown to be gone.
pub open spec fn found_dead(targets: Seq<Target>, outcomes: Seq<Result<(), ZmqError>>) -> Seq<u64>
    decreases outcomes.len(),
{
    if outcomes.len() == 0 {
        Seq::empty()
    } else {
        let earlier = found_dead(targets, outcomes.drop_last());
        if verdict(outcomes.last()) is Dead {
            earlier.push(targets[outcomes.len() - 1].peer)
        } else {
            earlier
        }
    }
}

/// Each target is tried once, in turn, and exactly the peers whose pipe was broken are let
/// go in the end. `states` are those that a publication goes through while no try fails.
pub proof fn each_target_is_tried_once(
    states: Seq<Publication>,
    outcomes: Seq<Result<(), ZmqError>>,
)
    requires
        states.len() == outcomes.len() + 1,
        states[0].tried == 0,
        states[0].dead@.len() == 0,
        forall|i: int|
            0 <= i < outcomes.len() ==> noted(states[i], #[trigger] outcomes[i], states[i + 1])
                && !(verdict(outcomes[i]) is Fail),
    ensures
        states.last().tried == outcomes.len(),
        states.last().targets == states[0].targets,
        states.last().message == states[0].message,
        states.last().dead@ == found_dead(states[0].targets@, outcomes),
    decreases outcomes.len(),
{
    if outcomes.len() > 0 {
        let n = outcomes.len() - 1;
        let earlier = outcomes.drop_last();
        assert forall|i: int| 0 <= i < earlier.len() implies noted(
            states.drop_last()[i],
            #[trigger] earlier[i],
            states.drop_last()[i + 1],
        ) && !(verdict(earlier[i]) is Fail) by {
            assert(earlier[i] == outcomes[i]);
        }
        each_target_is_tried_once(states.drop_last(), earlier);
        assert(noted(states[n], outcomes[n], states[n + 1]));
    } else {
        assert(states[0].dead@ =~= Seq::empty());
    }
}

/// Two ways of listing the targets of a message list the same peers with the same queues.
pub proof fn targets_are_determined(
    known: Map<u64, PeerView>,
    message: Seq<Seq<u8>>,
    a: Seq<Target>,
    b: Seq<Target>,
    t: Target,
)
    requires
        targets_of(known, message, a),
        targets_of(known, message, b),
    ensures
        a.contains(t) <==> b.contains(t),
        a.contains(t) <==> message.len() > 0 && asks(known, t.peer, message[0]) && t.queue
            == known[t.peer].send_queue,
{
    if message.len() > 0 && asks(known, t.peer, message[0]) && t.queue
        == known[t.peer].send_queue {
        let i = choose|i: int| 0 <= i < a.len() && (#[trigger] a[i]).peer == t.peer;
        assert(a[i] == t);
        let j = choose|j: int| 0 <= j < b.len() && (#[trigger] b[j]).peer == t.peer;
        assert(b[j] == t);
    }
}

/// What one peer sends changes nothing of what others have asked for. Messages of several
/// frames or none, empty frames, frames that begin with any other octet, and commands
/// change nothing at all.
pub proof fn only_requests_change_subscriptions(
    known: Map<u64, PeerView>,
    peer: u64,
    message: MessageView,
    other: u64,
)
    ensures
        ({
            let after = after_message(known, peer, message);
            &&& after.dom() == known.dom()
            &&& other != peer && known.contains_key(other) ==> after[other] == known[other]
            &&& !(message is Message) ==> after == known
            &&& message matches MessageView::Message(frames) ==> (frames.len() != 1
                || frames[0].len() == 0 || frames[0][0] > 1 ==> after == known)
        }),
{
    assert(after_message(known, peer, message).dom() =~= known.dom());
}

/// A message goes to a peer exactly where its first frame is one of the peer's topics with
/// something behind it; it goes to the peer's queue, and to each peer once.
pub proof fn messages_reach_their_subscribers(
    known: Map<u64, PeerView>,
    message: Seq<Seq<u8>>,
    targets: Seq<Target>,
    peer: u64,
)
    requires
        targets_of(known, message, targets),
    ensures
        (exists|i: int| 0 <= i < targets.len() && (#[trigger] targets[i]).peer == peer) <==> (
        message.len() > 0 && known.contains_key(peer) && exists|topic: Seq<u8>, rest: Seq<u8>|
            #[trigger] known[peer].subscriptions.contains(topic) && message[0] == #[trigger] (topic
                + rest)),
        forall|i: int|
            0 <= i < targets.len() && (#[trigger] targets[i]).peer == peer ==> targets[i].queue
                == known[peer].send_queue,
        forall|i: int, j: int|
            0 <= i < targets.len() && 0 <= j < targets.len() && (#[trigger] targets[i]).peer == peer
                && (#[trigger] targets[j]).peer == peer ==> i == j,
{
    if message.len() > 0 && known.contains_key(peer) {
        peers::wanted_frames_begin_with_a_topic(known[peer], message[0]);
        if exists|topic: Seq<u8>, rest: Seq<u8>| #[trigger]
            known[peer].subscriptions.contains(topic) && message[0] == #[trigger] (topic + rest) {
            assert(asks(known, peer, message[0]));
        }
    }
}

/// A message of one frame that begins with the octet 1 asks for what follows the octet: the
/// peer that sent it then has that topic behind its earlier ones. With the octet 0 it gives
/// the topic up. Nobody else's topics change.
pub proof fn requests_are_heard(
    known: Map<u64, PeerView>,
    peer: u64,
    topic: Seq<u8>,
    frame: Seq<u8>,
    other: u64,
)
    requires
        known.contains_key(peer),
    ensures
        ({
            let on = after_message(known, peer, MessageView::Message(seq![seq![1u8] + topic]));
            let off = after_message(known, peer, MessageView::Message(seq![seq![0u8] + topic]));
            &&& on[peer].subscriptions == known[peer].subscriptions + seq![topic]
            &&& off[peer].subscriptions == peers::without_first(known[peer].subscriptions, topic)
            &&& on[peer].send_queue == known[peer].send_queue
            &&& off[peer].send_queue == known[peer].send_queue
            &&& on.dom() == known.dom() && off.dom() == known.dom()
            &&& other != peer && known.contains_key(other) ==> on[other] == known[other]
                && off[other] == known[other]
            &&& asks(on, peer, frame) <==> asks(known, peer, frame) || exists|rest: Seq<u8>|
                frame == #[trigger] (topic + rest)
        }),
{
    let on = seq![1u8] + topic;
    let off = seq![0u8] + topic;
    assert(on.skip(1) =~= topic);
    assert(off.skip(1) =~= topic);
    peers::requests_reach_one_peer(known, peer, topic, other);
    peers::subscribe_adds_frames(known[peer].subscriptions, topic, frame);
    peers::topics_match_octet_by_octet(topic, frame);
    assert(known[peer].subscriptions + seq![topic] =~= known[peer].subscriptions.push(topic));
}

/// What becomes of a try: the peer counts as gone where its pipe was broken, and only there;
/// what was sent, what a full queue did not take and what any other I/O failure lost is done
/// with; everything else is handed on as it is.
pub proof fn verdicts_follow_the_outcome(outcome: Result<(), ZmqError>)
    ensures
        verdict(outcome) is Dead <==> outcome is Err && outcome->Err_0 is Codec
            && outcome->Err_0->Codec_0 == CodecError::Io(IoErrorKind::BrokenPipe),
        verdict(outcome) is Done <==> outcome is Ok || outcome->Err_0 is BufferFull || (
        outcome->Err_0 is Codec && outcome->Err_0->Codec_0 is Io && outcome->Err_0->Codec_0
            != CodecError::Io(IoErrorKind::BrokenPipe)),
        verdict(outcome) matches Verdict::Fail(e) ==> outcome == Err::<(), ZmqError>(e),
{
}

/// The peers let go after a publication are those whose try ended in a broken pipe.
pub proof fn broken_pipes_are_remembered(
    targets: Seq<Target>,
    outcomes: Seq<Result<(), ZmqError>>,
    peer: u64,
)
    requires
        outcomes.len() <= targets.len(),
    ensures
        found_dead(targets, outcomes).contains(peer) <==> exists|i: int|
            0 <= i < outcomes.len() && (#[trigger] targets[i]).peer == peer && outcomes[i] is Err
                && outcomes[i]->Err_0 is Codec && outcomes[i]->Err_0->Codec_0 == CodecError::Io(
                IoErrorKind::BrokenPipe,
            ),
    decreases outcomes.len(),
{
    if outcomes.len() > 0 {
        let n = outcomes.len() - 1;
        let earlier = outcomes.drop_last();
        broken_pipes_are_remembered(targets, earlier, peer);
        verdicts_follow_the_outcome(outcomes[n]);
        let before = found_dead(targets, earlier);
        let after = found_dead(targets, outcomes);
        if before.contains(peer) {
            let i = choose|i: int|
                0 <= i < earlier.len() && (#[trigger] targets[i]).peer == peer && earlier[i] is Err
                    && earlier[i]->Err_0 is Codec && earlier[i]->Err_0->Codec_0 == CodecError::Io(
                    IoErrorKind::BrokenPipe,
                );
            assert(earlier[i] == outcomes[i]);
            assert(after[before.index_of(peer)] == peer);
        }
        if verdict(outcomes[n]) is Dead {
            assert(after == before.push(targets[n].peer));
            assert(after[before.len() as int] == targets[n].peer);
            assert forall|q: u64| #[trigger] after.contains(q) implies before.contains(q) || q
                == targets[n].peer by {}
        }
        if exists|i: int|
            0 <= i < outcomes.len() && (#[trigger] targets[i]).peer == peer && outcomes[i] is Err
                && outcomes[i]->Err_0 is Codec && outcomes[i]->Err_0->Codec_0 == CodecError::Io(
                IoErrorKind::BrokenPipe,
            ) {
            let i = choose|i: int|
                0 <= i < outcomes.len() && (#[trigger] targets[i]).peer == peer && outcomes[i]
                    is Err && outcomes[i]->Err_0 is Codec && outcomes[i]->Err_0->Codec_0
                    == CodecError::Io(IoErrorKind::BrokenPipe);
            if i < n {
                assert(earlier[i] == outcomes[i]);
            }
        }
    }
}

/// As long as targets are left, the next is offered the whole message; then nobody is.
pub proof fn targets_are_offered_the_whole_message(p: Publication)
    ensures
        p.tried >= p.targets@.len() ==> p.offer() is None,
        p.tried < p.targets@.len() ==> (p.offer() matches Some((queue, frames)) && queue
            == p.targets@[p.tried as int].queue && frames.len() == p.message@.len() && (forall|
            i: int,
        | 0 <= i < p.message@.len() ==> #[trigger] frames[i] == p.message@[i])),
{
}

/// A publication begins with the whole message, with nothing tried and nobody found gone, and
/// with each peer that has asked for the message as a target, once.
pub proof fn publications_begin_complete(
    known: Map<u64, PeerView>,
    message: ZmqMessage,
    p: Publication,
    peer: u64,
)
    requires
        begins(known, message, p),
    ensures
        p.message@ == message@,
        p.tried == 0,
        p.dead@.len() == 0,
        p.wf(),
        (exists|i: int| 0 <= i < p.targets@.len() && (#[trigger] p.targets@[i]).peer == peer) <==> (
        message@.len() > 0 && known.contains_key(peer) && exists|topic: Seq<u8>, rest: Seq<u8>|
            #[trigger] known[peer].subscriptions.contains(topic) && message@[0] == #[trigger] (topic
                + rest)),
{
    messages_reach_their_subscribers(known, message@, p.targets@, peer);
}

/// After a publication that did not fail, the peers found gone are kept nowhere, and everybody
/// else keeps everything; after one that failed, the failure is handed on and nobody goes.
pub proof fn publications_end_with_the_gone_let_go(
    was: RegistryView,
    said: Seq<ActionView>,
    p: Publication,
    failure: Option<ZmqError>,
    is: RegistryView,
    out: Seq<ActionView>,
    result: Result<(), ZmqError>,
    peer: u64,
)
    requires
        ended(was, said, p, failure, is, out, result),
    ensures
        result is Ok <==> failure is None,
        failure matches Some(e) ==> result == Err::<(), ZmqError>(e) && is == was && out == said,
        failure is None && p.dead@.contains(peer) ==> !(is.peers.contains_key(peer)) && !(
        is.heartbeats.contains_key(peer)) && !(is.streams.contains_key(peer)),
        !p.dead@.contains(peer) && was.peers.contains_key(peer) ==> is.peers.contains_key(peer)
            && is.peers[peer] == was.peers[peer],
        !p.dead@.contains(peer) ==> lifecycle::same_at(was, is, peer),
{
    lifecycle::going_in_turn_leaves_the_others(was, p.dead@, peer);
}

} // verus!
