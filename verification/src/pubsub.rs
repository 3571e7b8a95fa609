//! How SUB sockets and publishing sockets understand each other.
use crate::message::MessageView;
use crate::peers;
use crate::peers::PeerView;
use crate::publish;
use crate::sub;
use crate::sub::SubBackendMsgType;
use vstd::prelude::*;
use vstd::utf8;

verus! {

/// A publisher takes a request for what the subscriber meant by it.
pub proof fn request_is_understood(known: Map<u64, PeerView>, peer: u64, topic: Seq<char>)
    ensures
        publish::after_message(
            known,
            peer,
            MessageView::Message(sub::request(topic, SubBackendMsgType::SUBSCRIBE)),
        ) == peers::subscribed(known, peer, utf8::encode_utf8(topic)),
        publish::after_message(
            known,
            peer,
            MessageView::Message(sub::request(topic, SubBackendMsgType::UNSUBSCRIBE)),
        ) == peers::unsubscribed(known, peer, utf8::encode_utf8(topic)),
{
    let octets = utf8::encode_utf8(topic);
    let on = seq![SubBackendMsgType::SUBSCRIBE.octet()] + octets;
    let off = seq![SubBackendMsgType::UNSUBSCRIBE.octet()] + octets;
    assert(on.skip(1) =~= octets);
    assert(off.skip(1) =~= octets);
}

/// A peer that asks for a topic is sent what begins with it, besides what it was sent
/// before; when it gives the topic up again, it is sent what it was sent before.
pub proof fn giving_up_ends_delivery(
    known: Map<u64, PeerView>,
    peer: u64,
    topic: Seq<char>,
    frame: Seq<u8>,
)
    requires
        known.contains_key(peer),
    ensures
        ({
            let asked = publish::after_message(
                known,
                peer,
                MessageView::Message(sub::request(topic, SubBackendMsgType::SUBSCRIBE)),
            );
            let after = publish::after_message(
                asked,
                peer,
                MessageView::Message(sub::request(topic, SubBackendMsgType::UNSUBSCRIBE)),
            );
            &&& publish::asks(asked, peer, frame) <==> (publish::asks(known, peer, frame)
                || peers::topic_matches(utf8::encode_utf8(topic), frame))
            &&& publish::asks(after, peer, frame) <==> publish::asks(known, peer, frame)
        }),
{
    let octets = utf8::encode_utf8(topic);
    request_is_understood(known, peer, topic);
    let asked = peers::subscribed(known, peer, octets);
    request_is_understood(asked, peer, topic);
    peers::subscribe_adds_frames(known[peer].subscriptions, octets, frame);
    peers::unsubscribe_undoes_subscribe(known[peer].subscriptions, octets, frame);
}

/// The peers of a publisher after messages from one of them.
pub open spec fn after_messages(
    known: Map<u64, PeerView>,
    peer: u64,
    messages: Seq<Seq<Seq<u8>>>,
) -> Map<u64, PeerView>
    decreases messages.len(),
{
    if messages.len() == 0 {
        known
    } else {
        publish::after_message(
            after_messages(known, peer, messages.drop_last()),
            peer,
            MessageView::Message(messages.last()),
        )
    }
}

/// The octets of topics.
pub open spec fn encoded(subs: Seq<Seq<char>>) -> Seq<Seq<u8>> {
    Seq::new(subs.len(), |i: int| utf8::encode_utf8(subs[i]))
}

/// What a subscriber sends to a new peer makes that peer know all its topics. So a
/// connection that was made again carries what the lost one carried.
pub proof fn new_peer_learns_all_topics(
    known: Map<u64, PeerView>,
    peer: u64,
    subs: Seq<Seq<char>>,
)
    requires
        known.contains_key(peer),
    ensures
        after_messages(known, peer, sub::requests(subs)).contains_key(peer),
        after_messages(known, peer, sub::requests(subs))[peer].subscriptions
            == known[peer].subscriptions + encoded(subs),
    decreases subs.len(),
{
    let all = sub::requests(subs);
    if subs.len() > 0 {
        let earlier = subs.drop_last();
        new_peer_learns_all_topics(known, peer, earlier);
        assert(all.drop_last() =~= sub::requests(earlier));
        assert(all.last() == sub::request(subs.last(), SubBackendMsgType::SUBSCRIBE));
        request_is_understood(after_messages(known, peer, all.drop_last()), peer, subs.last());
        assert(known[peer].subscriptions + encoded(subs) =~= (known[peer].subscriptions + encoded(
            earlier,
        )).push(utf8::encode_utf8(subs.last())));
    } else {
        assert(all.len() == 0);
        assert(known[peer].subscriptions + encoded(subs) =~= known[peer].subscriptions);
    }
}

} // verus!
