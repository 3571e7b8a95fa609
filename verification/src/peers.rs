//! The table of connected peers.
use crate::wire;
use std::hash::BuildHasher;
use vstd::prelude::*;

verus! {

/// `scc::HashMap`: a concurrent hash map.
#[verifier::external_type_specification]
#[verifier::external_body]
#[verifier::reject_recursive_types(K)]
#[verifier::reject_recursive_types(V)]
#[verifier::reject_recursive_types(H)]
pub struct ExSccHashMap<K, V, H: BuildHasher>(scc::HashMap<K, V, H>);

/// What a socket keeps of a connected peer.
#[derive(Debug)]
pub struct Peer {
    /// Handle of the queue that takes what is sent to the peer.
    pub send_queue: u64,
    /// The topics that the peer has asked for, in the order of asking.
    pub subscriptions: Vec<Vec<u8>>,
    /// Handle that stops the task which reads the peer's subscriptions, where the
    /// socket runs one.
    pub coro_stop: Option<u64>,
}

#[verifier::ext_equal]
pub struct PeerView {
    pub send_queue: u64,
    pub subscriptions: Seq<Seq<u8>>,
    pub coro_stop: Option<u64>,
}

/// The octets of each topic.
pub open spec fn topics_view(topics: Seq<Vec<u8>>) -> Seq<Seq<u8>> {
    Seq::new(topics.len(), |i: int| topics[i]@)
}

impl View for Peer {
    type V = PeerView;

    open spec fn view(&self) -> PeerView {
        PeerView {
            send_queue: self.send_queue,
            subscriptions: topics_view(self.subscriptions@),
            coro_stop: self.coro_stop,
        }
    }
}

/// What a lookup returned, as a value.
pub open spec fn found(peer: Option<Peer>) -> Option<PeerView> {
    match peer {
        Some(p) => Some(p@),
        None => None,
    }
}

/// What a map has under a key.
pub open spec fn entry(m: Map<u64, PeerView>, key: u64) -> Option<PeerView> {
    if m.contains_key(key) {
        Some(m[key])
    } else {
        None
    }
}

/// The peers that a map holds.
pub uninterp spec fn peers_in(m: scc::HashMap<u64, Peer>) -> Map<u64, PeerView>;

/// `scc::HashMap::new`: an empty map.
#[verifier::external_body]
fn map_new() -> (m: scc::HashMap<u64, Peer>)
    ensures
        (peers_in(m) == Map::<u64, PeerView>::empty()),
{
    scc::HashMap::new()
}

/// `scc::HashMap::upsert_sync`: puts a value under a key and returns the value that
/// was there.
#[verifier::external_body]
fn map_upsert(m: &mut scc::HashMap<u64, Peer>, key: u64, peer: Peer) -> (replaced: Option<Peer>)
    ensures
        peers_in(*final(m)) == peers_in(*old(m)).insert(key, peer@),
        found(replaced) == entry(peers_in(*old(m)), key),
{
    m.upsert_sync(key, peer)
}

/// `scc::HashMap::remove_sync`: takes a key out and returns the value that was under
/// it.
#[verifier::external_body]
fn map_remove(m: &mut scc::HashMap<u64, Peer>, key: u64) -> (removed: Option<Peer>)
    ensures
        peers_in(*final(m)) == peers_in(*old(m)).remove(key),
        found(removed) == entry(peers_in(*old(m)), key),
{
    m.remove_sync(&key).map(|e| e.1)
}

/// `scc::HashMap::read_sync`: what a reader makes of the value under a key, or
/// nothing where the key is missing.
#[verifier::external_body]
fn map_read<R, F: FnOnce(&Peer) -> R>(m: &scc::HashMap<u64, Peer>, key: u64, reader: F) -> (r:
    Option<R>)
    requires
        forall|p: &Peer| #[trigger] call_requires(reader, (p,)),
    ensures
        r is Some <==> peers_in(*m).contains_key(key),
        r matches Some(v) ==> exists|p: &Peer|
            p@ == peers_in(*m)[key] && #[trigger] call_ensures(reader, (p,), v),
{
    m.read_sync(&key, |_, p| reader(p))
}

/// `scc::HashMap::iter_sync`: hands out every key, each once, in no particular order.
#[verifier::external_body]
fn map_keys(m: &scc::HashMap<u64, Peer>) -> (keys: Vec<u64>)
    ensures
        keys@.no_duplicates(),
        keys@.to_set() == peers_in(*m).dom(),
{
    let mut keys: Vec<u64> = Vec::new();
    m.iter_sync(|key, _| {
        keys.push(*key);
        true
    });
    keys
}

/// `scc::HashMap::clear_sync`: takes everything out.
#[verifier::external_body]
fn map_clear(m: &mut scc::HashMap<u64, Peer>)
    ensures
        (peers_in(*final(m)) == Map::<u64, PeerView>::empty()),
{
    m.clear_sync()
}

/// The connected peers of a socket.
pub struct PeerTable {
    map: scc::HashMap<u64, Peer>,
}

impl View for PeerTable {
    type V = Map<u64, PeerView>;

    closed spec fn view(&self) -> Map<u64, PeerView> {
        peers_in(self.map)
    }
}

/// A topic is what the frame begins with.
pub open spec fn topic_matches(topic: Seq<u8>, frame: Seq<u8>) -> bool {
    topic.len() <= frame.len() && frame.take(topic.len() as int) == topic
}

/// Some topic is what the frame begins with.
pub open spec fn wanted(topics: Seq<Seq<u8>>, frame: Seq<u8>) -> bool {
    exists|i: int| 0 <= i < topics.len() && topic_matches(#[trigger] topics[i], frame)
}

/// A row of topics without the first that equals `topic`.
pub open spec fn without_first(topics: Seq<Seq<u8>>, topic: Seq<u8>) -> Seq<Seq<u8>>
    decreases topics.len(),
{
    if topics.len() == 0 {
        topics
    } else if topics[0] == topic {
        topics.skip(1)
    } else {
        seq![topics[0]] + without_first(topics.skip(1), topic)
    }
}

/// The queue to which a frame goes on to a peer: none where the peer has not asked
/// for it.
pub open spec fn queue_for(peer: PeerView, frame: Seq<u8>) -> Option<u64> {
    if wanted(peer.subscriptions, frame) {
        Some(peer.send_queue)
    } else {
        None
    }
}

/// A peer as it comes: it has asked for nothing, and no task reads what it asks for.
pub open spec fn plain(send_queue: u64) -> PeerView {
    PeerView { send_queue, subscriptions: Seq::empty(), coro_stop: None }
}

impl Peer {
    /// A peer as it comes.
    pub fn new(send_queue: u64) -> (r: Peer)
        ensures
            r@ == plain(send_queue),
    {
        let r = Peer { send_queue, subscriptions: Vec::new(), coro_stop: None };
        assert(r@.subscriptions =~= Seq::empty());
        r
    }

    /// The queue to which a message with this first frame goes on to the peer.
    pub fn queue_for(&self, frame: &[u8]) -> (queue: Option<u64>)
        ensures
            queue == queue_for(self@, frame@),
    {
        let mut i: usize = 0;
        while i < self.subscriptions.len()
            invariant
                i <= self.subscriptions@.len(),
                forall|j: int| 0 <= j < i ==> !topic_matches(self@.subscriptions[j], frame@),
            decreases self.subscriptions@.len() - i,
        {
            let topic = &self.subscriptions[i];
            assert(self@.subscriptions[i as int] == topic@);
            if topic.len() <= frame.len() && wire::same_octets(
                topic.as_slice(),
                vstd::slice::slice_subrange(frame, 0, topic.len()),
            ) {
                assert(frame@.subrange(0, topic@.len() as int) =~= frame@.take(topic@.len() as int));
                assert(topic_matches(self@.subscriptions[i as int], frame@));
                return Some(self.send_queue);
            }
            assert(frame@.len() >= topic@.len() ==> frame@.subrange(0, topic@.len() as int)
                =~= frame@.take(topic@.len() as int));
            i = i + 1;
        }
        None
    }

    /// Adds a topic behind the others.
    pub fn subscribe(&mut self, topic: Vec<u8>)
        ensures
            final(self)@ == (PeerView {
                subscriptions: old(self)@.subscriptions.push(topic@),
                ..old(self)@
            }),
    {
        let ghost before = self.subscriptions@;
        self.subscriptions.push(topic);
        assert(topics_view(self.subscriptions@) =~= topics_view(before).push(topic@));
    }

    /// Takes out the first topic that equals `topic`.
    pub fn unsubscribe(&mut self, topic: &[u8])
        ensures
            final(self)@ == (PeerView {
                subscriptions: without_first(old(self)@.subscriptions, topic@),
                ..old(self)@
            }),
    {
        let ghost topics = self@.subscriptions;
        let mut i: usize = 0;
        assert(topics.skip(0) =~= topics);
        assert(topics.take(0) + without_first(topics, topic@) =~= without_first(topics, topic@));
        while i < self.subscriptions.len()
            invariant
                *self == *old(self),
                topics == self@.subscriptions,
                i <= topics.len(),
                without_first(topics, topic@) == topics.take(i as int) + without_first(
                    topics.skip(i as int),
                    topic@,
                ),
            decreases topics.len() - i,
        {
            let ghost rest = topics.skip(i as int);
            assert(rest.skip(1) =~= topics.skip(i + 1));
            assert(rest[0] == self.subscriptions@[i as int]@);
            if wire::same_octets(self.subscriptions[i].as_slice(), topic) {
                let ghost before = self.subscriptions@;
                self.subscriptions.remove(i);
                assert(topics_view(self.subscriptions@) =~= topics.take(i as int) + topics.skip(
                    i + 1,
                ));
                return;
            }
            assert(topics.take(i as int) + (seq![rest[0]] + without_first(rest.skip(1), topic@))
                =~= topics.take(i + 1) + without_first(topics.skip(i + 1), topic@));
            i = i + 1;
        }
        assert(topics.take(i as int) + without_first(topics.skip(i as int), topic@) =~= topics);
    }
}

impl PeerTable {
    pub fn new() -> (r: PeerTable)
        ensures
            r@ == Map::<u64, PeerView>::empty(),
    {
        PeerTable { map: map_new() }
    }

    /// Takes a peer in, in place of the one that had its key.
    pub fn insert(&mut self, id: u64, peer: Peer) -> (replaced: Option<Peer>)
        ensures
            final(self)@ == old(self)@.insert(id, peer@),
            found(replaced) == entry(old(self)@, id),
    {
        map_upsert(&mut self.map, id, peer)
    }

    pub fn remove(&mut self, id: u64) -> (removed: Option<Peer>)
        ensures
            final(self)@ == old(self)@.remove(id),
            found(removed) == entry(old(self)@, id),
    {
        map_remove(&mut self.map, id)
    }

    pub fn clear(&mut self)
        ensures
            final(self)@ == Map::<u64, PeerView>::empty(),
    {
        map_clear(&mut self.map)
    }

    /// The keys of the peers, in no particular order.
    pub fn ids(&self) -> (ids: Vec<u64>)
        ensures
            ids@.no_duplicates(),
            ids@.to_set() == self@.dom(),
    {
        map_keys(&self.map)
    }

    /// The queue that takes what is sent to a peer.
    pub fn send_queue(&self, id: u64) -> (queue: Option<u64>)
        ensures
            queue == (match entry(self@, id) {
                Some(p) => Some(p.send_queue),
                None => None,
            }),
    {
        let reader = |p: &Peer| -> (q: u64)
            ensures
                q == p@.send_queue,
        {
            p.send_queue
        };
        map_read(&self.map, id, reader)
    }

    /// The handle that stops a peer's subscription task.
    pub fn coro_stop(&self, id: u64) -> (stop: Option<u64>)
        ensures
            stop == (match entry(self@, id) {
                Some(p) => p.coro_stop,
                None => None,
            }),
    {
        let reader = |p: &Peer| -> (s: Option<u64>)
            ensures
                s == p@.coro_stop,
        {
            p.coro_stop
        };
        match map_read(&self.map, id, reader) {
            Some(stop) => stop,
            None => None,
        }
    }

    /// The queue to which a message with this first frame goes on to a peer.
    pub fn queue_for(&self, id: u64, frame: &[u8]) -> (queue: Option<u64>)
        ensures
            queue == (match entry(self@, id) {
                Some(p) => queue_for(p, frame@),
                None => None,
            }),
    {
        let reader = |p: &Peer| -> (q: Option<u64>)
            ensures
                q == queue_for(p@, frame@),
        {
            p.queue_for(frame)
        };
        match map_read(&self.map, id, reader) {
            Some(queue) => queue,
            None => None,
        }
    }

    /// Adds a topic to those of a peer. Nothing happens where there is no such peer.
    pub fn subscribe(&mut self, id: u64, topic: Vec<u8>)
        ensures
            final(self)@ == subscribed(old(self)@, id, topic@),
    {
        match self.remove(id) {
            Some(mut peer) => {
                peer.subscribe(topic);
                self.insert(id, peer);
            },
            None => {},
        }
        assert(self@ =~= subscribed(old(self)@, id, topic@));
    }

    /// Takes a topic out of those of a peer, once. Nothing happens where there is no
    /// such peer or topic.
    pub fn unsubscribe(&mut self, id: u64, topic: &[u8])
        ensures
            final(self)@ == unsubscribed(old(self)@, id, topic@),
    {
        match self.remove(id) {
            Some(mut peer) => {
                peer.unsubscribe(topic);
                self.insert(id, peer);
            },
            None => {},
        }
        assert(self@ =~= unsubscribed(old(self)@, id, topic@));
    }
}

/// Peers after one has asked for a topic.
pub open spec fn subscribed(m: Map<u64, PeerView>, id: u64, topic: Seq<u8>) -> Map<u64, PeerView> {
    if m.contains_key(id) {
        m.insert(id, PeerView { subscriptions: m[id].subscriptions.push(topic), ..m[id] })
    } else {
        m
    }
}

/// Peers after one has given a topic up.
pub open spec fn unsubscribed(m: Map<u64, PeerView>, id: u64, topic: Seq<u8>) -> Map<
    u64,
    PeerView,
> {
    if m.contains_key(id) {
        m.insert(
            id,
            PeerView { subscriptions: without_first(m[id].subscriptions, topic), ..m[id] },
        )
    } else {
        m
    }
}

/// Taking out the first equal topic takes exactly one occurrence out.
proof fn without_first_counts(topics: Seq<Seq<u8>>, topic: Seq<u8>)
    ensures
        topics.contains(topic) ==> topics.to_multiset() == without_first(
            topics,
            topic,
        ).to_multiset().insert(topic),
        !topics.contains(topic) ==> without_first(topics, topic) == topics,
    decreases topics.len(),
{
    broadcast use vstd::seq_lib::group_to_multiset_ensures;

    if topics.len() > 0 {
        let rest = topics.skip(1);
        without_first_counts(rest, topic);
        assert(topics =~= seq![topics[0]] + rest);
        vstd::seq_lib::lemma_multiset_commutative(seq![topics[0]], rest);
        if topics[0] == topic {
            assert(topics.to_multiset() =~= rest.to_multiset().insert(topic)) by {
                assert(seq![topics[0]].to_multiset() =~= vstd::multiset::Multiset::singleton(topic)) by {
                    assert(seq![topics[0]] =~= Seq::empty().push(topics[0]));
                }
            }
        } else {
            vstd::seq_lib::lemma_multiset_commutative(
                seq![topics[0]],
                without_first(rest, topic),
            );
            if topics.contains(topic) {
                let i = choose|i: int| 0 <= i < topics.len() && topics[i] == topic;
                assert(rest[i - 1] == topic);
                assert(topics.to_multiset() =~= without_first(topics, topic).to_multiset().insert(
                    topic,
                ));
            } else {
                assert forall|i: int| 0 <= i < rest.len() implies rest[i] != topic by {
                    assert(rest[i] == topics[i + 1]);
                }
                assert(without_first(topics, topic) =~= topics);
            }
        }
    }
}

/// Which frames are wanted depends on the topics, not on their order.
pub proof fn wanted_ignores_order(a: Seq<Seq<u8>>, b: Seq<Seq<u8>>, frame: Seq<u8>)
    requires
        a.to_multiset() == b.to_multiset(),
    ensures
        wanted(a, frame) == wanted(b, frame),
{
    broadcast use vstd::seq_lib::group_to_multiset_ensures;

    if wanted(a, frame) {
        let i = choose|i: int| 0 <= i < a.len() && topic_matches(#[trigger] a[i], frame);
        assert(a.contains(a[i]));
        assert(b.to_multiset().count(a[i]) > 0);
        assert(b.contains(a[i]));
        let j = choose|j: int| 0 <= j < b.len() && b[j] == a[i];
        assert(topic_matches(b[j], frame));
    }
    if wanted(b, frame) {
        let i = choose|i: int| 0 <= i < b.len() && topic_matches(#[trigger] b[i], frame);
        assert(b.contains(b[i]));
        assert(a.to_multiset().count(b[i]) > 0);
        assert(a.contains(b[i]));
        let j = choose|j: int| 0 <= j < a.len() && a[j] == b[i];
        assert(topic_matches(a[j], frame));
    }
}

/// Giving a topic up undoes asking for it: the topics are the same, if not their
/// order, and so are the frames that are wanted.
pub proof fn unsubscribe_undoes_subscribe(topics: Seq<Seq<u8>>, topic: Seq<u8>, frame: Seq<u8>)
    ensures
        without_first(topics.push(topic), topic).to_multiset() == topics.to_multiset(),
        wanted(without_first(topics.push(topic), topic), frame) == wanted(topics, frame),
{
    broadcast use vstd::seq_lib::group_to_multiset_ensures;

    let more = topics.push(topic);
    assert(more[topics.len() as int] == topic);
    assert(more.contains(topic));
    without_first_counts(more, topic);
    let back = without_first(more, topic);
    assert(back.to_multiset().insert(topic) == topics.to_multiset().insert(topic));
    assert(back.to_multiset() =~= topics.to_multiset()) by {
        assert forall|t: Seq<u8>| back.to_multiset().count(t) == topics.to_multiset().count(t) by {
            assert(back.to_multiset().insert(topic).count(t) == topics.to_multiset().insert(
                topic,
            ).count(t));
        }
    }
    wanted_ignores_order(back, topics, frame);
}

/// Asking for one more topic adds exactly the frames that begin with it; the empty
/// topic asks for every frame.
pub proof fn subscribe_adds_frames(topics: Seq<Seq<u8>>, topic: Seq<u8>, frame: Seq<u8>)
    ensures
        wanted(topics.push(topic), frame) == (wanted(topics, frame) || topic_matches(topic, frame)),
        topic_matches(Seq::empty(), frame),
{
    let more = topics.push(topic);
    assert(frame.take(0) =~= Seq::empty());
    if wanted(topics, frame) {
        let i = choose|i: int| 0 <= i < topics.len() && topic_matches(#[trigger] topics[i], frame);
        assert(more[i] == topics[i]);
    }
    if topic_matches(topic, frame) {
        assert(more[topics.len() as int] == topic);
    }
    if wanted(more, frame) {
        let i = choose|i: int| 0 <= i < more.len() && topic_matches(#[trigger] more[i], frame);
        if i < topics.len() {
            assert(more[i] == topics[i]);
        }
    }
}

/// A topic matches a frame exactly where the frame has an octet for each of its octets, and
/// the same octet; which is to say that the frame is the topic with something behind it.
pub proof fn topics_match_octet_by_octet(topic: Seq<u8>, frame: Seq<u8>)
    ensures
        topic_matches(topic, frame) <==> topic.len() <= frame.len() && forall|i: int|
            0 <= i < topic.len() ==> #[trigger] frame[i] == topic[i],
        topic_matches(topic, frame) <==> exists|rest: Seq<u8>| frame == #[trigger] (topic + rest),
{
    if topic_matches(topic, frame) {
        let rest = frame.skip(topic.len() as int);
        assert forall|i: int| 0 <= i < topic.len() implies #[trigger] frame[i] == topic[i] by {
            assert(frame.take(topic.len() as int)[i] == topic[i]);
        }
        assert(frame =~= topic + rest);
    }
    if topic.len() <= frame.len() && forall|i: int|
        0 <= i < topic.len() ==> #[trigger] frame[i] == topic[i] {
        assert(frame.take(topic.len() as int) =~= topic);
    }
    if exists|rest: Seq<u8>| frame == #[trigger] (topic + rest) {
        let rest = choose|rest: Seq<u8>| frame == #[trigger] (topic + rest);
        assert(frame.take(topic.len() as int) =~= topic);
    }
}

/// A frame is wanted exactly where it is one of the topics with something behind it, and
/// then it goes to the peer's own queue.
pub proof fn wanted_frames_begin_with_a_topic(peer: PeerView, frame: Seq<u8>)
    ensures
        wanted(peer.subscriptions, frame) <==> exists|topic: Seq<u8>, rest: Seq<u8>|
            #[trigger] peer.subscriptions.contains(topic) && frame == #[trigger] (topic + rest),
        queue_for(peer, frame) is Some <==> exists|topic: Seq<u8>, rest: Seq<u8>|
            #[trigger] peer.subscriptions.contains(topic) && frame == #[trigger] (topic + rest),
        queue_for(peer, frame) matches Some(queue) ==> queue == peer.send_queue,
{
    let topics = peer.subscriptions;
    if wanted(topics, frame) {
        let i = choose|i: int| 0 <= i < topics.len() && topic_matches(#[trigger] topics[i], frame);
        topics_match_octet_by_octet(topics[i], frame);
        let rest = choose|rest: Seq<u8>| frame == #[trigger] (topics[i] + rest);
        assert(topics.contains(topics[i]) && frame == topics[i] + rest);
    }
    if exists|topic: Seq<u8>, rest: Seq<u8>| #[trigger]
        topics.contains(topic) && frame == #[trigger] (topic + rest) {
        let (topic, rest) = choose|topic: Seq<u8>, rest: Seq<u8>| #[trigger]
            topics.contains(topic) && frame == #[trigger] (topic + rest);
        topics_match_octet_by_octet(topic, frame);
        let i = topics.index_of(topic);
        assert(topic_matches(topics[i], frame));
    }
}

/// Giving a topic up takes its first occurrence out and keeps the rest in order; giving up
/// what was not asked for changes nothing.
pub proof fn first_occurrence_goes(before: Seq<Seq<u8>>, topic: Seq<u8>, behind: Seq<Seq<u8>>)
    requires
        !before.contains(topic),
    ensures
        without_first(before + seq![topic] + behind, topic) == before + behind,
        without_first(before, topic) == before,
    decreases before.len(),
{
    let all = before + seq![topic] + behind;
    if before.len() == 0 {
        assert(all[0] == topic);
        assert(all.skip(1) =~= before + behind);
    } else {
        let less = before.skip(1);
        assert(!less.contains(topic)) by {
            if less.contains(topic) {
                let i = less.index_of(topic);
                assert(before[i + 1] == topic);
            }
        }
        first_occurrence_goes(less, topic, behind);
        assert(before.contains(before[0]));
        assert(all[0] == before[0]);
        assert(all.skip(1) =~= less + seq![topic] + behind);
        assert(seq![all[0]] + (less + behind) =~= before + behind);
        assert(seq![before[0]] + less =~= before);
    }
}

/// A request reaches the peer that made it, if it is known: its topics change, its queue
/// and its task do not, and the other peers stay as they are.
pub proof fn requests_reach_one_peer(
    m: Map<u64, PeerView>,
    peer: u64,
    topic: Seq<u8>,
    other: u64,
)
    ensures
        subscribed(m, peer, topic).dom() == m.dom(),
        unsubscribed(m, peer, topic).dom() == m.dom(),
        m.contains_key(peer) ==> ({
            let on = subscribed(m, peer, topic)[peer];
            let off = unsubscribed(m, peer, topic)[peer];
            &&& on.subscriptions == m[peer].subscriptions + seq![topic]
            &&& on.send_queue == m[peer].send_queue
            &&& on.coro_stop == m[peer].coro_stop
            &&& off.subscriptions == without_first(m[peer].subscriptions, topic)
            &&& off.send_queue == m[peer].send_queue
            &&& off.coro_stop == m[peer].coro_stop
        }),
        m.contains_key(other) && other != peer ==> subscribed(m, peer, topic)[other] == m[other]
            && unsubscribed(m, peer, topic)[other] == m[other],
{
    assert(subscribed(m, peer, topic).dom() =~= m.dom());
    assert(unsubscribed(m, peer, topic).dom() =~= m.dom());
    if m.contains_key(peer) {
        assert(m[peer].subscriptions.push(topic) =~= m[peer].subscriptions + seq![topic]);
    }
}

/// A peer comes with its queue and without topics, and no task reads its topics.
pub proof fn peers_come_without_topics(send_queue: u64, frame: Seq<u8>)
    ensures
        plain(send_queue).send_queue == send_queue,
        plain(send_queue).coro_stop is None,
        queue_for(plain(send_queue), frame) is None,
{
}

} // verus!
