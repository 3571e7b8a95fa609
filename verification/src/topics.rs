//! The topics that a SUB socket has asked for.
use crate::octets;
use crate::properties;
use vstd::prelude::*;
use vstd::utf8;

verus! {

/// Topics, each once, in the order of asking.
#[derive(Debug)]
pub struct Topics {
    list: Vec<String>,
}

/// The text of each topic.
pub open spec fn texts(list: Seq<String>) -> Seq<Seq<char>> {
    Seq::new(list.len(), |i: int| list[i]@)
}

/// A request for the topic fits into a buffer.
pub open spec fn fits(topic: Seq<char>) -> bool {
    utf8::encode_utf8(topic).len() + 1 <= octets::buffer_limit()
}

/// Whether a request for the topic fits into a buffer.
pub fn topic_fits(topic: &str) -> (r: bool)
    ensures
        r == fits(topic@),
{
    topic.as_bytes().len() < (isize::MAX / 2) as usize
}

/// Topics after one more was asked for.
pub open spec fn with_topic(topics: Seq<Seq<char>>, topic: Seq<char>) -> Seq<Seq<char>> {
    if topics.contains(topic) {
        topics
    } else {
        topics.push(topic)
    }
}

/// Topics after one was given up.
pub open spec fn without_topic(topics: Seq<Seq<char>>, topic: Seq<char>) -> Seq<Seq<char>> {
    if topics.contains(topic) {
        topics.remove(topics.index_of(topic))
    } else {
        topics
    }
}

impl View for Topics {
    type V = Seq<Seq<char>>;

    closed spec fn view(&self) -> Seq<Seq<char>> {
        texts(self.list@)
    }
}

impl Topics {
    #[verifier::type_invariant]
    spec fn inv(self) -> bool {
        &&& texts(self.list@).no_duplicates()
        &&& forall|i: int| 0 <= i < self.list@.len() ==> fits(#[trigger] self.list@[i]@)
    }

    pub fn new() -> (r: Topics)
        ensures
            r@ == Seq::<Seq<char>>::empty(),
    {
        let r = Topics { list: Vec::new() };
        assert(r@ =~= Seq::<Seq<char>>::empty());
        r
    }

    pub fn len(&self) -> (n: usize)
        ensures
            n == self@.len(),
    {
        self.list.len()
    }

    /// A topic by its place. No topic stands twice, and a request for it fits.
    pub fn topic(&self, index: usize) -> (topic: &str)
        requires
            index < self@.len(),
        ensures
            topic@ == self@[index as int],
            fits(topic@),
            self@.no_duplicates(),
    {
        proof {
            use_type_invariant(self);
        }
        self.list[index].as_str()
    }

    /// Where a topic stands.
    fn position(&self, topic: &str) -> (at: Option<usize>)
        ensures
            at is Some <==> self@.contains(topic@),
            at matches Some(i) ==> i < self@.len() && self@[i as int] == topic@,
    {
        let mut i: usize = 0;
        while i < self.list.len()
            invariant
                i <= self@.len(),
                forall|j: int| 0 <= j < i ==> self@[j] != topic@,
            decreases self@.len() - i,
        {
            if properties::same_text(self.list[i].as_str(), topic) {
                assert(self@[i as int] == topic@);
                return Some(i);
            }
            i = i + 1;
        }
        None
    }

    /// Asks for a topic.
    pub fn insert(&mut self, topic: &str)
        requires
            fits(topic@),
        ensures
            final(self)@ == with_topic(old(self)@, topic@),
    {
        proof {
            use_type_invariant(&*self);
        }
        if self.position(topic).is_some() {
            return;
        }
        let ghost before = self.list@;
        let mut list: Vec<String> = Vec::new();
        std::mem::swap(&mut list, &mut self.list);
        list.push(topic.to_owned());
        assert(texts(list@) =~= texts(before).push(topic@));
        self.list = list;
    }

    /// Gives a topic up.
    pub fn remove(&mut self, topic: &str)
        ensures
            final(self)@ == without_topic(old(self)@, topic@),
    {
        proof {
            use_type_invariant(&*self);
        }
        let ghost before = self.list@;
        match self.position(topic) {
            Some(at) => {
                assert(self@.index_of(topic@) == at);
                let mut list: Vec<String> = Vec::new();
                std::mem::swap(&mut list, &mut self.list);
                list.remove(at);
                assert(texts(list@) =~= texts(before).remove(at as int));
                self.list = list;
            },
            None => {},
        }
    }
}

/// No topic comes to stand twice by asking. What was asked for is there; other topics
/// are not affected.
pub proof fn asking_adds_one(topics: Seq<Seq<char>>, topic: Seq<char>, other: Seq<char>)
    requires
        topics.no_duplicates(),
    ensures
        with_topic(topics, topic).no_duplicates(),
        with_topic(topics, topic).contains(other) <==> (topics.contains(other) || other == topic),
{
    let more = with_topic(topics, topic);
    if !topics.contains(topic) {
        assert(more[topics.len() as int] == topic);
        if topics.contains(other) {
            let i = topics.index_of(other);
            assert(more[i] == other);
        }
    }
}

/// No topic comes to stand twice by giving one up. What was given up is not there; other
/// topics are not affected.
pub proof fn giving_up_takes_one(topics: Seq<Seq<char>>, topic: Seq<char>, other: Seq<char>)
    requires
        topics.no_duplicates(),
    ensures
        without_topic(topics, topic).no_duplicates(),
        without_topic(topics, topic).contains(other) <==> (topics.contains(other) && other
            != topic),
{
    if topics.contains(topic) {
        let at = topics.index_of(topic);
        let fewer = without_topic(topics, topic);
        if topics.contains(other) && other != topic {
            let i = topics.index_of(other);
            if i < at {
                assert(fewer[i] == other);
            } else {
                assert(fewer[i - 1] == other);
            }
        }
        if fewer.contains(other) {
            let i = fewer.index_of(other);
            if i < at {
                assert(topics[i] == other);
            } else {
                assert(topics[i + 1] == other);
            }
        }
    }
}

/// To ask for a topic twice is to ask once, and to give up what was just asked for undoes
/// the asking.
pub proof fn giving_up_undoes_asking(topics: Seq<Seq<char>>, topic: Seq<char>)
    requires
        topics.no_duplicates(),
    ensures
        with_topic(with_topic(topics, topic), topic) == with_topic(topics, topic),
        !topics.contains(topic) ==> without_topic(with_topic(topics, topic), topic) == topics,
{
    let more = with_topic(topics, topic);
    if !topics.contains(topic) {
        assert(more[topics.len() as int] == topic);
        assert(more.contains(topic));
        let at = more.index_of(topic);
        if at < topics.len() {
            assert(topics[at] == topic);
        }
        assert(more.remove(at) =~= topics);
    }
}

} // verus!
