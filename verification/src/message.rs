//! Multipart messages and what travels over a connection.
use crate::command::{CommandView, ZmqCommand};
use crate::octets;
use bytes::Bytes;
use vstd::prelude::*;

verus! {

/// A message: a row of frames.
#[derive(Debug)]
pub struct ZmqMessage {
    pub frames: Vec<Bytes>,
}

impl View for ZmqMessage {
    type V = Seq<Seq<u8>>;

    open spec fn view(&self) -> Seq<Seq<u8>> {
        frames_view(self.frames@)
    }
}

/// The octets of each frame.
pub open spec fn frames_view(frames: Seq<Bytes>) -> Seq<Seq<u8>> {
    Seq::new(frames.len(), |i: int| octets::of(frames[i]))
}

/// What one end of a connection can receive from the other.
#[derive(Debug)]
pub enum Message {
    Greeting,
    Command(ZmqCommand),
    Message(ZmqMessage),
}

/// A message of a connection as a value.
pub enum MessageView {
    Greeting,
    Command(CommandView),
    Message(Seq<Seq<u8>>),
}

impl View for Message {
    type V = MessageView;

    open spec fn view(&self) -> MessageView {
        match self {
            Message::Greeting => MessageView::Greeting,
            Message::Command(c) => MessageView::Command(c@),
            Message::Message(m) => MessageView::Message(m@),
        }
    }
}

impl Clone for ZmqMessage {
    fn clone(&self) -> (r: Self)
        ensures
            r@ == self@,
    {
        let mut frames: Vec<Bytes> = Vec::new();
        let mut i: usize = 0;
        while i < self.frames.len()
            invariant
                i <= self.frames@.len(),
                frames_view(frames@) == self@.take(i as int),
            decreases self.frames@.len() - i,
        {
            let frame = octets::share(&self.frames[i]);
            let ghost before = frames@;
            frames.push(frame);
            assert(frames_view(frames@) =~= frames_view(before).push(octets::of(frame)));
            assert(self@.take(i + 1) =~= self@.take(i as int).push(self@[i as int]));
            i = i + 1;
        }
        assert(self@.take(i as int) =~= self@);
        ZmqMessage { frames }
    }
}

impl ZmqMessage {
    /// A message of one frame.
    pub fn from_frame(frame: Bytes) -> (r: ZmqMessage)
        ensures
            r@ == seq![octets::of(frame)],
    {
        let mut frames: Vec<Bytes> = Vec::new();
        frames.push(frame);
        let r = ZmqMessage { frames };
        assert(r@ =~= seq![octets::of(frame)]);
        r
    }

    /// Number of frames.
    pub fn len(&self) -> (n: usize)
        ensures
            n == self@.len(),
    {
        self.frames.len()
    }

    /// The octets of a frame, if the message has it.
    pub fn get(&self, index: usize) -> (frame: Option<&[u8]>)
        ensures
            frame is Some <==> index < self@.len(),
            frame matches Some(s) ==> s@ == self@[index as int],
    {
        if index < self.frames.len() {
            Some(octets::as_slice(&self.frames[index]))
        } else {
            None
        }
    }

    /// Cuts the message before frame `at`: the frames from there on are returned.
    pub fn split_off(&mut self, at: usize) -> (tail: ZmqMessage)
        requires
            at <= old(self)@.len(),
        ensures
            final(self)@ == old(self)@.take(at as int),
            tail@ == old(self)@.skip(at as int),
    {
        let frames = self.frames.split_off(at);
        let tail = ZmqMessage { frames };
        assert(self@ =~= old(self)@.take(at as int));
        assert(tail@ =~= old(self)@.skip(at as int));
        tail
    }

    /// Puts the frames of another message in front.
    pub fn prepend(&mut self, front: &ZmqMessage)
        ensures
            final(self)@ == front@ + old(self)@,
    {
        let mut joined = front.clone();
        let ghost head = joined.frames@;
        let ghost tail = self.frames@;
        joined.frames.append(&mut self.frames);
        assert(frames_view(joined.frames@) =~= frames_view(head) + frames_view(tail));
        self.frames = joined.frames;
    }
}

/// A message is seen as all its frames, each with all its octets, and what travels over a
/// connection as what it is.
pub proof fn messages_are_seen_whole(m: ZmqMessage, c: ZmqCommand, i: int)
    ensures
        m@.len() == m.frames@.len(),
        0 <= i < m.frames@.len() ==> m@[i] == octets::of(m.frames@[i]),
        Message::Message(m)@ == MessageView::Message(m@),
        Message::Command(c)@ == MessageView::Command(c@),
        Message::Greeting@ == MessageView::Greeting,
{
}

} // verus!
