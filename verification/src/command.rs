//! The commands of a connection and their encoding.
use crate::octets;
use crate::properties;
use crate::properties::Properties;
use crate::socket::SocketType;
use bytes::Bytes;
use vstd::prelude::*;
use vstd::utf8;

verus! {

#[derive(Debug, Copy, Clone, PartialEq, Eq, Structural)]
pub enum ZmqCommandName {
    READY,
    PING,
    PONG,
}

impl ZmqCommandName {
    /// The name as text.
    pub open spec fn text(self) -> Seq<char> {
        match self {
            ZmqCommandName::READY => "READY"@,
            ZmqCommandName::PING => "PING"@,
            ZmqCommandName::PONG => "PONG"@,
        }
    }

    pub fn as_str(&self) -> (text: &'static str)
        ensures
            text@ == self.text(),
    {
        match self {
            ZmqCommandName::READY => "READY",
            ZmqCommandName::PING => "PING",
            ZmqCommandName::PONG => "PONG",
        }
    }
}

#[derive(Debug)]
pub struct ZmqCommand {
    pub name: ZmqCommandName,
    pub properties: Properties,
    /// For PING commands: time-to-live in tenths of seconds
    pub ttl: Option<u16>,
    /// For PING/PONG commands: context data (0-16 bytes)
    pub context: Option<Bytes>,
}

/// A command as a value.
#[verifier::ext_equal]
pub struct CommandView {
    pub name: ZmqCommandName,
    pub properties: Map<Seq<char>, Seq<u8>>,
    pub ttl: Option<u16>,
    pub context: Option<Seq<u8>>,
}

/// The octets of a context, if there is one.
pub open spec fn context_view(context: Option<Bytes>) -> Option<Seq<u8>> {
    match context {
        Some(c) => Some(octets::of(c)),
        None => None,
    }
}

impl View for ZmqCommand {
    type V = CommandView;

    open spec fn view(&self) -> CommandView {
        CommandView {
            name: self.name,
            properties: self.properties@,
            ttl: self.ttl,
            context: context_view(self.context),
        }
    }
}

impl Clone for ZmqCommand {
    fn clone(&self) -> (r: Self)
        ensures
            r@ == self@,
            r.properties.listing() == self.properties.listing(),
    {
        ZmqCommand {
            name: self.name,
            properties: self.properties.clone(),
            ttl: self.ttl,
            context: share_context(&self.context),
        }
    }
}

/// Another handle on a context's octets.
pub(crate) fn share_context(context: &Option<Bytes>) -> (r: Option<Bytes>)
    ensures
        context_view(r) == context_view(*context),
{
    match context {
        Some(c) => Some(octets::share(c)),
        None => None,
    }
}

/// A PING as a value.
pub open spec fn ping_view(ttl: Option<u16>, context: Option<Seq<u8>>) -> CommandView {
    CommandView { name: ZmqCommandName::PING, properties: Map::empty(), ttl, context }
}

/// A PONG as a value.
pub open spec fn pong_view(context: Option<Seq<u8>>) -> CommandView {
    CommandView { name: ZmqCommandName::PONG, properties: Map::empty(), ttl: None, context }
}

impl ZmqCommand {
    pub fn ready(socket: SocketType) -> (r: ZmqCommand)
        ensures
            r@ == (CommandView {
                name: ZmqCommandName::READY,
                properties: Map::empty().insert("Socket-Type"@, utf8::encode_utf8(socket.text())),
                ttl: None,
                context: None,
            }),
    {
        let mut properties = Properties::new();
        properties.insert("Socket-Type".to_owned(), octets::from_text(socket.as_str()));
        ZmqCommand { name: ZmqCommandName::READY, properties, ttl: None, context: None }
    }

    /// Create a PING command with optional TTL and context
    ///
    /// # Arguments
    /// * `ttl` - Time-to-live in tenths of seconds (0-6553.5 seconds max), or None for 0
    /// * `context` - Optional context data (0-16 bytes)
    pub fn ping(ttl: Option<u16>, context: Option<Bytes>) -> (r: ZmqCommand)
        ensures
            r@ == ping_view(ttl, context_view(context)),
    {
        ZmqCommand { name: ZmqCommandName::PING, properties: Properties::new(), ttl, context }
    }

    /// Create a PONG command with optional context
    ///
    /// # Arguments
    /// * `context` - Context data from the PING command (0-16 bytes)
    pub fn pong(context: Option<Bytes>) -> (r: ZmqCommand)
        ensures
            r@ == pong_view(context_view(context)),
    {
        ZmqCommand { name: ZmqCommandName::PONG, properties: Properties::new(), ttl: None, context }
    }

    pub fn add_prop(&mut self, name: String, value: Bytes) -> (r: &mut ZmqCommand)
        ensures
            r@ == (CommandView {
                properties: old(self)@.properties.insert(name@, octets::of(value)),
                ..old(self)@
            }),
            *final(self) == *final(r),
    {
        self.properties.insert(name, value);
        self
    }

    pub fn add_properties(&mut self, map: Properties) -> (r: &mut ZmqCommand)
        ensures
            r@ == (CommandView {
                properties: old(self)@.properties.union_prefer_right(map@),
                ..old(self)@
            }),
            *final(self) == *final(r),
    {
        self.properties.extend(map);
        self
    }
}

/// A PING carries its TTL and its context, a PONG its context, and neither carries properties.
pub proof fn commands_carry_what_they_are_given(ttl: Option<u16>, context: Option<Seq<u8>>)
    ensures
        ping_view(ttl, context).name == ZmqCommandName::PING,
        ping_view(ttl, context).ttl == ttl,
        ping_view(ttl, context).context == context,
        ping_view(ttl, context).properties == Map::<Seq<char>, Seq<u8>>::empty(),
        pong_view(context).name == ZmqCommandName::PONG,
        pong_view(context).ttl is None,
        pong_view(context).context == context,
        pong_view(context).properties == Map::<Seq<char>, Seq<u8>>::empty(),
{
}

/// A command is seen with all that it carries.
pub proof fn commands_are_seen_whole(c: ZmqCommand)
    ensures
        c@.name == c.name,
        c@.properties == c.properties@,
        c@.ttl == c.ttl,
        c@.context is Some <==> c.context is Some,
        c.context matches Some(context) ==> c@.context == Some(octets::of(context)),
{
}

} // verus!
