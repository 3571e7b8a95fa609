//! Socket types and options.
use crate::heartbeat::HeartbeatConfig;
use vstd::prelude::*;

verus! {

#[derive(Debug, Copy, Clone, PartialEq, Eq, Structural)]
pub enum SocketType {
    PAIR,
    PUB,
    SUB,
    REQ,
    REP,
    DEALER,
    ROUTER,
    PULL,
    PUSH,
    XPUB,
    XSUB,
    STREAM,
}

impl SocketType {
    /// The type's name as text.
    pub open spec fn text(self) -> Seq<char> {
        match self {
            SocketType::PAIR => "PAIR"@,
            SocketType::PUB => "PUB"@,
            SocketType::SUB => "SUB"@,
            SocketType::REQ => "REQ"@,
            SocketType::REP => "REP"@,
            SocketType::DEALER => "DEALER"@,
            SocketType::ROUTER => "ROUTER"@,
            SocketType::PULL => "PULL"@,
            SocketType::PUSH => "PUSH"@,
            SocketType::XPUB => "XPUB"@,
            SocketType::XSUB => "XSUB"@,
            SocketType::STREAM => "STREAM"@,
        }
    }

    pub fn as_str(&self) -> (text: &'static str)
        ensures
            text@ == self.text(),
    {
        match self {
            SocketType::PAIR => "PAIR",
            SocketType::PUB => "PUB",
            SocketType::SUB => "SUB",
            SocketType::REQ => "REQ",
            SocketType::REP => "REP",
            SocketType::DEALER => "DEALER",
            SocketType::ROUTER => "ROUTER",
            SocketType::PULL => "PULL",
            SocketType::PUSH => "PUSH",
            SocketType::XPUB => "XPUB",
            SocketType::XSUB => "XSUB",
            SocketType::STREAM => "STREAM",
        }
    }
}

/// How a socket treats its peers.
#[derive(Debug, Copy, Clone)]
pub struct SocketOptions {
    /// Whether PINGs are sent.
    pub heartbeat_enabled: bool,
    /// How, where it differs from the default.
    pub heartbeat_config: Option<HeartbeatConfig>,
}

/// What a socket tells whoever monitors it.
#[derive(Debug)]
pub enum SocketEvent {
    Connected { endpoint: String, peer: u64 },
    Disconnected { peer: u64 },
}

/// A socket event as a value.
pub enum SocketEventView {
    Connected { endpoint: Seq<char>, peer: u64 },
    Disconnected { peer: u64 },
}

impl View for SocketEvent {
    type V = SocketEventView;

    open spec fn view(&self) -> SocketEventView {
        match self {
            SocketEvent::Connected { endpoint, peer } => SocketEventView::Connected {
                endpoint: endpoint@,
                peer: *peer,
            },
            SocketEvent::Disconnected { peer } => SocketEventView::Disconnected { peer: *peer },
        }
    }
}

/// No two socket types have the same name.
pub proof fn type_names_differ(a: SocketType, b: SocketType)
    ensures
        a.text() == b.text() ==> a == b,
{
    reveal_strlit("PAIR");
    reveal_strlit("PUB");
    reveal_strlit("SUB");
    reveal_strlit("REQ");
    reveal_strlit("REP");
    reveal_strlit("DEALER");
    reveal_strlit("ROUTER");
    reveal_strlit("PULL");
    reveal_strlit("PUSH");
    reveal_strlit("XPUB");
    reveal_strlit("XSUB");
    reveal_strlit("STREAM");
    if a.text() == b.text() {
        assert(a.text().len() == b.text().len());
        assert(a.text()[0] == b.text()[0]);
        assert(a.text()[1] == b.text()[1]);
        assert(a.text()[2] == b.text()[2]);
    }
}

/// The socket types are named as they are called.
pub proof fn type_names_are_spelled()
    ensures
        SocketType::PAIR.text() == seq!['P', 'A', 'I', 'R'],
        SocketType::PUB.text() == seq!['P', 'U', 'B'],
        SocketType::SUB.text() == seq!['S', 'U', 'B'],
        SocketType::REQ.text() == seq!['R', 'E', 'Q'],
        SocketType::REP.text() == seq!['R', 'E', 'P'],
        SocketType::DEALER.text() == seq!['D', 'E', 'A', 'L', 'E', 'R'],
        SocketType::ROUTER.text() == seq!['R', 'O', 'U', 'T', 'E', 'R'],
        SocketType::PULL.text() == seq!['P', 'U', 'L', 'L'],
        SocketType::PUSH.text() == seq!['P', 'U', 'S', 'H'],
        SocketType::XPUB.text() == seq!['X', 'P', 'U', 'B'],
        SocketType::XSUB.text() == seq!['X', 'S', 'U', 'B'],
        SocketType::STREAM.text() == seq!['S', 'T', 'R', 'E', 'A', 'M'],
{
    reveal_strlit("PAIR");
    reveal_strlit("PUB");
    reveal_strlit("SUB");
    reveal_strlit("REQ");
    reveal_strlit("REP");
    reveal_strlit("DEALER");
    reveal_strlit("ROUTER");
    reveal_strlit("PULL");
    reveal_strlit("PUSH");
    reveal_strlit("XPUB");
    reveal_strlit("XSUB");
    reveal_strlit("STREAM");
    assert(SocketType::PAIR.text() =~= seq!['P', 'A', 'I', 'R']);
    assert(SocketType::PUB.text() =~= seq!['P', 'U', 'B']);
    assert(SocketType::SUB.text() =~= seq!['S', 'U', 'B']);
    assert(SocketType::REQ.text() =~= seq!['R', 'E', 'Q']);
    assert(SocketType::REP.text() =~= seq!['R', 'E', 'P']);
    assert(SocketType::DEALER.text() =~= seq!['D', 'E', 'A', 'L', 'E', 'R']);
    assert(SocketType::ROUTER.text() =~= seq!['R', 'O', 'U', 'T', 'E', 'R']);
    assert(SocketType::PULL.text() =~= seq!['P', 'U', 'L', 'L']);
    assert(SocketType::PUSH.text() =~= seq!['P', 'U', 'S', 'H']);
    assert(SocketType::XPUB.text() =~= seq!['X', 'P', 'U', 'B']);
    assert(SocketType::XSUB.text() =~= seq!['X', 'S', 'U', 'B']);
    assert(SocketType::STREAM.text() =~= seq!['S', 'T', 'R', 'E', 'A', 'M']);
}

/// Events are seen with the endpoint and the peer that they are about.
pub proof fn events_are_seen_whole(endpoint: String, peer: u64)
    ensures
        (SocketEvent::Connected { endpoint, peer })@ == (SocketEventView::Connected {
            endpoint: endpoint@,
            peer,
        }),
        (SocketEvent::Disconnected { peer })@ == (SocketEventView::Disconnected { peer }),
{
}

} // verus!
