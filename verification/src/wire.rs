//! The octets of a command.
//!
//! A command's body is the length of its name, its name and what the name calls for:
//! a READY carries properties, a PING a time-to-live and a context, a PONG a
//! context. A frame puts the body behind a flag and the body's length.
use crate::command;
use crate::command::{CommandView, ZmqCommand, ZmqCommandName};
use crate::error::CodecError;
use crate::octets;
use crate::properties;
use crate::properties::{Properties, Property};
use bytes::{Bytes, BytesMut};
use vstd::prelude::*;
use vstd::utf8;

verus! {

/// The octets of a command's name.
pub open spec fn name_octets(name: ZmqCommandName) -> Seq<u8> {
    utf8::encode_utf8(name.text())
}

/// The most octets that a context may have.
pub open spec fn context_limit() -> nat {
    16
}

/// The name that a body gives.
pub open spec fn name_field(body: Seq<u8>) -> Seq<u8> {
    body.subrange(1, 1 + body[0])
}

/// What a body holds behind its name.
pub open spec fn content(body: Seq<u8>) -> Seq<u8> {
    body.skip(1 + body[0])
}

/// The name of the first property.
pub open spec fn property_name(s: Seq<u8>) -> Seq<u8> {
    s.subrange(1, 1 + s[0])
}

/// What stands behind the first property's name: a length, the value, and the
/// properties that follow.
pub open spec fn property_rest(s: Seq<u8>) -> Seq<u8> {
    s.skip(1 + s[0])
}

/// The length of the first property's value.
pub open spec fn value_len(s: Seq<u8>) -> nat {
    octets::be_value(property_rest(s).take(4))
}

/// The first property's value.
pub open spec fn property_value(s: Seq<u8>) -> Seq<u8> {
    property_rest(s).subrange(4, 4 + value_len(s) as int)
}

/// The properties behind the first.
pub open spec fn further_properties(s: Seq<u8>) -> Seq<u8> {
    property_rest(s).skip(4 + value_len(s) as int)
}

/// No property runs past the end, up to the first whose name is not valid UTF-8.
pub open spec fn properties_framed(s: Seq<u8>) -> bool
    decreases s.len(),
{
    s.len() == 0 || (1 + s[0] <= s.len() && (utf8::valid_utf8(property_name(s)) ==> (
    property_rest(s).len() >= 4 && 4 + value_len(s) <= property_rest(s).len() && properties_framed(
        further_properties(s),
    ))))
}

/// A body that no length in it runs past.
pub open spec fn body_framed(body: Seq<u8>) -> bool {
    &&& body.len() >= 1
    &&& 1 + body[0] <= body.len()
    &&& name_field(body) == name_octets(ZmqCommandName::READY) ==> properties_framed(content(body))
}

/// The properties that octets list, added to `start`; nothing where a name is not
/// valid UTF-8.
pub open spec fn read_properties(s: Seq<u8>, start: Map<Seq<char>, Seq<u8>>) -> Option<
    Map<Seq<char>, Seq<u8>>,
>
    decreases s.len(),
    when properties_framed(s)
{
    if s.len() == 0 {
        Some(start)
    } else if !utf8::valid_utf8(property_name(s)) {
        None
    } else {
        read_properties(
            further_properties(s),
            start.insert(utf8::decode_utf8(property_name(s)), property_value(s)),
        )
    }
}

/// A context, which is absent where it would be empty.
pub open spec fn context_of(s: Seq<u8>) -> Option<Seq<u8>> {
    if s.len() == 0 {
        None
    } else {
        Some(s)
    }
}

/// The command that a body stands for.
pub open spec fn read_command(body: Seq<u8>) -> Result<CommandView, CodecError> {
    let rest = content(body);
    if name_field(body) == name_octets(ZmqCommandName::READY) {
        match read_properties(rest, Map::empty()) {
            Some(properties) => Ok(
                CommandView { name: ZmqCommandName::READY, properties, ttl: None, context: None },
            ),
            None => Err(CodecError::Decode("Invalid property identifier")),
        }
    } else if name_field(body) == name_octets(ZmqCommandName::PING) {
        if rest.len() < 2 {
            Err(CodecError::Decode("PING command requires at least 2 bytes for TTL"))
        } else if rest.len() - 2 > context_limit() {
            Err(CodecError::Decode("PING context exceeds 16 bytes"))
        } else {
            Ok(
                command::ping_view(
                    Some(octets::be_value(rest.take(2)) as u16),
                    context_of(rest.skip(2)),
                ),
            )
        }
    } else if name_field(body) == name_octets(ZmqCommandName::PONG) {
        if rest.len() > context_limit() {
            Err(CodecError::Decode("PONG context exceeds 16 bytes"))
        } else {
            Ok(command::pong_view(context_of(rest)))
        }
    } else {
        Err(CodecError::Command("Unknown command received"))
    }
}

/// What a decoder returned, as a value.
pub open spec fn outcome_view(r: Result<ZmqCommand, CodecError>) -> Result<
    CommandView,
    CodecError,
> {
    match r {
        Ok(c) => Ok(c@),
        Err(e) => Err(e),
    }
}

/// Whether two runs of octets are the same.
pub fn same_octets(a: &[u8], b: &[u8]) -> (same: bool)
    ensures
        same == (a@ == b@),
{
    if a.len() != b.len() {
        return false;
    }
    let mut i: usize = 0;
    while i < a.len()
        invariant
            i <= a@.len(),
            a@.len() == b@.len(),
            a@.take(i as int) == b@.take(i as int),
        decreases a@.len() - i,
    {
        if a[i] != b[i] {
            return false;
        }
        assert(a@.take(i + 1) =~= a@.take(i as int).push(a@[i as int]));
        assert(b@.take(i + 1) =~= b@.take(i as int).push(b@[i as int]));
        i = i + 1;
    }
    assert(a@.take(i as int) =~= a@ && b@.take(i as int) =~= b@);
    true
}

/// Takes all that is left of a buffer as a context.
fn take_context(buf: &mut Bytes) -> (context: Option<Bytes>)
    ensures
        command::context_view(context) == context_of(octets::of(*old(buf))),
{
    let len = octets::as_slice(buf).len();
    if len == 0 {
        None
    } else {
        let context = octets::split_to(buf, len);
        assert(octets::of(context) =~= octets::of(*old(buf)));
        Some(context)
    }
}

/// Reads properties to the end of a buffer.
fn read_ready(listed: Bytes) -> (r: Option<Properties>)
    requires
        properties_framed(octets::of(listed)),
    ensures
        match r {
            Some(p) => read_properties(octets::of(listed), Map::empty()) == Some(p@),
            None => read_properties(octets::of(listed), Map::empty()) is None,
        },
{
    let ghost whole = octets::of(listed);
    let mut buf = listed;
    let mut properties = Properties::new();
    while octets::as_slice(&buf).len() > 0
        invariant
            whole == octets::of(listed),
            properties_framed(octets::of(buf)),
            read_properties(octets::of(buf), properties@) == read_properties(whole, Map::empty()),
        decreases octets::of(buf).len(),
    {
        let ghost s = octets::of(buf);
        let prop_len: usize = octets::get_u8(&mut buf) as usize;
        let name = octets::split_to(&mut buf, prop_len);
        assert(octets::of(name) =~= property_name(s));
        assert(octets::of(buf) =~= property_rest(s));
        let property = match octets::text_from_utf8(
            vstd::slice::slice_to_vec(octets::as_slice(&name)),
        ) {
            Some(p) => p,
            None => {
                return None;
            },
        };
        let prop_val_len: usize = octets::get_u32(&mut buf) as usize;
        let prop_value = octets::split_to(&mut buf, prop_val_len);
        assert(octets::of(prop_value) =~= property_value(s));
        assert(octets::of(buf) =~= further_properties(s));
        properties.insert(property, prop_value);
    }
    Some(properties)
}

impl ZmqCommand {
    /// Reads a command from its body. No length in the body may run past its end:
    /// see [`ZmqCommand::is_framed`].
    pub fn try_from(buf: Bytes) -> (r: Result<ZmqCommand, CodecError>)
        requires
            body_framed(octets::of(buf)),
        ensures
            outcome_view(r) == read_command(octets::of(buf)),
    {
        let mut buf = buf;
        let ghost body = octets::of(buf);
        let command_len: usize = octets::get_u8(&mut buf) as usize;
        let command_name_buf = vstd::slice::slice_subrange(
            octets::as_slice(&buf),
            0,
            command_len,
        );
        assert(command_name_buf@ =~= name_field(body));
        // command-name-char = ALPHA according to https://rfc.zeromq.org/spec:23/ZMTP/
        let name = if same_octets(command_name_buf, ZmqCommandName::READY.as_str().as_bytes()) {
            ZmqCommandName::READY
        } else if same_octets(command_name_buf, ZmqCommandName::PING.as_str().as_bytes()) {
            ZmqCommandName::PING
        } else if same_octets(command_name_buf, ZmqCommandName::PONG.as_str().as_bytes()) {
            ZmqCommandName::PONG
        } else {
            return Err(CodecError::Command("Unknown command received"));
        };
        octets::advance(&mut buf, command_len);
        assert(octets::of(buf) =~= content(body));
        proof {
            names_distinct();
        }

        match name {
            ZmqCommandName::READY => {
                match read_ready(buf) {
                    Some(properties) => Ok(ZmqCommand { name, properties, ttl: None, context: None }),
                    None => Err(CodecError::Decode("Invalid property identifier")),
                }
            },
            ZmqCommandName::PING => {
                if octets::as_slice(&buf).len() < 2 {
                    return Err(
                        CodecError::Decode("PING command requires at least 2 bytes for TTL"),
                    );
                }
                let ttl = octets::get_u16(&mut buf);

                // Remaining bytes are context (0-16 bytes)
                if octets::as_slice(&buf).len() > 16 {
                    return Err(CodecError::Decode("PING context exceeds 16 bytes"));
                }
                let context = take_context(&mut buf);
                Ok(ZmqCommand { name, properties: Properties::new(), ttl: Some(ttl), context })
            },
            ZmqCommandName::PONG => {
                // PONG command contains only context (0-16 bytes)
                if octets::as_slice(&buf).len() > 16 {
                    return Err(CodecError::Decode("PONG context exceeds 16 bytes"));
                }
                let context = take_context(&mut buf);
                Ok(ZmqCommand { name, properties: Properties::new(), ttl: None, context })
            },
        }
    }
}

/// Whether properties run past the end of the octets that list them.
fn properties_are_framed(listed: &Bytes) -> (framed: bool)
    ensures
        framed == properties_framed(octets::of(*listed)),
{
    let mut buf = octets::share(listed);
    while octets::as_slice(&buf).len() > 0
        invariant
            properties_framed(octets::of(buf)) == properties_framed(octets::of(*listed)),
        decreases octets::of(buf).len(),
    {
        let ghost s = octets::of(buf);
        let prop_len: usize = octets::get_u8(&mut buf) as usize;
        if octets::as_slice(&buf).len() < prop_len {
            return false;
        }
        let name = octets::split_to(&mut buf, prop_len);
        assert(octets::of(name) =~= property_name(s));
        assert(octets::of(buf) =~= property_rest(s));
        match octets::text_from_utf8(vstd::slice::slice_to_vec(octets::as_slice(&name))) {
            Some(_) => {},
            None => {
                return true;
            },
        }
        if octets::as_slice(&buf).len() < 4 {
            return false;
        }
        let prop_val_len: usize = octets::get_u32(&mut buf) as usize;
        if octets::as_slice(&buf).len() < prop_val_len {
            return false;
        }
        octets::advance(&mut buf, prop_val_len);
        assert(octets::of(buf) =~= further_properties(s));
    }
    true
}

impl ZmqCommand {
    /// Whether the octets are a body that no length in it runs past.
    pub fn is_framed(buf: &Bytes) -> (framed: bool)
        ensures
            framed == body_framed(octets::of(*buf)),
    {
        let ghost body = octets::of(*buf);
        let mut rest = octets::share(buf);
        if octets::as_slice(&rest).len() == 0 {
            return false;
        }
        let command_len: usize = octets::get_u8(&mut rest) as usize;
        if octets::as_slice(&rest).len() < command_len {
            return false;
        }
        let name = octets::split_to(&mut rest, command_len);
        assert(octets::of(name) =~= name_field(body));
        assert(octets::of(rest) =~= content(body));
        if same_octets(octets::as_slice(&name), ZmqCommandName::READY.as_str().as_bytes()) {
            properties_are_framed(&rest)
        } else {
            true
        }
    }
}

/// The octets of one property: the length of its name, its name, the length of its
/// value, its value. A length keeps the low octets that it has room for.
pub open spec fn property_octets(p: Property) -> Seq<u8> {
    let name = utf8::encode_utf8(p.0);
    octets::be_octets(name.len(), 1) + name + octets::be_octets(p.1.len(), 4) + p.1
}

/// The octets of a row of properties.
pub open spec fn listing_octets(list: Seq<Property>) -> Seq<u8>
    decreases list.len(),
{
    if list.len() == 0 {
        Seq::empty()
    } else {
        property_octets(list[0]) + listing_octets(list.skip(1))
    }
}

/// The octets of a context.
pub open spec fn context_octets(context: Option<Seq<u8>>) -> Seq<u8> {
    match context {
        Some(c) => c,
        None => Seq::empty(),
    }
}

/// What a command's body holds behind its name.
pub open spec fn content_octets(c: ZmqCommand) -> Seq<u8> {
    match c.name {
        ZmqCommandName::READY => listing_octets(c.properties.listing()),
        ZmqCommandName::PING => octets::be_octets(
            (match c.ttl {
                Some(ttl) => ttl as nat,
                None => 0,
            }),
            2,
        ) + context_octets(c@.context),
        ZmqCommandName::PONG => context_octets(c@.context),
    }
}

/// A command's body.
pub open spec fn body_octets(c: ZmqCommand) -> Seq<u8> {
    octets::be_octets(name_octets(c.name).len(), 1) + name_octets(c.name) + content_octets(c)
}

/// What stands in front of a body: a flag, and the body's length in one octet or,
/// where it does not fit, in eight.
pub open spec fn frame_header(len: nat) -> Seq<u8> {
    if len > 255 {
        seq![0x06u8] + octets::be_octets(len, 8)
    } else {
        seq![0x04u8] + octets::be_octets(len, 1)
    }
}

/// A command's frame.
pub open spec fn frame_octets(c: ZmqCommand) -> Seq<u8> {
    frame_header(body_octets(c).len()) + body_octets(c)
}

/// Starts a frame: the header for a body of `msg_len` octets and the command's name.
fn start_message(name: ZmqCommandName, msg_len: usize) -> (bytes: BytesMut)
    requires
        msg_len + 9 <= octets::buffer_limit(),
        msg_len >= 1 + name_octets(name).len(),
    ensures
        octets::of_mut(bytes) == frame_header(msg_len as nat) + octets::be_octets(
            name_octets(name).len(),
            1,
        ) + name_octets(name),
{
    let command_name = name.as_str().as_bytes();
    let long_message = msg_len > 255;
    let mut bytes = octets::empty_buffer();
    proof {
        names_distinct();
        one_octet(msg_len as nat);
        one_octet(name_octets(name).len());
        reveal_with_fuel(octets::octet_span, 9);
        octets::be_octets_read_back(msg_len as nat, 8);
    }
    if long_message {
        octets::reserve(&mut bytes, msg_len + 9);
        octets::put_u8(&mut bytes, 0x06);
        octets::put_u64(&mut bytes, msg_len as u64);
    } else {
        octets::reserve(&mut bytes, msg_len + 2);
        octets::put_u8(&mut bytes, 0x04);
        octets::put_u8(&mut bytes, msg_len as u8);
    }
    assert(octets::of_mut(bytes) =~= frame_header(msg_len as nat));
    octets::put_u8(&mut bytes, command_name.len() as u8);
    octets::extend_from_slice(&mut bytes, command_name);
    assert(octets::of_mut(bytes) =~= frame_header(msg_len as nat) + octets::be_octets(
        name_octets(name).len(),
        1,
    ) + name_octets(name));
    bytes
}

/// The low octet of a number.
proof fn one_octet(v: nat)
    ensures
        octets::be_octets(v, 1) == seq![(v % 256) as u8],
{
    reveal_with_fuel(octets::be_octets, 2);
    assert(octets::be_octets(v, 1) =~= seq![(v % 256) as u8]);
}

/// The octets of a longer row are those of the shorter row and of its last property.
proof fn listing_extends(list: Seq<Property>, p: Property)
    ensures
        listing_octets(list.push(p)) == listing_octets(list) + property_octets(p),
    decreases list.len(),
{
    if list.len() == 0 {
        reveal_with_fuel(listing_octets, 2);
        assert(list.push(p).skip(1) =~= Seq::empty());
        assert(listing_octets(list.push(p)) =~= property_octets(p));
        assert(listing_octets(list) + property_octets(p) =~= property_octets(p));
    } else {
        listing_extends(list.skip(1), p);
        assert(list.push(p).skip(1) =~= list.skip(1).push(p));
        assert(listing_octets(list.push(p)) =~= listing_octets(list) + property_octets(p));
    }
}

/// The octets of a row's first properties are no more than those of the row.
proof fn listing_prefix_fits(list: Seq<Property>, i: int)
    requires
        0 <= i <= list.len(),
    ensures
        listing_octets(list.take(i)).len() <= listing_octets(list).len(),
    decreases list.len() - i,
{
    if i < list.len() {
        listing_extends(list.take(i), list[i]);
        assert(list.take(i).push(list[i]) =~= list.take(i + 1));
        listing_prefix_fits(list, i + 1);
    } else {
        assert(list.take(i) =~= list);
    }
}

/// How many octets a property has.
proof fn property_octets_len(p: Property)
    ensures
        property_octets(p).len() == 1 + utf8::encode_utf8(p.0).len() + 4 + p.1.len(),
{
    be_octets_len(utf8::encode_utf8(p.0).len(), 1);
    be_octets_len(p.1.len(), 4);
}

proof fn be_octets_len(v: nat, width: nat)
    ensures
        octets::be_octets(v, width).len() == width,
    decreases width,
{
    if width > 0 {
        be_octets_len(v / 256, (width - 1) as nat);
    }
}

/// What lies above the octets that are kept does not count.
proof fn be_octets_drop_high(high: nat, low: nat, width: nat)
    ensures
        octets::be_octets(high * octets::octet_span(width) + low, width) == octets::be_octets(
            low,
            width,
        ),
    decreases width,
{
    if width > 0 {
        let below = (width - 1) as nat;
        let x = high * octets::octet_span(below);
        assert(high * octets::octet_span(width) == 256 * x) by (nonlinear_arith)
            requires
                octets::octet_span(width) == 256 * octets::octet_span(below),
                x == high * octets::octet_span(below),
        ;
        be_octets_drop_high(high, low / 256, below);
        assert((256 * x + low) / 256 == x + low / 256);
        assert((256 * x + low) % 256 == low % 256);
    }
}

/// Only the low four octets of a number count.
proof fn be_octets_low(v: nat)
    ensures
        octets::be_octets(v % 0x1_0000_0000, 4) == octets::be_octets(v, 4),
{
    reveal_with_fuel(octets::octet_span, 5);
    assert(octets::octet_span(4) == 0x1_0000_0000);
    be_octets_drop_high(v / 0x1_0000_0000, v % 0x1_0000_0000, 4);
    assert((v / 0x1_0000_0000) * 0x1_0000_0000 + v % 0x1_0000_0000 == v);
}

impl ZmqCommand {
    /// Whether a buffer can hold the command's frame.
    pub fn fits(&self) -> (fits: bool)
        ensures
            fits == (frame_octets(*self).len() <= octets::buffer_limit()),
    {
        let ghost list = self.properties.listing();
        let limit: u128 = (isize::MAX / 2) as u128;
        proof {
            names_distinct();
            be_octets_len(name_octets(self.name).len(), 1);
            be_octets_len(body_octets(*self).len(), 8);
            be_octets_len(body_octets(*self).len(), 1);
            be_octets_len(
                (match self.ttl {
                    Some(ttl) => ttl as nat,
                    None => 0,
                }),
                2,
            );
        }
        let mut len: u128 = self.name.as_str().as_bytes().len() as u128 + 1;
        match self.name {
            ZmqCommandName::READY => {
                let count = self.properties.len();
                let mut i: usize = 0;
                assert(list.take(0) =~= Seq::empty());
                while i < count
                    invariant
                        list == self.properties.listing(),
                        count == list.len(),
                        i <= count,
                        limit == octets::buffer_limit(),
                        len == 6 + listing_octets(list.take(i as int)).len(),
                        len <= limit || i == 0,
                        len <= limit + 6,
                        frame_octets(*self).len() >= 6 + listing_octets(list).len(),
                    decreases count - i,
                {
                    proof {
                        listing_extends(list.take(i as int), list[i as int]);
                        assert(list.take(i as int).push(list[i as int]) =~= list.take(i + 1));
                        listing_prefix_fits(list, i + 1);
                        property_octets_len(list[i as int]);
                    }
                    let name = self.properties.name(i).as_bytes();
                    len = len + name.len() as u128 + 1 + self.properties.value(i).len() as u128 + 4;
                    if len > limit {
                        return false;
                    }
                    i = i + 1;
                }
                assert(list.take(i as int) =~= list);
            },
            ZmqCommandName::PING => {
                len = len + 2;
                if let Some(c) = &self.context {
                    len = len + octets::as_slice(c).len() as u128;
                }
            },
            ZmqCommandName::PONG => {
                if let Some(c) = &self.context {
                    len = len + octets::as_slice(c).len() as u128;
                }
            },
        }
        assert(len == body_octets(*self).len());
        if len > 255 {
            len + 9 <= limit
        } else {
            len + 2 <= limit
        }
    }

    /// Writes the command as a frame, if a buffer can hold it.
    pub fn try_encode(self) -> (bytes: Option<BytesMut>)
        ensures
            bytes is Some <==> frame_octets(self).len() <= octets::buffer_limit(),
            bytes matches Some(b) ==> octets::of_mut(b) == frame_octets(self),
    {
        if self.fits() {
            Some(self.encode())
        } else {
            None
        }
    }

    /// Reads a command from its body, unless a length in the body runs past its end.
    pub fn decode(buf: Bytes) -> (r: Option<Result<ZmqCommand, CodecError>>)
        ensures
            r is Some <==> body_framed(octets::of(buf)),
            r matches Some(command) ==> outcome_view(command) == read_command(octets::of(buf)),
    {
        if Self::is_framed(&buf) {
            Some(Self::try_from(buf))
        } else {
            None
        }
    }
}

impl ZmqCommand {
    /// Writes the command as a frame.
    pub fn encode(self) -> (bytes: BytesMut)
        requires
            frame_octets(self).len() <= octets::buffer_limit(),
        ensures
            octets::of_mut(bytes) == frame_octets(self),
    {
        let ghost list = self.properties.listing();
        proof {
            names_distinct();
            be_octets_len(name_octets(self.name).len(), 1);
            be_octets_len(body_octets(self).len(), 8);
            be_octets_len(body_octets(self).len(), 1);
            be_octets_len(
                (match self.ttl {
                    Some(ttl) => ttl as nat,
                    None => 0,
                }),
                2,
            );
        }
        let mut message_len: usize = self.name.as_str().as_bytes().len() + 1;
        match self.name {
            ZmqCommandName::READY => {
                let count = self.properties.len();
                let mut i: usize = 0;
                assert(list.take(0) =~= Seq::empty());
                while i < count
                    invariant
                        list == self.properties.listing(),
                        count == list.len(),
                        i <= count,
                        message_len == 6 + listing_octets(list.take(i as int)).len(),
                        6 + listing_octets(list).len() <= octets::buffer_limit(),
                    decreases count - i,
                {
                    proof {
                        listing_extends(list.take(i as int), list[i as int]);
                        assert(list.take(i as int).push(list[i as int]) =~= list.take(i + 1));
                        listing_prefix_fits(list, i + 1);
                        property_octets_len(list[i as int]);
                    }
                    message_len = message_len + self.properties.name(i).len() + 1;
                    message_len = message_len + self.properties.value(i).len() + 4;
                    i = i + 1;
                }
                assert(list.take(i as int) =~= list);
                assert(message_len == body_octets(self).len());

                let mut bytes = start_message(self.name, message_len);
                let ghost start = octets::of_mut(bytes);

                let mut i: usize = 0;
                assert(start + listing_octets(list.take(0)) =~= start);
                while i < count
                    invariant
                        list == self.properties.listing(),
                        count == list.len(),
                        i <= count,
                        octets::of_mut(bytes) == start + listing_octets(list.take(i as int)),
                        start.len() + listing_octets(list).len() <= octets::buffer_limit(),
                    decreases count - i,
                {
                    let ghost before = octets::of_mut(bytes);
                    proof {
                        listing_extends(list.take(i as int), list[i as int]);
                        assert(list.take(i as int).push(list[i as int]) =~= list.take(i + 1));
                        listing_prefix_fits(list, i + 1);
                        property_octets_len(list[i as int]);
                        one_octet(utf8::encode_utf8(list[i as int].0).len());
                        be_octets_low(list[i as int].1.len());
                    }
                    let prop = self.properties.name(i);
                    let val = self.properties.value(i);
                    let prop_len: usize = prop.len();
                    let val_len: u64 = val.len() as u64;
                    assert(prop_len as u8 == prop_len % 256) by (bit_vector);
                    assert(val_len as u32 == val_len % 0x1_0000_0000) by (bit_vector);
                    octets::put_u8(&mut bytes, prop_len as u8);
                    octets::extend_from_slice(&mut bytes, prop.as_bytes());
                    octets::put_u32(&mut bytes, val_len as u32);
                    octets::extend_from_slice(&mut bytes, val);
                    assert(octets::of_mut(bytes) =~= before + property_octets(list[i as int]));
                    assert(before + property_octets(list[i as int]) =~= start + listing_octets(
                        list.take(i + 1),
                    ));
                    i = i + 1;
                }
                assert(octets::of_mut(bytes) =~= frame_octets(self));
                bytes
            },
            ZmqCommandName::PING => {
                // PING command: command-name (1 byte len + name) + ttl (2 bytes) + context (0-16 bytes)
                let context_len = match &self.context {
                    Some(c) => octets::as_slice(c).len(),
                    None => 0,
                };
                message_len = message_len + 2 + context_len;

                let mut bytes = start_message(self.name, message_len);

                octets::put_u16(
                    &mut bytes,
                    match self.ttl {
                        Some(ttl) => ttl,
                        None => 0,
                    },
                );
                match &self.context {
                    Some(ctx) => octets::extend_from_slice(&mut bytes, octets::as_slice(ctx)),
                    None => {},
                }
                assert(octets::of_mut(bytes) =~= frame_octets(self));
                bytes
            },
            ZmqCommandName::PONG => {
                // PONG command: command-name (1 byte len + name) + context (0-16 bytes)
                let context_len = match &self.context {
                    Some(c) => octets::as_slice(c).len(),
                    None => 0,
                };
                message_len = message_len + context_len;

                let mut bytes = start_message(self.name, message_len);

                match &self.context {
                    Some(ctx) => octets::extend_from_slice(&mut bytes, octets::as_slice(ctx)),
                    None => {},
                }
                assert(octets::of_mut(bytes) =~= frame_octets(self));
                bytes
            },
        }
    }
}

/// No two commands have the same name.
pub proof fn names_distinct()
    ensures
        name_octets(ZmqCommandName::READY).len() == 5,
        name_octets(ZmqCommandName::PING).len() == 4,
        name_octets(ZmqCommandName::PONG).len() == 4,
        name_octets(ZmqCommandName::PING) != name_octets(ZmqCommandName::PONG),
{
    reveal_strlit("READY");
    reveal_strlit("PING");
    reveal_strlit("PONG");
    utf8::is_ascii_chars_encode_utf8("READY"@);
    utf8::is_ascii_chars_encode_utf8("PING"@);
    utf8::is_ascii_chars_encode_utf8("PONG"@);
    assert("PING"@[1] as u8 != "PONG"@[1] as u8);
    assert(name_octets(ZmqCommandName::PING)[1] != name_octets(ZmqCommandName::PONG)[1]);
}

/// A property whose lengths fit where they are written.
pub open spec fn property_fits(p: Property) -> bool {
    utf8::encode_utf8(p.0).len() <= 0xff && p.1.len() <= 0xffff_ffff
}

/// A command that has exactly what its kind carries: a READY properties whose
/// lengths fit, a PING a time-to-live, and a PING or PONG no context or one of 1 to
/// 16 octets.
pub open spec fn carries_its_kind(c: ZmqCommand) -> bool {
    let context_ok = c@.context matches Some(ctx) ==> 1 <= ctx.len() <= context_limit();
    match c.name {
        ZmqCommandName::READY => c.ttl is None && c.context is None && forall|i: int|
            0 <= i < c.properties.listing().len() ==> property_fits(
                #[trigger] c.properties.listing()[i],
            ),
        ZmqCommandName::PING => c.ttl is Some && context_ok && c@.properties == Map::<
            Seq<char>,
            Seq<u8>,
        >::empty(),
        ZmqCommandName::PONG => c.ttl is None && context_ok && c@.properties == Map::<
            Seq<char>,
            Seq<u8>,
        >::empty(),
    }
}

/// Reading the octets of a row of properties gives the properties back.
pub proof fn listing_reads_back(list: Seq<Property>, start: Map<Seq<char>, Seq<u8>>)
    requires
        forall|i: int| 0 <= i < list.len() ==> property_fits(#[trigger] list[i]),
    ensures
        properties_framed(listing_octets(list)),
        read_properties(listing_octets(list), start) == Some(properties::collect(list, start)),
    decreases list.len(),
{
    if list.len() > 0 {
        let s = listing_octets(list);
        let p = list[0];
        let rest = list.skip(1);
        let name = utf8::encode_utf8(p.0);
        assert(property_fits(list[0]));
        reveal_with_fuel(octets::octet_span, 5);
        octets::be_octets_read_back(p.1.len(), 4);
        one_octet(name.len());
        assert forall|i: int| 0 <= i < rest.len() implies property_fits(#[trigger] rest[i]) by {
            assert(rest[i] == list[i + 1]);
        }
        let value_part = octets::be_octets(p.1.len(), 4) + p.1 + listing_octets(rest);
        assert(s =~= octets::be_octets(name.len(), 1) + name + value_part);
        assert(s[0] == name.len());
        assert(property_name(s) =~= name);
        assert(property_rest(s) =~= value_part);
        assert(property_rest(s).take(4) =~= octets::be_octets(p.1.len(), 4));
        assert(property_value(s) =~= p.1);
        assert(further_properties(s) =~= listing_octets(rest));
        utf8::encode_utf8_valid_utf8(p.0);
        utf8::encode_utf8_decode_utf8(p.0);
        listing_reads_back(rest, start.insert(p.0, p.1));
    }
}

/// A PING without a time-to-live is written as one with a time-to-live of zero.
pub proof fn no_ttl_is_written_as_zero(c: ZmqCommand)
    requires
        c.name == ZmqCommandName::PING,
        c.ttl is None,
    ensures
        frame_octets(c) == frame_octets(ZmqCommand { ttl: Some(0), ..c }),
{
}

/// A frame consists of a header that gives the body's length and of the body, and
/// reading the body gives the command back.
pub proof fn frame_reads_back(c: ZmqCommand)
    requires
        carries_its_kind(c),
    ensures
        frame_octets(c) == frame_header(body_octets(c).len()) + body_octets(c),
        body_framed(body_octets(c)),
        read_command(body_octets(c)) == Ok::<CommandView, CodecError>(c@),
{
    let body = body_octets(c);
    let name = name_octets(c.name);
    names_distinct();
    one_octet(name.len());
    assert(body[0] == name.len());
    assert(name_field(body) =~= name);
    assert(content(body) =~= content_octets(c));
    match c.name {
        ZmqCommandName::READY => {
            listing_reads_back(c.properties.listing(), Map::empty());
        },
        ZmqCommandName::PING => {
            let ttl = c.ttl->0;
            reveal_with_fuel(octets::octet_span, 3);
            octets::be_octets_read_back(ttl as nat, 2);
            assert(content(body).take(2) =~= octets::be_octets(ttl as nat, 2));
            assert(content(body).skip(2) =~= context_octets(c@.context));
        },
        ZmqCommandName::PONG => {},
    }
}

/// The names of the commands are spelled READY, PING and PONG, in ASCII.
pub proof fn names_are_spelled()
    ensures
        name_octets(ZmqCommandName::READY) == seq![82u8, 69, 65, 68, 89],
        name_octets(ZmqCommandName::PING) == seq![80u8, 73, 78, 71],
        name_octets(ZmqCommandName::PONG) == seq![80u8, 79, 78, 71],
{
    reveal_strlit("READY");
    reveal_strlit("PING");
    reveal_strlit("PONG");
    utf8::is_ascii_chars_encode_utf8("READY"@);
    utf8::is_ascii_chars_encode_utf8("PING"@);
    utf8::is_ascii_chars_encode_utf8("PONG"@);
    assert(name_octets(ZmqCommandName::READY) =~= seq![82u8, 69, 65, 68, 89]);
    assert(name_octets(ZmqCommandName::PING) =~= seq![80u8, 73, 78, 71]);
    assert(name_octets(ZmqCommandName::PONG) =~= seq![80u8, 79, 78, 71]);
}

/// The header of a frame gives the length of its body: in one octet behind the flag 4
/// where one is enough, and otherwise in eight octets behind the flag 6.
pub proof fn header_gives_the_length(len: nat)
    requires
        len < 0x1_0000_0000_0000_0000,
    ensures
        len < 256 ==> frame_header(len).len() == 2 && frame_header(len)[0] == 4 && frame_header(
            len,
        )[1] == len,
        len >= 256 ==> frame_header(len).len() == 9 && frame_header(len)[0] == 6
            && octets::be_value(frame_header(len).skip(1)) == len,
{
    one_octet(len);
    reveal_with_fuel(octets::octet_span, 9);
    octets::be_octets_read_back(len, 8);
    if len >= 256 {
        assert(frame_header(len).skip(1) =~= octets::be_octets(len, 8));
    }
}

/// A reader that takes the flag and the length off a stream of octets, and then as many
/// octets as the length says, gets the body of the first frame, and what is left is what
/// follows the frame.
pub proof fn reader_finds_the_body(c: ZmqCommand, more: Seq<u8>)
    requires
        body_octets(c).len() < 0x1_0000_0000_0000_0000,
    ensures
        ({
            let s = frame_octets(c) + more;
            let body = body_octets(c);
            if body.len() < 256 {
                let n = s[1] as int;
                &&& s[0] == 4
                &&& s.subrange(2, 2 + n) == body
                &&& s.skip(2 + n) == more
            } else {
                let n = octets::be_value(s.subrange(1, 9)) as int;
                &&& s[0] == 6
                &&& s.subrange(9, 9 + n) == body
                &&& s.skip(9 + n) == more
            }
        }),
{
    let s = frame_octets(c) + more;
    let body = body_octets(c);
    header_gives_the_length(body.len());
    if body.len() < 256 {
        let n = s[1] as int;
        assert(s[1] == frame_header(body.len())[1]);
        assert(s.subrange(2, 2 + n) =~= body);
        assert(s.skip(2 + n) =~= more);
    } else {
        assert(s.subrange(1, 9) =~= frame_header(body.len()).skip(1));
        let n = octets::be_value(s.subrange(1, 9)) as int;
        assert(s.subrange(9, 9 + n) =~= body);
        assert(s.skip(9 + n) =~= more);
    }
}

/// The body of a PING: its name behind the name's length, the time-to-live with its higher
/// octet first, and the context up to the end.
pub proof fn ping_body_layout(c: ZmqCommand)
    requires
        c.name == ZmqCommandName::PING,
    ensures
        ({
            let body = body_octets(c);
            let ttl = match c.ttl {
                Some(ttl) => ttl as int,
                None => 0,
            };
            &&& body.take(5) == seq![4u8, 80, 73, 78, 71]
            &&& body[5] == ttl / 256
            &&& body[6] == ttl % 256
            &&& body.skip(7) == (match c@.context {
                Some(context) => context,
                None => Seq::empty(),
            })
        }),
{
    let body = body_octets(c);
    let ttl: nat = match c.ttl {
        Some(ttl) => ttl as nat,
        None => 0,
    };
    names_are_spelled();
    one_octet(4);
    reveal_with_fuel(octets::be_octets, 3);
    let written = octets::be_octets(ttl, 2);
    assert(written =~= seq![(ttl / 256 % 256) as u8, (ttl % 256) as u8]);
    assert(body.take(5) =~= seq![4u8, 80, 73, 78, 71]);
    assert(body[5] == written[0] && body[6] == written[1]);
    assert(body.skip(7) =~= context_octets(c@.context));
}

/// The body of a PONG: its name behind the name's length, and the context up to the end.
pub proof fn pong_body_layout(c: ZmqCommand)
    requires
        c.name == ZmqCommandName::PONG,
    ensures
        body_octets(c).take(5) == seq![4u8, 80, 79, 78, 71],
        body_octets(c).skip(5) == (match c@.context {
            Some(context) => context,
            None => Seq::empty(),
        }),
{
    names_are_spelled();
    one_octet(4);
    assert(body_octets(c).take(5) =~= seq![4u8, 80, 79, 78, 71]);
    assert(body_octets(c).skip(5) =~= context_octets(c@.context));
}

/// The body of a READY: its name behind the name's length, and its properties one behind
/// the other, each as the length of its name in one octet, the name, the length of its
/// value in four octets, and the value.
pub proof fn ready_body_layout(c: ZmqCommand, a: Seq<Property>, p: Property, b: Seq<Property>)
    requires
        c.name == ZmqCommandName::READY,
        c.properties.listing() == a.push(p) + b,
        property_fits(p),
    ensures
        ({
            let body = body_octets(c);
            let name = utf8::encode_utf8(p.0);
            let at = 6 + listing_octets(a).len() as int;
            let value = at + 1 + name.len() as int + 4;
            &&& body.take(6) == seq![5u8, 82, 69, 65, 68, 89]
            &&& body[at] == name.len()
            &&& body.subrange(at + 1, at + 1 + name.len() as int) == name
            &&& octets::be_value(body.subrange(value - 4, value)) == p.1.len()
            &&& body.subrange(value, value + p.1.len() as int) == p.1
            &&& body.skip(value + p.1.len() as int) == listing_octets(b)
        }),
{
    let body = body_octets(c);
    let name = utf8::encode_utf8(p.0);
    let at = 6 + listing_octets(a).len() as int;
    let value = at + 1 + name.len() as int + 4;
    names_are_spelled();
    one_octet(5);
    one_octet(name.len());
    reveal_with_fuel(octets::octet_span, 5);
    octets::be_octets_read_back(p.1.len(), 4);
    listing_extends(a, p);
    listings_join(a.push(p), b);
    assert(body.take(6) =~= seq![5u8, 82, 69, 65, 68, 89]);
    let written = octets::be_octets(p.1.len(), 4);
    assert(content_octets(c) == listing_octets(a) + (octets::be_octets(name.len(), 1) + name
        + written + p.1) + listing_octets(b));
    assert(body.subrange(at + 1, at + 1 + name.len() as int) =~= name);
    assert(body.subrange(value - 4, value) =~= written);
    assert(body.subrange(value, value + p.1.len() as int) =~= p.1);
    assert(body.skip(value + p.1.len() as int) =~= listing_octets(b));
}

/// The octets of two rows of properties stand one behind the other.
pub proof fn listings_join(a: Seq<Property>, b: Seq<Property>)
    ensures
        listing_octets(a + b) == listing_octets(a) + listing_octets(b),
    decreases b.len(),
{
    if b.len() == 0 {
        assert(a + b =~= a);
        assert(listing_octets(a) + listing_octets(b) =~= listing_octets(a));
    } else {
        let c = b.drop_last();
        listings_join(a, c);
        listing_extends(a + c, b.last());
        listing_extends(c, b.last());
        assert((a + c).push(b.last()) =~= a + b);
        assert(c.push(b.last()) =~= b);
        assert(listing_octets(a + b) =~= listing_octets(a) + listing_octets(b));
    }
}

/// What is read from a body that is named PING. `rest` is all that follows the name.
pub proof fn pings_are_read(rest: Seq<u8>)
    ensures
        ({
            let body = seq![4u8, 80, 73, 78, 71] + rest;
            &&& body_framed(body)
            &&& match read_command(body) {
                Ok(c) => {
                    &&& 2 <= rest.len() <= 18
                    &&& c.name == ZmqCommandName::PING
                    &&& c.ttl == Some((rest[0] * 256 + rest[1]) as u16)
                    &&& rest.len() == 2 ==> c.context is None
                    &&& rest.len() > 2 ==> c.context == Some(rest.skip(2))
                    &&& c.properties == Map::<Seq<char>, Seq<u8>>::empty()
                },
                Err(e) => {
                    &&& rest.len() < 2 ==> e == CodecError::Decode(
                        "PING command requires at least 2 bytes for TTL",
                    )
                    &&& rest.len() >= 2 ==> e == CodecError::Decode("PING context exceeds 16 bytes")
                        && rest.len() > 18
                },
            }
        }),
{
    let body = seq![4u8, 80, 73, 78, 71] + rest;
    names_are_spelled();
    assert(name_field(body) =~= seq![80u8, 73, 78, 71]);
    assert(content(body) =~= rest);
    if rest.len() >= 2 {
        reveal_with_fuel(octets::be_value, 3);
        let two = rest.take(2);
        assert(two.drop_last() =~= seq![rest[0]]);
        assert(two.drop_last().drop_last() =~= Seq::empty());
        assert(octets::be_value(two) == rest[0] * 256 + rest[1]);
    }
}

/// What is read from a body that is named PONG. `rest` is all that follows the name.
pub proof fn pongs_are_read(rest: Seq<u8>)
    ensures
        ({
            let body = seq![4u8, 80, 79, 78, 71] + rest;
            &&& body_framed(body)
            &&& match read_command(body) {
                Ok(c) => {
                    &&& rest.len() <= 16
                    &&& c.name == ZmqCommandName::PONG
                    &&& c.ttl is None
                    &&& rest.len() == 0 ==> c.context is None
                    &&& rest.len() > 0 ==> c.context == Some(rest)
                    &&& c.properties == Map::<Seq<char>, Seq<u8>>::empty()
                },
                Err(e) => e == CodecError::Decode("PONG context exceeds 16 bytes") && rest.len()
                    > 16,
            }
        }),
{
    let body = seq![4u8, 80, 79, 78, 71] + rest;
    names_are_spelled();
    assert(name_field(body) =~= seq![80u8, 79, 78, 71]);
    assert(content(body) =~= rest);
}

/// A body that is named READY and lists properties, whatever their names, is read as these:
/// where a name comes twice, the later value counts.
pub proof fn readies_are_read(list: Seq<Property>, p: Property)
    requires
        forall|i: int| 0 <= i < list.len() ==> property_fits(#[trigger] list[i]),
        property_fits(p),
    ensures
        ({
            let head = seq![5u8, 82, 69, 65, 68, 89];
            let all = list.push(p);
            &&& body_framed(head + listing_octets(all))
            &&& read_command(head) is Ok
            &&& read_command(head)->Ok_0.properties == Map::<Seq<char>, Seq<u8>>::empty()
            &&& match (
                read_command(head + listing_octets(all)),
                read_command(head + listing_octets(list)),
            ) {
                (Ok(c), Ok(d)) => {
                    &&& c.name == ZmqCommandName::READY
                    &&& c.ttl is None
                    &&& c.context is None
                    &&& c.properties == d.properties.insert(p.0, p.1)
                },
                _ => false,
            }
        }),
{
    let head = seq![5u8, 82, 69, 65, 68, 89];
    let all = list.push(p);
    names_are_spelled();
    assert forall|i: int| 0 <= i < all.len() implies property_fits(#[trigger] all[i]) by {
        if i < list.len() {
            assert(all[i] == list[i]);
        }
    }
    listing_reads_back(all, Map::empty());
    listing_reads_back(list, Map::empty());
    collect_extends(list, p, Map::empty());
    let none = Seq::<u8>::empty();
    assert(head =~= head + none);
    assert(name_field(head) =~= seq![82u8, 69, 65, 68, 89]);
    assert(content(head) =~= none);
    assert(name_field(head + listing_octets(all)) =~= seq![82u8, 69, 65, 68, 89]);
    assert(content(head + listing_octets(all)) =~= listing_octets(all));
    assert(name_field(head + listing_octets(list)) =~= seq![82u8, 69, 65, 68, 89]);
    assert(content(head + listing_octets(list)) =~= listing_octets(list));
}

/// A property collected last is inserted last.
proof fn collect_extends(list: Seq<Property>, p: Property, start: Map<Seq<char>, Seq<u8>>)
    ensures
        properties::collect(list.push(p), start) == properties::collect(list, start).insert(
            p.0,
            p.1,
        ),
    decreases list.len(),
{
    let all = list.push(p);
    if list.len() == 0 {
        reveal_with_fuel(properties::collect, 2);
        assert(all.skip(1) =~= Seq::empty());
    } else {
        assert(all.skip(1) =~= list.skip(1).push(p));
        collect_extends(list.skip(1), p, start.insert(list[0].0, list[0].1));
    }
}

/// A READY is refused at the first property whose name is not valid UTF-8, whatever
/// follows that name.
pub proof fn invalid_names_are_refused(list: Seq<Property>, name: Seq<u8>, more: Seq<u8>)
    requires
        forall|i: int| 0 <= i < list.len() ==> property_fits(#[trigger] list[i]),
        name.len() < 256,
        !utf8::valid_utf8(name),
    ensures
        ({
            let body = seq![5u8, 82, 69, 65, 68, 89] + listing_octets(list) + seq![name.len() as u8]
                + name + more;
            &&& body_framed(body)
            &&& read_command(body) == Err::<CommandView, CodecError>(
                CodecError::Decode("Invalid property identifier"),
            )
        }),
{
    let bad = seq![name.len() as u8] + name + more;
    let body = seq![5u8, 82, 69, 65, 68, 89] + listing_octets(list) + seq![name.len() as u8] + name
        + more;
    names_are_spelled();
    assert(name_field(body) =~= seq![82u8, 69, 65, 68, 89]);
    assert(content(body) =~= listing_octets(list) + bad);
    assert(property_name(bad) =~= name);
    listing_reads_on(list, bad, Map::empty());
}

/// Reading the octets of a row of properties and then more is reading the row and then the
/// rest.
proof fn listing_reads_on(list: Seq<Property>, more: Seq<u8>, start: Map<Seq<char>, Seq<u8>>)
    requires
        forall|i: int| 0 <= i < list.len() ==> property_fits(#[trigger] list[i]),
        properties_framed(more),
    ensures
        properties_framed(listing_octets(list) + more),
        read_properties(listing_octets(list) + more, start) == read_properties(
            more,
            properties::collect(list, start),
        ),
    decreases list.len(),
{
    if list.len() > 0 {
        let s = listing_octets(list) + more;
        let p = list[0];
        let rest = list.skip(1);
        let name = utf8::encode_utf8(p.0);
        assert(property_fits(list[0]));
        reveal_with_fuel(octets::octet_span, 5);
        octets::be_octets_read_back(p.1.len(), 4);
        one_octet(name.len());
        assert forall|i: int| 0 <= i < rest.len() implies property_fits(#[trigger] rest[i]) by {
            assert(rest[i] == list[i + 1]);
        }
        let value_part = octets::be_octets(p.1.len(), 4) + p.1 + (listing_octets(rest) + more);
        assert(s =~= octets::be_octets(name.len(), 1) + name + value_part);
        assert(s[0] == name.len());
        assert(property_name(s) =~= name);
        assert(property_rest(s) =~= value_part);
        assert(property_rest(s).take(4) =~= octets::be_octets(p.1.len(), 4));
        assert(property_value(s) =~= p.1);
        assert(further_properties(s) =~= listing_octets(rest) + more);
        utf8::encode_utf8_valid_utf8(p.0);
        utf8::encode_utf8_decode_utf8(p.0);
        listing_reads_on(rest, more, start.insert(p.0, p.1));
    } else {
        assert(listing_octets(list) + more =~= more);
    }
}

/// A body with any other name is refused, whatever follows the name.
pub proof fn other_names_are_refused(name: Seq<u8>, more: Seq<u8>)
    requires
        name.len() < 256,
        name != seq![82u8, 69, 65, 68, 89],
        name != seq![80u8, 73, 78, 71],
        name != seq![80u8, 79, 78, 71],
    ensures
        body_framed(seq![name.len() as u8] + name + more),
        read_command(seq![name.len() as u8] + name + more) == Err::<CommandView, CodecError>(
            CodecError::Command("Unknown command received"),
        ),
{
    let body = seq![name.len() as u8] + name + more;
    names_are_spelled();
    assert(name_field(body) =~= name);
}

/// A body is not framed where its name, or the name or the value of a property, would run
/// past its end.
pub proof fn lengths_stay_inside(
    body: Seq<u8>,
    list: Seq<Property>,
    name: Seq<u8>,
    value_len: nat,
    value: Seq<u8>,
)
    requires
        forall|i: int| 0 <= i < list.len() ==> property_fits(#[trigger] list[i]),
        name.len() < 256,
        utf8::valid_utf8(name),
        value.len() < value_len <= 0xffff_ffff,
    ensures
        body.len() == 0 || body[0] >= body.len() ==> !body_framed(body),
        !body_framed(
            seq![5u8, 82, 69, 65, 68, 89] + listing_octets(list) + (seq![name.len() as u8] + name
                + octets::be_octets(value_len, 4) + value),
        ),
        name.len() > 0 ==> !body_framed(
            seq![5u8, 82, 69, 65, 68, 89] + listing_octets(list) + (seq![name.len() as u8]
                + name.drop_last()),
        ),
{
    names_are_spelled();
    reveal_with_fuel(octets::octet_span, 5);
    octets::be_octets_read_back(value_len, 4);
    let head = seq![5u8, 82, 69, 65, 68, 89] + listing_octets(list);
    let cut = seq![name.len() as u8] + name + octets::be_octets(value_len, 4) + value;
    assert(property_name(cut) =~= name);
    assert(property_rest(cut) =~= octets::be_octets(value_len, 4) + value);
    assert(property_rest(cut).take(4) =~= octets::be_octets(value_len, 4));
    assert(!properties_framed(cut));
    framing_goes_on(list, cut);
    assert(name_field(head + cut) =~= seq![82u8, 69, 65, 68, 89]);
    assert(content(head + cut) =~= listing_octets(list) + cut);
    if name.len() > 0 {
        let short = seq![name.len() as u8] + name.drop_last();
        assert(!properties_framed(short));
        framing_goes_on(list, short);
        assert(name_field(head + short) =~= seq![82u8, 69, 65, 68, 89]);
        assert(content(head + short) =~= listing_octets(list) + short);
    }
}

/// Whether properties are framed behind others depends on themselves.
proof fn framing_goes_on(list: Seq<Property>, more: Seq<u8>)
    requires
        forall|i: int| 0 <= i < list.len() ==> property_fits(#[trigger] list[i]),
    ensures
        properties_framed(listing_octets(list) + more) == properties_framed(more),
    decreases list.len(),
{
    if list.len() > 0 {
        let s = listing_octets(list) + more;
        let p = list[0];
        let rest = list.skip(1);
        let name = utf8::encode_utf8(p.0);
        assert(property_fits(list[0]));
        reveal_with_fuel(octets::octet_span, 5);
        octets::be_octets_read_back(p.1.len(), 4);
        one_octet(name.len());
        assert forall|i: int| 0 <= i < rest.len() implies property_fits(#[trigger] rest[i]) by {
            assert(rest[i] == list[i + 1]);
        }
        let value_part = octets::be_octets(p.1.len(), 4) + p.1 + (listing_octets(rest) + more);
        assert(s =~= octets::be_octets(name.len(), 1) + name + value_part);
        assert(s[0] == name.len());
        assert(property_name(s) =~= name);
        assert(property_rest(s) =~= value_part);
        assert(property_rest(s).take(4) =~= octets::be_octets(p.1.len(), 4));
        assert(further_properties(s) =~= listing_octets(rest) + more);
        utf8::encode_utf8_valid_utf8(p.0);
        framing_goes_on(rest, more);
    } else {
        assert(listing_octets(list) + more =~= more);
    }
}

/// What the layout has room for: names of up to 255 octets and values of less than 4 GiB;
/// and contexts of 1 to 16 octets.
pub proof fn room_in_a_body(p: Property, c: ZmqCommand)
    ensures
        property_fits(p) <==> utf8::encode_utf8(p.0).len() < 256 && p.1.len() < 0x1_0000_0000,
        c.name != ZmqCommandName::READY && (c.name == ZmqCommandName::PING <==> c.ttl is Some)
            && c.properties@ == Map::<Seq<char>, Seq<u8>>::empty() && (c@.context is None || (0
            < c@.context->0.len() && c@.context->0.len() < 17)) ==> carries_its_kind(c),
        c.name == ZmqCommandName::READY && c.ttl is None && c.context is None && (forall|i: int|
            0 <= i < c.properties.listing().len() ==> property_fits(
                #[trigger] c.properties.listing()[i],
            )) ==> carries_its_kind(c),
{
}

/// What a decoder returns is seen as it is.
pub proof fn outcomes_are_seen_whole(c: ZmqCommand, e: CodecError)
    ensures
        outcome_view(Ok(c)) == Ok::<CommandView, CodecError>(c@),
        outcome_view(Err(e)) == Err::<CommandView, CodecError>(e),
{
}

} // verus!
