//! Byte buffers of the `bytes` crate, seen as sequences of octets.
use bytes::{Buf, BufMut, Bytes, BytesMut};
use vstd::prelude::*;
use vstd::utf8;

verus! {

/// `bytes::Bytes`: a cheaply cloneable, immutable run of octets.
#[verifier::external_type_specification]
#[verifier::external_body]
pub struct ExBytes(Bytes);

/// `bytes::BytesMut`: a growable run of octets.
#[verifier::external_type_specification]
#[verifier::external_body]
pub struct ExBytesMut(BytesMut);

/// The octets that a `Bytes` holds, from its current position to its end.
pub uninterp spec fn of(b: Bytes) -> Seq<u8>;

/// The octets that a `BytesMut` holds.
pub uninterp spec fn of_mut(b: BytesMut) -> Seq<u8>;

/// The largest buffer that can always be grown to: doubling a smaller one stays
/// within `isize::MAX`, the most that an allocation may have.
pub open spec fn buffer_limit() -> int {
    isize::MAX as int / 2
}

/// `Bytes::deref`: the octets as a slice.
#[verifier::external_body]
pub(crate) fn as_slice(b: &Bytes) -> (s: &[u8])
    ensures
        s@ == of(*b),
{
    b
}

/// `Bytes::clone`: another handle on the same octets.
#[verifier::external_body]
pub(crate) fn share(b: &Bytes) -> (r: Bytes)
    ensures
        of(r) == of(*b),
{
    b.clone()
}

/// `Bytes::from(&'static str)`: the UTF-8 encoding of the text.
#[verifier::external_body]
pub(crate) fn from_text(text: &'static str) -> (r: Bytes)
    ensures
        of(r) == utf8::encode_utf8(text@),
{
    Bytes::from(text)
}

/// `Buf::get_u8`: takes one octet off the front. It panics on an empty buffer.
#[verifier::external_body]
pub(crate) fn get_u8(b: &mut Bytes) -> (r: u8)
    requires
        of(*old(b)).len() >= 1,
    ensures
        r == of(*old(b))[0],
        of(*final(b)) == of(*old(b)).skip(1),
{
    b.get_u8()
}

/// `Buf::get_u16`: takes two octets off the front, most significant first. It
/// panics on a shorter buffer.
#[verifier::external_body]
pub(crate) fn get_u16(b: &mut Bytes) -> (r: u16)
    requires
        of(*old(b)).len() >= 2,
    ensures
        r == be_value(of(*old(b)).take(2)),
        of(*final(b)) == of(*old(b)).skip(2),
{
    b.get_u16()
}

/// `Buf::get_u32`: takes four octets off the front, most significant first. It
/// panics on a shorter buffer.
#[verifier::external_body]
pub(crate) fn get_u32(b: &mut Bytes) -> (r: u32)
    requires
        of(*old(b)).len() >= 4,
    ensures
        r == be_value(of(*old(b)).take(4)),
        of(*final(b)) == of(*old(b)).skip(4),
{
    b.get_u32()
}

/// `Buf::advance`: drops `count` octets off the front. It panics if there are
/// fewer.
#[verifier::external_body]
pub(crate) fn advance(b: &mut Bytes, count: usize)
    requires
        count <= of(*old(b)).len(),
    ensures
        of(*final(b)) == of(*old(b)).skip(count as int),
{
    b.advance(count)
}

/// `Bytes::split_to`: takes `at` octets off the front and returns them. It panics
/// if there are fewer.
#[verifier::external_body]
pub(crate) fn split_to(b: &mut Bytes, at: usize) -> (front: Bytes)
    requires
        at <= of(*old(b)).len(),
    ensures
        of(front) == of(*old(b)).take(at as int),
        of(*final(b)) == of(*old(b)).skip(at as int),
{
    b.split_to(at)
}

/// `BytesMut::new`: an empty buffer.
#[verifier::external_body]
pub(crate) fn empty_buffer() -> (b: BytesMut)
    ensures
        of_mut(b) == Seq::<u8>::empty(),
{
    BytesMut::new()
}

/// `BytesMut::with_capacity`: an empty buffer with room for `capacity` octets. It
/// panics where an allocation of that size cannot exist.
#[verifier::external_body]
pub(crate) fn buffer_with_capacity(capacity: usize) -> (b: BytesMut)
    requires
        capacity <= isize::MAX,
    ensures
        of_mut(b) == Seq::<u8>::empty(),
{
    BytesMut::with_capacity(capacity)
}

/// `BytesMut::reserve`: makes room for `additional` more octets and leaves the
/// octets as they are.
#[verifier::external_body]
pub(crate) fn reserve(b: &mut BytesMut, additional: usize)
    requires
        of_mut(*old(b)).len() + additional <= buffer_limit(),
    ensures
        of_mut(*final(b)) == of_mut(*old(b)),
{
    b.reserve(additional)
}

/// `BufMut::put_u8`: appends one octet.
#[verifier::external_body]
pub(crate) fn put_u8(b: &mut BytesMut, n: u8)
    requires
        of_mut(*old(b)).len() + 1 <= buffer_limit(),
    ensures
        of_mut(*final(b)) == of_mut(*old(b)).push(n),
{
    b.put_u8(n)
}

/// `BufMut::put_u16`: appends two octets, most significant first.
#[verifier::external_body]
pub(crate) fn put_u16(b: &mut BytesMut, n: u16)
    requires
        of_mut(*old(b)).len() + 2 <= buffer_limit(),
    ensures
        of_mut(*final(b)) == of_mut(*old(b)) + be_octets(n as nat, 2),
{
    b.put_u16(n)
}

/// `BufMut::put_u32`: appends four octets, most significant first.
#[verifier::external_body]
pub(crate) fn put_u32(b: &mut BytesMut, n: u32)
    requires
        of_mut(*old(b)).len() + 4 <= buffer_limit(),
    ensures
        of_mut(*final(b)) == of_mut(*old(b)) + be_octets(n as nat, 4),
{
    b.put_u32(n)
}

/// `BufMut::put_u64`: appends eight octets, most significant first.
#[verifier::external_body]
pub(crate) fn put_u64(b: &mut BytesMut, n: u64)
    requires
        of_mut(*old(b)).len() + 8 <= buffer_limit(),
    ensures
        of_mut(*final(b)) == of_mut(*old(b)) + be_octets(n as nat, 8),
{
    b.put_u64(n)
}

/// `BytesMut::extend_from_slice`: appends the octets of a slice.
#[verifier::external_body]
pub(crate) fn extend_from_slice(b: &mut BytesMut, s: &[u8])
    requires
        of_mut(*old(b)).len() + s@.len() <= buffer_limit(),
    ensures
        of_mut(*final(b)) == of_mut(*old(b)) + s@,
{
    b.extend_from_slice(s)
}

/// `BytesMut::freeze`: the same octets, no longer growable.
#[verifier::external_body]
pub(crate) fn freeze(b: BytesMut) -> (r: Bytes)
    ensures
        of(r) == of_mut(b),
{
    b.freeze()
}

/// `String::from_utf8`: the text that the octets encode, or nothing where they are
/// not valid UTF-8.
#[verifier::external_body]
pub(crate) fn text_from_utf8(v: Vec<u8>) -> (r: Option<String>)
    ensures
        r is Some <==> utf8::valid_utf8(v@),
        r matches Some(text) ==> text@ == utf8::decode_utf8(v@),
{
    String::from_utf8(v).ok()
}

/// The number that octets stand for, most significant first.
pub open spec fn be_value(s: Seq<u8>) -> nat
    decreases s.len(),
{
    if s.len() == 0 {
        0
    } else {
        be_value(s.drop_last()) * 256 + s.last() as nat
    }
}

/// The `width` low octets of a number, most significant first.
pub open spec fn be_octets(v: nat, width: nat) -> Seq<u8>
    decreases width,
{
    if width == 0 {
        Seq::empty()
    } else {
        be_octets(v / 256, (width - 1) as nat).push((v % 256) as u8)
    }
}

/// 256 to the power of `width`.
pub open spec fn octet_span(width: nat) -> nat
    decreases width,
{
    if width == 0 {
        1
    } else {
        256 * octet_span((width - 1) as nat)
    }
}

/// Reading back the octets of a number that fits in `width` of them gives the
/// number.
pub proof fn be_octets_read_back(v: nat, width: nat)
    requires
        v < octet_span(width),
    ensures
        be_octets(v, width).len() == width,
        be_value(be_octets(v, width)) == v,
    decreases width,
{
    if width > 0 {
        be_octets_read_back(v / 256, (width - 1) as nat);
        assert(be_octets(v, width).drop_last() =~= be_octets(v / 256, (width - 1) as nat));
    }
}

/// A span is a power of 256, and of the octets of a number the first weighs most: each
/// octet in front weighs 256 times as much as the one behind it.
pub proof fn first_octet_weighs_most(a: u8, s: Seq<u8>)
    ensures
        octet_span(s.len()) == vstd::arithmetic::power::pow(256, s.len()),
        be_value(seq![a] + s) == a * octet_span(s.len()) + be_value(s),
        be_value(s) < octet_span(s.len()),
    decreases s.len(),
{
    let longer = seq![a] + s;
    vstd::arithmetic::power::lemma_pow0(256);
    if s.len() == 0 {
        assert(longer.drop_last() =~= s);
        assert(be_value(s) == 0);
        assert(longer.last() == a);
    } else {
        let t = s.drop_last();
        first_octet_weighs_most(a, t);
        vstd::arithmetic::power::lemma_pow1(256);
        vstd::arithmetic::power::lemma_pow_adds(256, 1, t.len());
        assert(longer.drop_last() =~= seq![a] + t);
        assert(longer.last() == s.last());
        let w = octet_span(t.len());
        assert((a * w + be_value(t)) * 256 == a * (256 * w) + be_value(t) * 256) by (nonlinear_arith);
    }
}

} // verus!
