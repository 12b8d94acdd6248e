//! The output buffer: an append-only byte sequence that also allows four bytes at an
//! already written offset to be overwritten.
//!
//! The storage is `bytes::BytesMut`. What it holds is modelled by [`contents`]; the
//! functions marked `external_body` state what the calls into `bytes` and `byteorder`
//! do to it, and are taken on trust.

use bytes::BufMut;
use bytes::BytesMut;
use byteorder::ByteOrder;
use vstd::prelude::*;

verus! {

#[verifier::external_type_specification]
#[verifier::external_body]
pub struct ExBytesMut(bytes::BytesMut);

/// The bytes held by a buffer, in the order in which they were appended.
pub uninterp spec fn contents(buf: BytesMut) -> Seq<u8>;

/// Little-endian encoding of a 16-bit value.
pub open spec fn le_u16(v: u16) -> Seq<u8> {
    seq![(v % 256) as u8, (v / 256) as u8]
}

/// Little-endian encoding of a 32-bit value.
pub open spec fn le_u32(v: u32) -> Seq<u8> {
    seq![
        (v % 256) as u8,
        (v / 256 % 256) as u8,
        (v / 65536 % 256) as u8,
        (v / 16777216) as u8,
    ]
}

/// `n` zero bytes.
pub open spec fn zeros(n: nat) -> Seq<u8> {
    Seq::new(n, |i: int| 0u8)
}

/// The value of a 32-bit pointer field that refers to `offset`: the offset itself
/// while it fits, its low 32 bits beyond that.
pub open spec fn ptr32(offset: int) -> u32 {
    (offset % 0x1_0000_0000) as u32
}

/// `s` with the four bytes from `at` replaced by the little-endian encoding of `v`.
pub open spec fn patched(s: Seq<u8>, at: int, v: u32) -> Seq<u8> {
    s.subrange(0, at) + le_u32(v) + s.subrange(at + 4, s.len() as int)
}

/// Nothing in front of a sequence leaves the sequence.
pub proof fn lemma_empty_front(a: Seq<u8>)
    ensures
        Seq::<u8>::empty() + a == a,
{
    assert(Seq::<u8>::empty() + a =~= a);
}

/// Nothing behind a sequence leaves the sequence.
pub proof fn lemma_empty_back(a: Seq<u8>)
    ensures
        a + Seq::<u8>::empty() == a,
{
    assert(a + Seq::<u8>::empty() =~= a);
}

/// Concatenation may be grouped either way.
pub proof fn lemma_concat_assoc(a: Seq<u8>, b: Seq<u8>, c: Seq<u8>)
    ensures
        a + b + c == a + (b + c),
{
    assert(a + b + c =~= a + (b + c));
}

/// A range that lies in the first of two parts is a range of that part.
pub proof fn lemma_subrange_front(a: Seq<u8>, b: Seq<u8>, from: int, to: int)
    requires
        0 <= from <= to <= a.len(),
    ensures
        (a + b).subrange(from, to) == a.subrange(from, to),
{
    assert((a + b).subrange(from, to) =~= a.subrange(from, to));
}

/// The range behind the first of two parts is the second part.
pub proof fn lemma_subrange_back(a: Seq<u8>, b: Seq<u8>)
    ensures
        (a + b).subrange(a.len() as int, (a.len() + b.len()) as int) == b,
{
    assert((a + b).subrange(a.len() as int, (a.len() + b.len()) as int) =~= b);
}

/// A range that lies in the middle of three parts is a range of that part.
pub proof fn lemma_subrange_middle(a: Seq<u8>, b: Seq<u8>, c: Seq<u8>, from: int, to: int)
    requires
        0 <= from <= to <= b.len(),
    ensures
        (a + b + c).subrange(a.len() + from, a.len() + to) == b.subrange(from, to),
{
    assert((a + b + c).subrange(a.len() + from, a.len() + to) =~= b.subrange(from, to));
}

/// A range of a range is a range of the whole.
pub proof fn lemma_subrange_twice(s: Seq<u8>, from: int, to: int, a: int, b: int)
    requires
        0 <= from <= to <= s.len(),
        0 <= a <= b <= to - from,
    ensures
        s.subrange(from, to).subrange(a, b) == s.subrange(from + a, from + b),
{
    assert(s.subrange(from, to).subrange(a, b) =~= s.subrange(from + a, from + b));
}

/// Overwriting four bytes inside the first of two parts changes the first part alone.
pub proof fn lemma_patched_front(a: Seq<u8>, b: Seq<u8>, at: int, v: u32)
    requires
        0 <= at,
        at + 4 <= a.len(),
    ensures
        patched(a + b, at, v) == patched(a, at, v) + b,
{
    assert(patched(a + b, at, v) =~= patched(a, at, v) + b);
}

/// Overwriting four bytes inside the middle of three parts changes the middle part
/// alone.
pub proof fn lemma_patched_middle(a: Seq<u8>, b: Seq<u8>, c: Seq<u8>, at: int, v: u32)
    requires
        0 <= at,
        at + 4 <= b.len(),
    ensures
        patched(a + b + c, a.len() + at, v) == a + patched(b, at, v) + c,
{
    assert(patched(a + b + c, a.len() + at, v) =~= a + patched(b, at, v) + c);
}

/// `BytesMut::with_capacity`: a fresh buffer, which holds no bytes whatever its capacity.
#[verifier::external_body]
pub(crate) fn with_capacity(capacity: usize) -> (buf: BytesMut)
    requires
        capacity <= isize::MAX,
    ensures
        contents(buf) == Seq::<u8>::empty(),
{
    BytesMut::with_capacity(capacity)
}

/// `BytesMut::len`: the number of bytes held.
#[verifier::external_body]
pub(crate) fn len(buf: &BytesMut) -> (n: usize)
    ensures
        n == contents(*buf).len(),
{
    buf.len()
}

/// `BufMut::put_slice` on a `BytesMut`: the bytes of `src` are appended; the buffer
/// grows as needed, up to the allocation limit of `isize::MAX` bytes.
#[verifier::external_body]
pub(crate) fn put_slice(buf: &mut BytesMut, src: &[u8])
    requires
        contents(*old(buf)).len() + src@.len() <= isize::MAX,
    ensures
        contents(*final(buf)) == contents(*old(buf)) + src@,
{
    buf.put_slice(src)
}

/// `BufMut::put_u8` on a `BytesMut`: one byte is appended.
#[verifier::external_body]
pub(crate) fn put_u8(buf: &mut BytesMut, v: u8)
    requires
        contents(*old(buf)).len() + 1 <= isize::MAX,
    ensures
        contents(*final(buf)) == contents(*old(buf)).push(v),
{
    buf.put_u8(v)
}

/// `BufMut::put_u16_le` on a `BytesMut`: the two bytes of `v` are appended, low byte first.
#[verifier::external_body]
pub(crate) fn put_u16_le(buf: &mut BytesMut, v: u16)
    requires
        contents(*old(buf)).len() + 2 <= isize::MAX,
    ensures
        contents(*final(buf)) == contents(*old(buf)) + le_u16(v),
{
    buf.put_u16_le(v)
}

/// `BufMut::put_u32_le` on a `BytesMut`: the four bytes of `v` are appended, low byte first.
#[verifier::external_body]
pub(crate) fn put_u32_le(buf: &mut BytesMut, v: u32)
    requires
        contents(*old(buf)).len() + 4 <= isize::MAX,
    ensures
        contents(*final(buf)) == contents(*old(buf)) + le_u32(v),
{
    buf.put_u32_le(v)
}

/// `byteorder::LittleEndian::write_u32` on the bytes of the buffer from `start` on: the
/// first four of them become the little-endian encoding of `v`, all others stay.
#[verifier::external_body]
pub(crate) fn write_u32_le(buf: &mut BytesMut, start: usize, v: u32)
    requires
        start + 4 <= contents(*old(buf)).len(),
    ensures
        contents(*final(buf)) == patched(contents(*old(buf)), start as int, v),
{
    byteorder::LittleEndian::write_u32(&mut buf[start..], v)
}

/// `<[u8]>::to_vec` on the buffer's bytes: a copy of what the buffer holds.
#[verifier::external_body]
pub(crate) fn to_vec(buf: &BytesMut) -> (bytes: Vec<u8>)
    ensures
        bytes@ == contents(*buf),
{
    buf.to_vec()
}

/// The pointer value for the offset `skip` bytes past `at`.
pub fn ptr_at(at: usize, skip: u32) -> (p: u32)
    ensures
        p == ptr32(at + skip),
{
    let low: u64 = (at as u64) % 0x1_0000_0000;
    ((low + skip as u64) % 0x1_0000_0000) as u32
}

/// Overwrites the four bytes at `offset`, which are already written, with the
/// little-endian encoding of `v`.
pub fn patch(buf: &mut BytesMut, offset: usize, v: u32)
    requires
        offset + 4 <= contents(*old(buf)).len(),
    ensures
        contents(*final(buf)) == patched(contents(*old(buf)), offset as int, v),
{
    write_u32_le(buf, offset, v);
}

/// Appends `n` zero bytes.
pub fn put_zeros(buf: &mut BytesMut, n: usize)
    requires
        contents(*old(buf)).len() + n <= isize::MAX,
    ensures
        contents(*final(buf)) == contents(*old(buf)) + zeros(n as nat),
{
    let mut i: usize = 0;
    proof {
        assert(contents(*buf) =~= contents(*old(buf)) + zeros(0));
    }
    while i < n
        invariant
            i <= n,
            contents(*old(buf)).len() + n <= isize::MAX,
            contents(*buf) == contents(*old(buf)) + zeros(i as nat),
        decreases n - i,
    {
        put_u8(buf, 0);
        i = i + 1;
        proof {
            assert(contents(*buf) =~= contents(*old(buf)) + zeros(i as nat));
        }
    }
}

/// Appends `bytes` and returns the offset at which they start.
pub fn append(buf: &mut BytesMut, bytes: &[u8]) -> (at: usize)
    requires
        contents(*old(buf)).len() + bytes@.len() <= isize::MAX,
    ensures
        at == contents(*old(buf)).len(),
        contents(*final(buf)) == contents(*old(buf)) + bytes@,
{
    let at = len(buf);
    put_slice(buf, bytes);
    at
}

} // verus!
