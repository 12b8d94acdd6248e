//! Vertex attributes, the eight vertex layouts built from them, and their wire form.
//!
//! Half-precision floats are held as their raw 16-bit patterns; every attribute is
//! written field by field in little-endian order.

use crate::buffer::{contents, le_u16, put_slice, put_u16_le};
use bytes::BytesMut;
use vstd::prelude::*;

verus! {

/// Position: four half-precision floats, as bit patterns.
#[derive(Clone, Copy, Debug, PartialEq, Eq)]
pub struct P4h {
    pub pos: [u16; 4],
}

/// Normal: four bytes.
#[derive(Clone, Copy, Debug, PartialEq, Eq)]
pub struct N4b {
    pub normals: [u8; 4],
}

/// Tangent: four bytes.
#[derive(Clone, Copy, Debug, PartialEq, Eq)]
pub struct G4b {
    pub tangent: [u8; 4],
}

/// Binormal: four bytes.
#[derive(Clone, Copy, Debug, PartialEq, Eq)]
pub struct B4b {
    pub binormal: [u8; 4],
}

/// Texture coordinate: two half-precision floats, as bit patterns.
#[derive(Clone, Copy, Debug, PartialEq, Eq)]
pub struct T2h {
    pub tex: [u16; 2],
}

/// Blend indices: four bytes.
#[derive(Clone, Copy, Debug, PartialEq, Eq)]
pub struct I4b {
    pub blend_idx: [u8; 4],
}

/// Blend weights: four bytes.
#[derive(Clone, Copy, Debug, PartialEq, Eq)]
pub struct W4b {
    pub blend_weight: [u8; 4],
}

/// Vertex colour: four bytes.
#[derive(Clone, Copy, Debug, PartialEq, Eq)]
pub struct C4c {
    pub unknown: [u8; 4],
}

impl P4h {
    pub open spec fn bytes(&self) -> Seq<u8> {
        le_u16(self.pos[0]) + le_u16(self.pos[1]) + le_u16(self.pos[2]) + le_u16(self.pos[3])
    }
}

impl N4b {
    pub open spec fn bytes(&self) -> Seq<u8> {
        self.normals@
    }
}

impl G4b {
    pub open spec fn bytes(&self) -> Seq<u8> {
        self.tangent@
    }
}

impl B4b {
    pub open spec fn bytes(&self) -> Seq<u8> {
        self.binormal@
    }
}

impl T2h {
    pub open spec fn bytes(&self) -> Seq<u8> {
        le_u16(self.tex[0]) + le_u16(self.tex[1])
    }
}

impl I4b {
    pub open spec fn bytes(&self) -> Seq<u8> {
        self.blend_idx@
    }
}

impl W4b {
    pub open spec fn bytes(&self) -> Seq<u8> {
        self.blend_weight@
    }
}

impl C4c {
    pub open spec fn bytes(&self) -> Seq<u8> {
        self.unknown@
    }
}

/// Appends a position: eight bytes.
pub fn put_p4h(buf: &mut BytesMut, p4h: &P4h)
    requires
        contents(*old(buf)).len() + 8 <= isize::MAX,
    ensures
        contents(*final(buf)) == contents(*old(buf)) + p4h.bytes(),
        p4h.bytes().len() == 8,
{
    put_u16_le(buf, p4h.pos[0]);
    put_u16_le(buf, p4h.pos[1]);
    put_u16_le(buf, p4h.pos[2]);
    put_u16_le(buf, p4h.pos[3]);
}

/// Appends a normal: four bytes.
pub fn put_n4b(buf: &mut BytesMut, n4b: &N4b)
    requires
        contents(*old(buf)).len() + 4 <= isize::MAX,
    ensures
        contents(*final(buf)) == contents(*old(buf)) + n4b.bytes(),
        n4b.bytes().len() == 4,
{
    put_slice(buf, &n4b.normals);
}

/// Appends a tangent: four bytes.
pub fn put_g4b(buf: &mut BytesMut, g4b: &G4b)
    requires
        contents(*old(buf)).len() + 4 <= isize::MAX,
    ensures
        contents(*final(buf)) == contents(*old(buf)) + g4b.bytes(),
        g4b.bytes().len() == 4,
{
    put_slice(buf, &g4b.tangent);
}

/// Appends a binormal: four bytes.
pub fn put_b4b(buf: &mut BytesMut, b4b: &B4b)
    requires
        contents(*old(buf)).len() + 4 <= isize::MAX,
    ensures
        contents(*final(buf)) == contents(*old(buf)) + b4b.bytes(),
        b4b.bytes().len() == 4,
{
    put_slice(buf, &b4b.binormal);
}

/// Appends a texture coordinate: four bytes.
pub fn put_t2h(buf: &mut BytesMut, t2h: &T2h)
    requires
        contents(*old(buf)).len() + 4 <= isize::MAX,
    ensures
        contents(*final(buf)) == contents(*old(buf)) + t2h.bytes(),
        t2h.bytes().len() == 4,
{
    put_u16_le(buf, t2h.tex[0]);
    put_u16_le(buf, t2h.tex[1]);
}

/// Appends blend indices: four bytes.
pub fn put_i4b(buf: &mut BytesMut, i4b: &I4b)
    requires
        contents(*old(buf)).len() + 4 <= isize::MAX,
    ensures
        contents(*final(buf)) == contents(*old(buf)) + i4b.bytes(),
        i4b.bytes().len() == 4,
{
    put_slice(buf, &i4b.blend_idx);
}

/// Appends blend weights: four bytes.
pub fn put_w4b(buf: &mut BytesMut, w4b: &W4b)
    requires
        contents(*old(buf)).len() + 4 <= isize::MAX,
    ensures
        contents(*final(buf)) == contents(*old(buf)) + w4b.bytes(),
        w4b.bytes().len() == 4,
{
    put_slice(buf, &w4b.blend_weight);
}

/// Appends a vertex colour: four bytes.
pub fn put_c4c(buf: &mut BytesMut, c4c: &C4c)
    requires
        contents(*old(buf)).len() + 4 <= isize::MAX,
    ensures
        contents(*final(buf)) == contents(*old(buf)) + c4c.bytes(),
        c4c.bytes().len() == 4,
{
    put_slice(buf, &c4c.unknown);
}

/// One vertex of a layout: what its wire form is, and how it is appended.
pub trait VertexRecord: Sized {
    /// Bytes per vertex: the sum of the sizes of the layout's attributes.
    spec fn stride() -> nat;

    /// The wire form of this vertex: its attributes in the order the layout names them.
    spec fn record_bytes(&self) -> Seq<u8>;

    /// Every vertex of a layout takes exactly the layout's stride.
    proof fn lemma_stride(&self)
        ensures
            self.record_bytes().len() == Self::stride(),
    ;

    /// Appends this vertex.
    fn put(&self, buf: &mut BytesMut)
        requires
            contents(*old(buf)).len() + Self::stride() <= isize::MAX,
        ensures
            contents(*final(buf)) == contents(*old(buf)) + self.record_bytes(),
    ;
}

impl VertexRecord for P4h {
    open spec fn stride() -> nat {
        8
    }

    open spec fn record_bytes(&self) -> Seq<u8> {
        self.bytes()
    }

    proof fn lemma_stride(&self) {
    }

    fn put(&self, buf: &mut BytesMut) {
        put_p4h(buf, self);
    }
}

/// Position, normal, texture coordinate: 16 bytes.
#[allow(non_camel_case_types)]
#[derive(Clone, Copy, Debug, PartialEq, Eq)]
pub struct P4h_N4b_T2h {
    pub p4h: P4h,
    pub n4b: N4b,
    pub t2h: T2h,
}

impl VertexRecord for P4h_N4b_T2h {
    open spec fn stride() -> nat {
        8 + 4 + 4
    }

    open spec fn record_bytes(&self) -> Seq<u8> {
        self.p4h.bytes() + self.n4b.bytes() + self.t2h.bytes()
    }

    proof fn lemma_stride(&self) {
    }

    fn put(&self, buf: &mut BytesMut) {
        put_p4h(buf, &self.p4h);
        put_n4b(buf, &self.n4b);
        put_t2h(buf, &self.t2h);
    }
}

/// Position, normal, texture coordinate, blend indices: 20 bytes.
#[allow(non_camel_case_types)]
#[derive(Clone, Copy, Debug, PartialEq, Eq)]
pub struct P4h_N4b_T2h_I4b {
    pub p4h: P4h,
    pub n4b: N4b,
    pub t2h: T2h,
    pub i4b: I4b,
}

impl VertexRecord for P4h_N4b_T2h_I4b {
    open spec fn stride() -> nat {
        8 + 4 + 4 + 4
    }

    open spec fn record_bytes(&self) -> Seq<u8> {
        self.p4h.bytes() + self.n4b.bytes() + self.t2h.bytes() + self.i4b.bytes()
    }

    proof fn lemma_stride(&self) {
    }

    fn put(&self, buf: &mut BytesMut) {
        put_p4h(buf, &self.p4h);
        put_n4b(buf, &self.n4b);
        put_t2h(buf, &self.t2h);
        put_i4b(buf, &self.i4b);
    }
}

/// Position, normal, tangent, binormal, texture coordinate: 24 bytes.
#[allow(non_camel_case_types)]
#[derive(Clone, Copy, Debug, PartialEq, Eq)]
pub struct P4h_N4b_G4b_B4b_T2h {
    pub p4h: P4h,
    pub n4b: N4b,
    pub g4b: G4b,
    pub b4b: B4b,
    pub t2h: T2h,
}

impl VertexRecord for P4h_N4b_G4b_B4b_T2h {
    open spec fn stride() -> nat {
        8 + 4 + 4 + 4 + 4
    }

    open spec fn record_bytes(&self) -> Seq<u8> {
        self.p4h.bytes() + self.n4b.bytes() + self.g4b.bytes() + self.b4b.bytes() + self.t2h.bytes()
    }

    proof fn lemma_stride(&self) {
    }

    fn put(&self, buf: &mut BytesMut) {
        put_p4h(buf, &self.p4h);
        put_n4b(buf, &self.n4b);
        put_g4b(buf, &self.g4b);
        put_b4b(buf, &self.b4b);
        put_t2h(buf, &self.t2h);
    }
}

/// Position, normal, texture coordinate, blend indices, blend weights: 24 bytes.
#[allow(non_camel_case_types)]
#[derive(Clone, Copy, Debug, PartialEq, Eq)]
pub struct P4h_N4b_T2h_I4b_W4b {
    pub p4h: P4h,
    pub n4b: N4b,
    pub t2h: T2h,
    pub i4b: I4b,
    pub w4b: W4b,
}

impl VertexRecord for P4h_N4b_T2h_I4b_W4b {
    open spec fn stride() -> nat {
        8 + 4 + 4 + 4 + 4
    }

    open spec fn record_bytes(&self) -> Seq<u8> {
        self.p4h.bytes() + self.n4b.bytes() + self.t2h.bytes() + self.i4b.bytes() + self.w4b.bytes()
    }

    proof fn lemma_stride(&self) {
    }

    fn put(&self, buf: &mut BytesMut) {
        put_p4h(buf, &self.p4h);
        put_n4b(buf, &self.n4b);
        put_t2h(buf, &self.t2h);
        put_i4b(buf, &self.i4b);
        put_w4b(buf, &self.w4b);
    }
}

/// Position, normal, tangent, binormal, texture coordinate, blend indices: 28 bytes.
#[allow(non_camel_case_types)]
#[derive(Clone, Copy, Debug, PartialEq, Eq)]
pub struct P4h_N4b_G4b_B4b_T2h_I4b {
    pub p4h: P4h,
    pub n4b: N4b,
    pub g4b: G4b,
    pub b4b: B4b,
    pub t2h: T2h,
    pub i4b: I4b,
}

impl VertexRecord for P4h_N4b_G4b_B4b_T2h_I4b {
    open spec fn stride() -> nat {
        8 + 4 + 4 + 4 + 4 + 4
    }

    open spec fn record_bytes(&self) -> Seq<u8> {
        self.p4h.bytes() + self.n4b.bytes() + self.g4b.bytes() + self.b4b.bytes() + self.t2h.bytes() + self.i4b.bytes()
    }

    proof fn lemma_stride(&self) {
    }

    fn put(&self, buf: &mut BytesMut) {
        put_p4h(buf, &self.p4h);
        put_n4b(buf, &self.n4b);
        put_g4b(buf, &self.g4b);
        put_b4b(buf, &self.b4b);
        put_t2h(buf, &self.t2h);
        put_i4b(buf, &self.i4b);
    }
}

/// Position, normal, texture coordinate, vertex colour: 20 bytes.
#[allow(non_camel_case_types)]
#[derive(Clone, Copy, Debug, PartialEq, Eq)]
pub struct P4h_N4b_T2h_C4c {
    pub p4h: P4h,
    pub n4b: N4b,
    pub t2h: T2h,
    pub c4c: C4c,
}

impl VertexRecord for P4h_N4b_T2h_C4c {
    open spec fn stride() -> nat {
        8 + 4 + 4 + 4
    }

    open spec fn record_bytes(&self) -> Seq<u8> {
        self.p4h.bytes() + self.n4b.bytes() + self.t2h.bytes() + self.c4c.bytes()
    }

    proof fn lemma_stride(&self) {
    }

    fn put(&self, buf: &mut BytesMut) {
        put_p4h(buf, &self.p4h);
        put_n4b(buf, &self.n4b);
        put_t2h(buf, &self.t2h);
        put_c4c(buf, &self.c4c);
    }
}

/// Position, normal, tangent, binormal, texture coordinate, vertex colour: 28 bytes.
#[allow(non_camel_case_types)]
#[derive(Clone, Copy, Debug, PartialEq, Eq)]
pub struct P4h_N4b_G4b_B4b_T2h_C4c {
    pub p4h: P4h,
    pub n4b: N4b,
    pub g4b: G4b,
    pub b4b: B4b,
    pub t2h: T2h,
    pub c4c: C4c,
}

impl VertexRecord for P4h_N4b_G4b_B4b_T2h_C4c {
    open spec fn stride() -> nat {
        8 + 4 + 4 + 4 + 4 + 4
    }

    open spec fn record_bytes(&self) -> Seq<u8> {
        self.p4h.bytes() + self.n4b.bytes() + self.g4b.bytes() + self.b4b.bytes() + self.t2h.bytes() + self.c4c.bytes()
    }

    proof fn lemma_stride(&self) {
    }

    fn put(&self, buf: &mut BytesMut) {
        put_p4h(buf, &self.p4h);
        put_n4b(buf, &self.n4b);
        put_g4b(buf, &self.g4b);
        put_b4b(buf, &self.b4b);
        put_t2h(buf, &self.t2h);
        put_c4c(buf, &self.c4c);
    }
}

/// The wire form of a run of vertices: one record after the other.
pub open spec fn records_bytes<V: VertexRecord>(s: Seq<V>) -> Seq<u8>
    decreases s.len(),
{
    if s.len() == 0 {
        Seq::empty()
    } else {
        records_bytes(s.drop_last()) + s.last().record_bytes()
    }
}

/// A run of vertices takes the layout's stride for each of them.
pub proof fn lemma_records_len<V: VertexRecord>(s: Seq<V>)
    ensures
        records_bytes(s).len() == s.len() * V::stride(),
    decreases s.len(),
{
    if s.len() > 0 {
        lemma_records_len(s.drop_last());
        s.last().lemma_stride();
        assert((s.len() - 1) * V::stride() + V::stride() == s.len() * V::stride())
            by (nonlinear_arith);
    }
}

/// Appends every vertex of `records`, in order.
pub fn put_records<V: VertexRecord>(buf: &mut BytesMut, records: &Vec<V>)
    requires
        contents(*old(buf)).len() + records@.len() * V::stride() <= isize::MAX,
    ensures
        contents(*final(buf)) == contents(*old(buf)) + records_bytes(records@),
{
    let n = records.len();
    let mut i: usize = 0;
    proof {
        assert(records@.take(0) =~= Seq::<V>::empty());
        assert(contents(*buf) =~= contents(*old(buf)) + records_bytes(records@.take(0)));
    }
    while i < n
        invariant
            n == records@.len(),
            i <= n,
            contents(*old(buf)).len() + n * V::stride() <= isize::MAX,
            contents(*buf) == contents(*old(buf)) + records_bytes(records@.take(i as int)),
        decreases n - i,
    {
        proof {
            lemma_records_len(records@.take(i as int));
            assert(i * V::stride() + V::stride() <= n * V::stride()) by (nonlinear_arith)
                requires
                    i < n,
            ;
            assert(records@.take(i + 1).drop_last() =~= records@.take(i as int));
        }
        records[i].put(buf);
        i = i + 1;
    }
    proof {
        assert(records@.take(n as int) =~= records@);
    }
}

/// The vertices of a model, in one of the eight layouts.
#[allow(non_camel_case_types)]
#[derive(Clone, Debug)]
pub enum VertexFormat {
    P4h(Vec<P4h>),
    P4h_N4b_T2h(Vec<P4h_N4b_T2h>),
    P4h_N4b_T2h_I4b(Vec<P4h_N4b_T2h_I4b>),
    P4h_N4b_G4b_B4b_T2h(Vec<P4h_N4b_G4b_B4b_T2h>),
    P4h_N4b_T2h_I4b_W4b(Vec<P4h_N4b_T2h_I4b_W4b>),
    P4h_N4b_G4b_B4b_T2h_I4b(Vec<P4h_N4b_G4b_B4b_T2h_I4b>),
    P4h_N4b_T2h_C4c(Vec<P4h_N4b_T2h_C4c>),
    P4h_N4b_G4b_B4b_T2h_C4c(Vec<P4h_N4b_G4b_B4b_T2h_C4c>),
}

impl VertexFormat {
    /// Number of vertices.
    pub open spec fn spec_len(&self) -> nat {
        match self {
            VertexFormat::P4h(v) => v@.len(),
            VertexFormat::P4h_N4b_T2h(v) => v@.len(),
            VertexFormat::P4h_N4b_T2h_I4b(v) => v@.len(),
            VertexFormat::P4h_N4b_G4b_B4b_T2h(v) => v@.len(),
            VertexFormat::P4h_N4b_T2h_I4b_W4b(v) => v@.len(),
            VertexFormat::P4h_N4b_G4b_B4b_T2h_I4b(v) => v@.len(),
            VertexFormat::P4h_N4b_T2h_C4c(v) => v@.len(),
            VertexFormat::P4h_N4b_G4b_B4b_T2h_C4c(v) => v@.len(),
        }
    }

    /// Bytes per vertex of the active layout.
    pub open spec fn spec_stride(&self) -> nat {
        match self {
            VertexFormat::P4h(_) => P4h::stride(),
            VertexFormat::P4h_N4b_T2h(_) => P4h_N4b_T2h::stride(),
            VertexFormat::P4h_N4b_T2h_I4b(_) => P4h_N4b_T2h_I4b::stride(),
            VertexFormat::P4h_N4b_G4b_B4b_T2h(_) => P4h_N4b_G4b_B4b_T2h::stride(),
            VertexFormat::P4h_N4b_T2h_I4b_W4b(_) => P4h_N4b_T2h_I4b_W4b::stride(),
            VertexFormat::P4h_N4b_G4b_B4b_T2h_I4b(_) => P4h_N4b_G4b_B4b_T2h_I4b::stride(),
            VertexFormat::P4h_N4b_T2h_C4c(_) => P4h_N4b_T2h_C4c::stride(),
            VertexFormat::P4h_N4b_G4b_B4b_T2h_C4c(_) => P4h_N4b_G4b_B4b_T2h_C4c::stride(),
        }
    }

    /// The wire form of all vertices, in order.
    pub open spec fn bytes(&self) -> Seq<u8> {
        match self {
            VertexFormat::P4h(v) => records_bytes(v@),
            VertexFormat::P4h_N4b_T2h(v) => records_bytes(v@),
            VertexFormat::P4h_N4b_T2h_I4b(v) => records_bytes(v@),
            VertexFormat::P4h_N4b_G4b_B4b_T2h(v) => records_bytes(v@),
            VertexFormat::P4h_N4b_T2h_I4b_W4b(v) => records_bytes(v@),
            VertexFormat::P4h_N4b_G4b_B4b_T2h_I4b(v) => records_bytes(v@),
            VertexFormat::P4h_N4b_T2h_C4c(v) => records_bytes(v@),
            VertexFormat::P4h_N4b_G4b_B4b_T2h_C4c(v) => records_bytes(v@),
        }
    }

    /// The vertices take the stride of the active layout for each of them.
    pub proof fn lemma_bytes_len(&self)
        ensures
            self.bytes().len() == self.spec_len() * self.spec_stride(),
    {
        match self {
            VertexFormat::P4h(v) => lemma_records_len(v@),
            VertexFormat::P4h_N4b_T2h(v) => lemma_records_len(v@),
            VertexFormat::P4h_N4b_T2h_I4b(v) => lemma_records_len(v@),
            VertexFormat::P4h_N4b_G4b_B4b_T2h(v) => lemma_records_len(v@),
            VertexFormat::P4h_N4b_T2h_I4b_W4b(v) => lemma_records_len(v@),
            VertexFormat::P4h_N4b_G4b_B4b_T2h_I4b(v) => lemma_records_len(v@),
            VertexFormat::P4h_N4b_T2h_C4c(v) => lemma_records_len(v@),
            VertexFormat::P4h_N4b_G4b_B4b_T2h_C4c(v) => lemma_records_len(v@),
        }
    }

    /// Number of vertices.
    pub fn len(&self) -> (n: usize)
        ensures
            n == self.spec_len(),
    {
        match self {
            VertexFormat::P4h(v) => v.len(),
            VertexFormat::P4h_N4b_T2h(v) => v.len(),
            VertexFormat::P4h_N4b_T2h_I4b(v) => v.len(),
            VertexFormat::P4h_N4b_G4b_B4b_T2h(v) => v.len(),
            VertexFormat::P4h_N4b_T2h_I4b_W4b(v) => v.len(),
            VertexFormat::P4h_N4b_G4b_B4b_T2h_I4b(v) => v.len(),
            VertexFormat::P4h_N4b_T2h_C4c(v) => v.len(),
            VertexFormat::P4h_N4b_G4b_B4b_T2h_C4c(v) => v.len(),
        }
    }

    /// Bytes per vertex of the active layout.
    pub fn stride(&self) -> (n: u32)
        ensures
            n == self.spec_stride(),
            n <= 28,
    {
        match self {
            VertexFormat::P4h(_) => 8,
            VertexFormat::P4h_N4b_T2h(_) => 16,
            VertexFormat::P4h_N4b_T2h_I4b(_) => 20,
            VertexFormat::P4h_N4b_G4b_B4b_T2h(_) => 24,
            VertexFormat::P4h_N4b_T2h_I4b_W4b(_) => 24,
            VertexFormat::P4h_N4b_G4b_B4b_T2h_I4b(_) => 28,
            VertexFormat::P4h_N4b_T2h_C4c(_) => 20,
            VertexFormat::P4h_N4b_G4b_B4b_T2h_C4c(_) => 28,
        }
    }
}

} // verus!
