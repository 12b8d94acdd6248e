//! The image of a model: the bytes that an encode yields, stated section by section.
//!
//! Every pointer field holds an offset into the image itself. Here each pointer is
//! given by the layout; the writer arrives at the same bytes in one pass, by leaving
//! a slot and filling it in once the section it refers to has been placed.

use crate::buffer::{
    le_u16, le_u32, lemma_concat_assoc, lemma_patched_front, lemma_patched_middle, patched, ptr32, zeros,
};
use crate::model::{RDJoint, RDModell, Triangle, NO_PARENT};
use vstd::prelude::*;
use vstd::utf8::{encode_utf8, is_ascii_chars, is_ascii_chars_encode_utf8};

verus! {

/// The fixed opening of the file: magic, version and reserved fields, with the
/// pointer slots at their initial values.
pub const PROLOGUE: [u8; 156] = [
    0x52, 0x44, 0x4D, 0x01, 0x14, 0x00, 0x00, 0x00, 0x00, 0x00, 0x00, 0x00, 0x04, 0x00,
    0x00, 0x00, 0x1C, 0x00, 0x00, 0x00, 0x01, 0x00, 0x00, 0x00, 0x30, 0x00, 0x00, 0x00,
    0x54, 0x00, 0x00, 0x00, 0x4B, 0x01, 0x00, 0x00, 0x7F, 0x57, 0x01, 0x00, 0x00, 0x00,
    0x00, 0x00, 0x00, 0x00, 0x00, 0x00, 0x00, 0x00, 0x00, 0x00, 0x00, 0x00, 0x00, 0x00,
    0x00, 0x00, 0x00, 0x00, 0x00, 0x00, 0x00, 0x00, 0x00, 0x00, 0x00, 0x00, 0x00, 0x00,
    0x00, 0x00, 0x00, 0x00, 0x00, 0x00, 0x01, 0x00, 0x00, 0x00, 0x48, 0x00, 0x00, 0x00,
    0xA4, 0x00, 0x00, 0x00, 0x25, 0x01, 0x00, 0x00, 0x00, 0x00, 0x00, 0x00, 0x00, 0x00,
    0x00, 0x00, 0x00, 0x00, 0x00, 0x00, 0x00, 0x00, 0x00, 0x00, 0x00, 0x00, 0x00, 0x00,
    0x00, 0x00, 0x00, 0x00, 0x00, 0x00, 0x00, 0x00, 0x00, 0x00, 0x00, 0x00, 0x00, 0x00,
    0x00, 0x00, 0x00, 0x00, 0x00, 0x00, 0x00, 0x00, 0x00, 0x00, 0x00, 0x00, 0x00, 0x00,
    0x00, 0x00, 0x00, 0x00, 0x00, 0x00, 0x00, 0x00, 0x00, 0x00, 0x00, 0x00, 0x00, 0x00,
    0x00, 0x00,
];

/// Slot of the prologue that points to the meta table.
pub const META_SLOT: usize = 32;

/// Slot of the prologue that points to the material block.
pub const BLOB_SLOT: usize = 36;

/// Slot of the prologue that points to the skin block.
pub const SKIN_SLOT: usize = 40;

/// Slot of the prologue that points to the authoring path.
pub const PATH_SLOT: usize = 84;

/// Slot of the prologue that points to the runtime file name.
pub const FILE_SLOT: usize = 88;

/// Path of the scene that the model was authored in.
pub const EXPORT_NAME: &'static str =
    r"\\rds.local\data\Art\graphic_backup\christian\#ANNO5\buildings\others\basalt_crusher_others\Lowpoly\basalt_crusher_others_low_05.max";

/// File that the runtime refers to.
pub const RMP_NAME: &'static str = "Anno5_Building_Skin_1Blend.rmp";

/// Name of the model.
pub const MODEL_NAME: &'static str = "basalt_crusher_others_lod0";

/// Name of the material that the material block refers to.
pub const MATERIAL_NAME: &'static str = "Default Standard12432142134";

/// Path of the texture that the material block refers to.
pub const TEXTURE_PATH: &'static str =
    "d:/projekte/anno5/game/testdata/graphics/dummy_objects/dummy_christian/rdm/basalt_crusher_others/diffuse.png";

/// Length of the material block.
pub const BLOB_LEN: usize = 243;

/// The pointer slots of the meta table as they stand before any section has
/// filled them in; the last stays as it is.
pub const META_TABLE: [u8; 24] = [
    0xF5, 0x01, 0x00, 0x00, 0x7D, 0x02, 0x00, 0x00, 0xBD, 0x02, 0x00, 0x00, 0xC9, 0x20,
    0x01, 0x00, 0x99, 0x02, 0x00, 0x00, 0x00, 0x00, 0x00, 0x00,
];

/// The bounding record of the meta table.
pub const META_BOX: [u8; 24] = [
    0x00, 0x80, 0xF8, 0xBF, 0x00, 0x40, 0x22, 0xC0, 0x00, 0x60, 0xF7, 0xBF, 0x00, 0x80,
    0xFB, 0x3F, 0x00, 0xC0, 0xF2, 0x3F, 0x00, 0x80, 0xFC, 0x3F,
];

/// Offset of the meta table's payload in every image.
pub const META_BASE: u32 = 342;

/// Attribute descriptor of a position: id 0, 16-bit units, four of them.
pub const P4H_IDENTIFIER: [u8; 16] = [
    0x00, 0x00, 0x00, 0x00, 0x06, 0x00, 0x00, 0x00, 0x00, 0x00, 0x00, 0x00, 0x04, 0x00,
    0x00, 0x00,
];

/// Attribute descriptor of a normal: id 1, byte units.
pub const N4B_IDENTIFIER: [u8; 16] = [
    0x01, 0x00, 0x00, 0x00, 0x05, 0x00, 0x00, 0x00, 0x06, 0x00, 0x00, 0x00, 0x01, 0x00,
    0x00, 0x00,
];

/// Attribute descriptor of a tangent: id 2, byte units.
pub const G4B_IDENTIFIER: [u8; 16] = [
    0x02, 0x00, 0x00, 0x00, 0x05, 0x00, 0x00, 0x00, 0x06, 0x00, 0x00, 0x00, 0x01, 0x00,
    0x00, 0x00,
];

/// Attribute descriptor of a binormal: id 3, byte units.
pub const B4B_IDENTIFIER: [u8; 16] = [
    0x03, 0x00, 0x00, 0x00, 0x05, 0x00, 0x00, 0x00, 0x06, 0x00, 0x00, 0x00, 0x01, 0x00,
    0x00, 0x00,
];

/// Attribute descriptor of a texture coordinate: id 4, 16-bit units, two of them.
pub const T2H_IDENTIFIER: [u8; 16] = [
    0x04, 0x00, 0x00, 0x00, 0x06, 0x00, 0x00, 0x00, 0x00, 0x00, 0x00, 0x00, 0x02, 0x00,
    0x00, 0x00,
];

/// Attribute descriptor of a vertex colour: id 5, byte units.
pub const C4C_IDENTIFIER: [u8; 16] = [
    0x05, 0x00, 0x00, 0x00, 0x05, 0x00, 0x00, 0x00, 0x04, 0x00, 0x00, 0x00, 0x01, 0x00,
    0x00, 0x00,
];

/// Attribute descriptor of blend indices: id 7, byte units.
pub const I4B_IDENTIFIER: [u8; 16] = [
    0x07, 0x00, 0x00, 0x00, 0x05, 0x00, 0x00, 0x00, 0x00, 0x00, 0x00, 0x00, 0x01, 0x00,
    0x00, 0x00,
];

/// Attribute descriptor of blend weights: id 6, byte units.
pub const W4B_IDENTIFIER: [u8; 16] = [
    0x06, 0x00, 0x00, 0x00, 0x05, 0x00, 0x00, 0x00, 0x02, 0x00, 0x00, 0x00, 0x01, 0x00,
    0x00, 0x00,
];

/// The layout class named by the block that follows the attribute descriptors.
pub const LAYOUT_CLASS: u32 = 3;

/// The two words that open a block: a count, then a stride or a flag.
pub open spec fn block_header(count: u32, stride: u32) -> Seq<u8> {
    le_u32(count) + le_u32(stride)
}

/// The bytes of a text.
pub open spec fn text(s: &str) -> Seq<u8> {
    encode_utf8(s@)
}

/// A string as the format stores it: its length, the flag 1, its bytes.
pub open spec fn string_block(s: Seq<u8>) -> Seq<u8> {
    block_header(ptr32(s.len() as int), 1) + s
}

/// The ten pointer fields of the header and meta region.
pub struct HeaderPtrs {
    /// To the authoring path; at [`PATH_SLOT`].
    pub path: u32,
    /// To the runtime file name; at [`FILE_SLOT`].
    pub file: u32,
    /// To the meta table; at [`META_SLOT`].
    pub meta: u32,
    /// To the material block; at [`BLOB_SLOT`].
    pub blob: u32,
    /// To the skin block; at [`SKIN_SLOT`].
    pub skin: u32,
    /// To the block in front of the attribute descriptors; 4 past the meta base.
    pub format: u32,
    /// To the layout class; 8 past the meta base.
    pub class: u32,
    /// To the vertex data; 12 past the meta base.
    pub vertex: u32,
    /// To the index data; 16 past the meta base.
    pub index: u32,
    /// To the index count; 20 past the meta base.
    pub count: u32,
}

/// The values that [`PROLOGUE`] and [`META_TABLE`] hold in the pointer slots.
pub open spec fn initial_ptrs() -> HeaderPtrs {
    HeaderPtrs {
        path: 164,
        file: 293,
        meta: 331,
        blob: 87935,
        skin: 0,
        format: 501,
        class: 637,
        vertex: 701,
        index: 73929,
        count: 665,
    }
}

/// The pointers of a header whose own blocks are placed. Those to the four later
/// sections are given; until a section is placed, its slot holds the initial value.
pub open spec fn header_ptrs(skinned: bool, vertex: u32, index: u32, blob: u32, skin: u32)
    -> HeaderPtrs {
    HeaderPtrs {
        path: 164,
        file: 304,
        meta: META_BASE,
        blob,
        skin,
        format: 512,
        class: if skinned { 648 } else { 632 },
        vertex,
        index,
        count: if skinned { 676 } else { 660 },
    }
}

/// The pointers of a header behind which no later section has been placed yet.
pub open spec fn unset_ptrs(skinned: bool) -> HeaderPtrs {
    header_ptrs(
        skinned,
        initial_ptrs().vertex,
        initial_ptrs().index,
        initial_ptrs().blob,
        initial_ptrs().skin,
    )
}

/// `ptrs` with the pointer whose slot is at `at` set to `v`.
pub open spec fn with_slot(ptrs: HeaderPtrs, at: int, v: u32) -> HeaderPtrs {
    if at == PATH_SLOT {
        HeaderPtrs { path: v, ..ptrs }
    } else if at == FILE_SLOT {
        HeaderPtrs { file: v, ..ptrs }
    } else if at == META_SLOT {
        HeaderPtrs { meta: v, ..ptrs }
    } else if at == BLOB_SLOT {
        HeaderPtrs { blob: v, ..ptrs }
    } else if at == SKIN_SLOT {
        HeaderPtrs { skin: v, ..ptrs }
    } else if at == META_BASE + 4 {
        HeaderPtrs { format: v, ..ptrs }
    } else if at == META_BASE + 8 {
        HeaderPtrs { class: v, ..ptrs }
    } else if at == META_BASE + 12 {
        HeaderPtrs { vertex: v, ..ptrs }
    } else if at == META_BASE + 16 {
        HeaderPtrs { index: v, ..ptrs }
    } else if at == META_BASE + 20 {
        HeaderPtrs { count: v, ..ptrs }
    } else {
        ptrs
    }
}

/// Whether a pointer slot of the prologue starts at `at`.
pub open spec fn is_prologue_slot(at: int) -> bool {
    at == PATH_SLOT || at == FILE_SLOT || at == META_SLOT || at == BLOB_SLOT || at == SKIN_SLOT
}

/// Whether a pointer slot of the meta table starts at `at`.
pub open spec fn is_meta_slot(at: int) -> bool {
    at == META_BASE + 4 || at == META_BASE + 8 || at == META_BASE + 12 || at == META_BASE + 16
        || at == META_BASE + 20
}

/// The prologue with its pointer slots holding `ptrs`.
#[verifier::opaque]
pub open spec fn prologue_image(ptrs: HeaderPtrs) -> Seq<u8> {
    PROLOGUE@.subrange(0, 32) + le_u32(ptrs.meta) + le_u32(ptrs.blob) + le_u32(ptrs.skin)
        + PROLOGUE@.subrange(44, 84) + le_u32(ptrs.path) + le_u32(ptrs.file)
        + PROLOGUE@.subrange(92, 156)
}

/// The two texts of the header, and the two words that open the meta table.
#[verifier::opaque]
pub open spec fn texts_image() -> Seq<u8> {
    string_block(text(EXPORT_NAME)) + string_block(text(RMP_NAME)) + block_header(1, 92)
}

/// The payload of the meta table: a pointer to the payload of the block behind it,
/// five pointer slots and a zero word, the bounding record, and padding.
#[verifier::opaque]
pub open spec fn meta_table_image(ptrs: HeaderPtrs) -> Seq<u8> {
    le_u32(442) + le_u32(ptrs.format) + le_u32(ptrs.class) + le_u32(ptrs.vertex) + le_u32(
        ptrs.index,
    ) + le_u32(ptrs.count) + le_u32(0) + META_BOX@ + zeros(40)
}

/// The attribute descriptors of the header: five, and behind them that of the blend
/// indices where the model is skinned.
pub open spec fn descriptors(skinned: bool) -> Seq<u8> {
    let common = P4H_IDENTIFIER@ + N4B_IDENTIFIER@ + G4B_IDENTIFIER@ + B4B_IDENTIFIER@
        + T2H_IDENTIFIER@;
    if skinned {
        block_header(6, 16) + common + I4B_IDENTIFIER@
    } else {
        block_header(5, 16) + common
    }
}

/// The blocks behind the meta table: the pointer to the model's name and the name,
/// the skin flag, the attribute descriptors, the layout class, the index count.
#[verifier::opaque]
pub open spec fn meta_blocks_image(skinned: bool, index_count: u32) -> Seq<u8> {
    (block_header(1, 28) + le_u32(478) + zeros(24))
        + string_block(text(MODEL_NAME))
        + (block_header(1, 24) + le_u32(544) + le_u32(if skinned { 1 } else { 0 }) + zeros(16))
        + descriptors(skinned)
        + (block_header(1, 20) + le_u32(LAYOUT_CLASS) + zeros(16))
        + (block_header(1, 28) + le_u32(0) + le_u32(index_count) + zeros(20))
}

/// Length of the header and meta region.
pub open spec fn header_len(skinned: bool) -> nat {
    if skinned {
        704
    } else {
        688
    }
}

/// The header and meta region of a model with `index_count` declared indices, with
/// its pointer slots holding `ptrs`.
pub open spec fn header_image(skinned: bool, index_count: u32, ptrs: HeaderPtrs) -> Seq<u8> {
    prologue_image(ptrs) + texts_image() + meta_table_image(ptrs) + meta_blocks_image(
        skinned,
        index_count,
    )
}

/// The texts of the header are plain ASCII of these lengths.
pub proof fn lemma_header_texts()
    ensures
        text(EXPORT_NAME).len() == 132,
        text(RMP_NAME).len() == 30,
        text(MODEL_NAME).len() == 26,
{
    reveal_strlit(
        r"\\rds.local\data\Art\graphic_backup\christian\#ANNO5\buildings\others\basalt_crusher_others\Lowpoly\basalt_crusher_others_low_05.max",
    );
    reveal_strlit("Anno5_Building_Skin_1Blend.rmp");
    reveal_strlit("basalt_crusher_others_lod0");
    assert(is_ascii_chars(EXPORT_NAME@));
    assert(is_ascii_chars(RMP_NAME@));
    assert(is_ascii_chars(MODEL_NAME@));
    is_ascii_chars_encode_utf8(EXPORT_NAME@);
    is_ascii_chars_encode_utf8(RMP_NAME@);
    is_ascii_chars_encode_utf8(MODEL_NAME@);
}

/// The parts of the header have these lengths.
pub proof fn lemma_header_parts(skinned: bool, index_count: u32, ptrs: HeaderPtrs)
    ensures
        prologue_image(ptrs).len() == 156,
        texts_image().len() == 186,
        meta_table_image(ptrs).len() == 92,
        meta_blocks_image(skinned, index_count).len() + 434 == header_len(skinned),
{
    reveal(prologue_image);
    reveal(texts_image);
    reveal(meta_table_image);
    reveal(meta_blocks_image);
    lemma_header_texts();
}

/// The header and meta region is 704 bytes long where the model is skinned, and 688
/// bytes where it is not.
pub proof fn lemma_header_len(skinned: bool, index_count: u32, ptrs: HeaderPtrs)
    ensures
        header_image(skinned, index_count, ptrs).len() == header_len(skinned),
{
    lemma_header_parts(skinned, index_count, ptrs);
}

/// The constants hold the initial pointers in their slots.
pub proof fn lemma_initial_ptrs()
    ensures
        PROLOGUE@ == prologue_image(initial_ptrs()),
        le_u32(442) + META_TABLE@ + META_BOX@ + zeros(40) == meta_table_image(initial_ptrs()),
{
    reveal(prologue_image);
    reveal(meta_table_image);
    assert(PROLOGUE@ =~= prologue_image(initial_ptrs()));
    assert(le_u32(442) + META_TABLE@ + META_BOX@ + zeros(40) =~= meta_table_image(
        initial_ptrs(),
    ));
}

/// Overwriting a pointer slot of the prologue sets that pointer and leaves the rest
/// of the prologue, and whatever follows it, as it was.
pub proof fn lemma_patch_prologue(ptrs: HeaderPtrs, rest: Seq<u8>, at: int, v: u32)
    requires
        is_prologue_slot(at),
    ensures
        patched(prologue_image(ptrs) + rest, at, v) == prologue_image(with_slot(ptrs, at, v))
            + rest,
{
    let a = prologue_image(ptrs);
    assert(patched(a, at, v) == prologue_image(with_slot(ptrs, at, v)) && a.len() == 156) by {
        reveal(prologue_image);
        assert(patched(a, at, v) =~= prologue_image(with_slot(ptrs, at, v)));
    }
    lemma_patched_front(a, rest, at, v);
}

/// Overwriting a pointer slot of the meta table sets that pointer and leaves the rest
/// of the table, and whatever stands before and behind it, as it was.
pub proof fn lemma_patch_meta_table(
    front: Seq<u8>,
    ptrs: HeaderPtrs,
    rest: Seq<u8>,
    at: int,
    v: u32,
)
    requires
        front.len() == META_BASE,
        is_meta_slot(at),
    ensures
        patched(front + meta_table_image(ptrs) + rest, at, v) == front + meta_table_image(
            with_slot(ptrs, at, v),
        ) + rest,
{
    let m = meta_table_image(ptrs);
    assert(patched(m, at - META_BASE, v) == meta_table_image(with_slot(ptrs, at, v)) && m.len()
        == 92) by {
        reveal(meta_table_image);
        assert(patched(m, at - META_BASE, v) =~= meta_table_image(with_slot(ptrs, at, v)));
    }
    lemma_patched_middle(front, m, rest, at - META_BASE, v);
}

/// Overwriting a pointer slot of the header sets that pointer and leaves the rest of
/// the header, and whatever follows it, as it was.
pub proof fn lemma_patch_header(
    skinned: bool,
    index_count: u32,
    ptrs: HeaderPtrs,
    rest: Seq<u8>,
    at: int,
    v: u32,
)
    requires
        is_prologue_slot(at) || is_meta_slot(at),
    ensures
        patched(header_image(skinned, index_count, ptrs) + rest, at, v) == header_image(
            skinned,
            index_count,
            with_slot(ptrs, at, v),
        ) + rest,
{
    lemma_header_parts(skinned, index_count, ptrs);
    let after = with_slot(ptrs, at, v);
    let a = prologue_image(ptrs);
    let b = texts_image();
    let c = meta_table_image(ptrs);
    let d = meta_blocks_image(skinned, index_count);
    if is_prologue_slot(at) {
        let a2 = prologue_image(after);
        assert(meta_table_image(after) == c) by {
            reveal(meta_table_image);
        }
        lemma_concat_assoc(a, b, c);
        lemma_concat_assoc(a, b + c, d);
        lemma_concat_assoc(a, b + c + d, rest);
        lemma_patch_prologue(ptrs, b + c + d + rest, at, v);
        lemma_concat_assoc(a2, b + c + d, rest);
        lemma_concat_assoc(a2, b + c, d);
        lemma_concat_assoc(a2, b, c);
    } else {
        let c2 = meta_table_image(after);
        assert(prologue_image(after) == a) by {
            reveal(prologue_image);
        }
        lemma_concat_assoc(a + b + c, d, rest);
        lemma_patch_meta_table(a + b, ptrs, d + rest, at, v);
        lemma_concat_assoc(a + b + c2, d, rest);
    }
}

/// Whether the vertices take as many bytes as the model declares: the declared count
/// times the declared stride.
pub open spec fn layout_matches(model: RDModell) -> bool {
    model.vertices.bytes().len() == model.vertices_count * model.vertex_buffer_size
}

/// The vertex section: the declared count and stride, then the vertices.
pub open spec fn vertex_image(model: RDModell) -> Seq<u8> {
    block_header(model.vertices_count, model.vertex_buffer_size) + model.vertices.bytes()
}

/// The wire form of triangles: three 16-bit indices each, in input order.
pub open spec fn triangles_image(triangles: Seq<Triangle>) -> Seq<u8>
    decreases triangles.len(),
{
    if triangles.len() == 0 {
        Seq::empty()
    } else {
        triangles_image(triangles.drop_last()) + (le_u16(triangles.last().indices[0]) + le_u16(
            triangles.last().indices[1],
        ) + le_u16(triangles.last().indices[2]))
    }
}

/// The index section: the declared index count and the stride 2, then the triangles.
pub open spec fn index_image(model: RDModell) -> Seq<u8> {
    block_header(model.triangles_idx_count, 2) + triangles_image(model.triangle_indices@)
}

/// The material block, placed at `at`: a block of 28 bytes that points to the next,
/// a block of 48 bytes that points to the two texts, and the two texts.
pub open spec fn blob_image(at: int) -> Seq<u8> {
    (block_header(1, 28) + le_u32(ptr32(at + 44)) + zeros(24))
        + (block_header(1, 48) + le_u32(ptr32(at + 100)) + le_u32(ptr32(at + 135)) + zeros(40))
        + string_block(text(MATERIAL_NAME))
        + string_block(text(TEXTURE_PATH))
}

/// The triangles take six bytes each.
pub proof fn lemma_triangles_image_len(triangles: Seq<Triangle>)
    ensures
        triangles_image(triangles).len() == 6 * triangles.len(),
    decreases triangles.len(),
{
    if triangles.len() > 0 {
        lemma_triangles_image_len(triangles.drop_last());
    }
}

/// The texts of the material block are plain ASCII of these lengths.
pub proof fn lemma_blob_texts()
    ensures
        text(MATERIAL_NAME).len() == 27,
        text(TEXTURE_PATH).len() == 108,
{
    reveal_strlit("Default Standard12432142134");
    reveal_strlit(
        "d:/projekte/anno5/game/testdata/graphics/dummy_objects/dummy_christian/rdm/basalt_crusher_others/diffuse.png",
    );
    assert(is_ascii_chars(MATERIAL_NAME@));
    assert(is_ascii_chars(TEXTURE_PATH@));
    is_ascii_chars_encode_utf8(MATERIAL_NAME@);
    is_ascii_chars_encode_utf8(TEXTURE_PATH@);
}

/// The material block is 243 bytes long wherever it is placed.
pub proof fn lemma_blob_len(at: int)
    ensures
        blob_image(at).len() == BLOB_LEN,
{
    lemma_blob_texts();
}

/// The value that stands in a joint record's name pointer until the name is placed.
pub const NAME_PLACEHOLDER: u32 = 0xAAAA_AAAA;

/// Length of a joint record.
pub const JOINT_RECORD_LEN: u32 = 84;

/// The parent field of a joint record: all ones for a joint without parent, else the
/// parent's index followed by three zero bytes.
pub open spec fn parent_field(parent: u8) -> Seq<u8> {
    if parent == NO_PARENT {
        seq![0xFFu8, 0xFFu8, 0xFFu8, 0xFFu8]
    } else {
        seq![parent, 0u8, 0u8, 0u8]
    }
}

/// The inverse bind pose of a joint as its record holds it: the translation, then
/// the rotation. Where the joint has no inverse translation, zeros stand for it.
pub open spec fn pose_image(joint: RDJoint) -> Seq<u8> {
    let translation = match joint.inverse_translation {
        Some(t) => le_u32(t[0]) + le_u32(t[1]) + le_u32(t[2]),
        None => zeros(12),
    };
    translation + le_u32(joint.rotation[0]) + le_u32(joint.rotation[1]) + le_u32(
        joint.rotation[2],
    ) + le_u32(joint.rotation[3])
}

/// The record of a joint whose name is pointed to by `name_ptr`: the pointer, the
/// pose, the parent field, and 48 bytes of padding.
#[verifier::opaque]
pub open spec fn joint_record(joint: RDJoint, name_ptr: u32) -> Seq<u8> {
    le_u32(name_ptr) + pose_image(joint) + parent_field(joint.parent) + zeros(48)
}

/// The records of `joints`, in order, with `name_ptrs` as their name pointers.
pub open spec fn records_image(joints: Seq<RDJoint>, name_ptrs: Seq<u32>) -> Seq<u8>
    decreases joints.len(),
{
    if joints.len() == 0 {
        Seq::empty()
    } else {
        records_image(joints.drop_last(), name_ptrs) + joint_record(
            joints.last(),
            name_ptrs[joints.len() - 1],
        )
    }
}

/// The bytes of a joint's name.
pub open spec fn name_bytes(joint: RDJoint) -> Seq<u8> {
    encode_utf8(joint.name@)
}

/// The name table: the names of `joints` as string blocks, in the order of the
/// joints.
pub open spec fn names_image(joints: Seq<RDJoint>) -> Seq<u8>
    decreases joints.len(),
{
    if joints.len() == 0 {
        Seq::empty()
    } else {
        names_image(joints.drop_last()) + string_block(name_bytes(joints.last()))
    }
}

/// Offset, from the start of the name table, of the first byte of the name of
/// joint `i`.
pub open spec fn name_offset(joints: Seq<RDJoint>, i: int) -> int {
    names_image(joints.take(i)).len() as int + 8
}

/// The name pointers of the records of `joints` where the name table starts at
/// `names_at`.
pub open spec fn name_ptrs(joints: Seq<RDJoint>, names_at: int) -> Seq<u32> {
    Seq::new(joints.len(), |i: int| ptr32(names_at + name_offset(joints, i)))
}

/// Length of the skin section of `joints`.
pub open spec fn skin_len(joints: Seq<RDJoint>) -> nat {
    48 + 84 * joints.len() + names_image(joints).len()
}

/// The skin block of a section placed at `at`, with its pointer to the first joint
/// record, and the two words that open the records of `joint_count` joints.
#[verifier::opaque]
pub open spec fn skin_head_image(joint_count: nat, at: int) -> Seq<u8> {
    block_header(1, 32) + le_u32(ptr32(at + 48)) + zeros(28) + block_header(
        ptr32(joint_count as int),
        JOINT_RECORD_LEN,
    )
}

/// The skin section of `joints`, placed at `at`: the skin block, the records, and
/// the name table.
pub open spec fn skin_image(joints: Seq<RDJoint>, at: int) -> Seq<u8> {
    skin_head_image(joints.len(), at) + records_image(
        joints,
        name_ptrs(joints, at + 48 + 84 * joints.len()),
    ) + names_image(joints)
}

/// A joint record is 84 bytes long.
pub proof fn lemma_joint_record_len(joint: RDJoint, name_ptr: u32)
    ensures
        joint_record(joint, name_ptr).len() == JOINT_RECORD_LEN,
{
    reveal(joint_record);
}

/// The records of `n` joints take 84 bytes each.
pub proof fn lemma_records_image_len(joints: Seq<RDJoint>, name_ptrs: Seq<u32>)
    ensures
        records_image(joints, name_ptrs).len() == 84 * joints.len(),
    decreases joints.len(),
{
    if joints.len() > 0 {
        lemma_records_image_len(joints.drop_last(), name_ptrs);
        lemma_joint_record_len(joints.last(), name_ptrs[joints.len() - 1]);
    }
}

/// The records depend on the name pointers of their joints alone.
pub proof fn lemma_records_image_ext(joints: Seq<RDJoint>, a: Seq<u32>, b: Seq<u32>)
    requires
        forall|i: int| 0 <= i < joints.len() ==> a[i] == b[i],
    ensures
        records_image(joints, a) == records_image(joints, b),
    decreases joints.len(),
{
    if joints.len() > 0 {
        lemma_records_image_ext(joints.drop_last(), a, b);
    }
}

/// Overwriting the first four bytes of record `k` sets the name pointer of that
/// record and nothing else.
pub proof fn lemma_patch_record(joints: Seq<RDJoint>, name_ptrs: Seq<u32>, k: int, v: u32)
    requires
        0 <= k < joints.len(),
        name_ptrs.len() == joints.len(),
    ensures
        patched(records_image(joints, name_ptrs), 84 * k, v) == records_image(
            joints,
            name_ptrs.update(k, v),
        ),
    decreases joints.len(),
{
    let n = joints.len() as int;
    let front = records_image(joints.drop_last(), name_ptrs);
    let last = joint_record(joints.last(), name_ptrs[n - 1]);
    lemma_records_image_len(joints.drop_last(), name_ptrs);
    let after = name_ptrs.update(k, v);
    lemma_joint_record_len(joints.last(), name_ptrs[n - 1]);
    if k == n - 1 {
        assert(patched(last, 0, v) == joint_record(joints.last(), v)) by {
            reveal(joint_record);
            assert(patched(last, 0, v) =~= joint_record(joints.last(), v));
        }
        lemma_patched_middle(front, last, Seq::empty(), 0, v);
        assert(front + last + Seq::<u8>::empty() =~= front + last);
        assert(front + patched(last, 0, v) + Seq::<u8>::empty() =~= front + patched(last, 0, v));
        lemma_records_image_ext(joints.drop_last(), name_ptrs, after);
    } else {
        lemma_patch_record(joints.drop_last(), name_ptrs.drop_last(), k, v);
        lemma_records_image_ext(joints.drop_last(), name_ptrs, name_ptrs.drop_last());
        lemma_records_image_ext(joints.drop_last(), name_ptrs.drop_last().update(k, v), after);
        lemma_patched_front(front, last, 84 * k, v);
    }
}

/// Whether every joint has an inverse bind pose.
pub open spec fn poses_invertible(joints: Seq<RDJoint>) -> bool {
    forall|i: int| 0 <= i < joints.len() ==> (#[trigger] joints[i]).inverse_translation is Some
}

/// The names of the first `i` joints take no more room than all names.
pub proof fn lemma_names_image_prefix(joints: Seq<RDJoint>, i: int)
    requires
        0 <= i <= joints.len(),
    ensures
        names_image(joints.take(i)).len() <= names_image(joints).len(),
    decreases joints.len(),
{
    if i == joints.len() {
        assert(joints.take(i) =~= joints);
    } else {
        assert(joints.take(i) =~= joints.drop_last().take(i));
        lemma_names_image_prefix(joints.drop_last(), i);
    }
}

/// The name table of the first `i + 1` joints is that of the first `i`, and behind
/// it the name of joint `i`.
pub proof fn lemma_names_image_step(joints: Seq<RDJoint>, i: int)
    requires
        0 <= i < joints.len(),
    ensures
        names_image(joints.take(i + 1)) == names_image(joints.take(i)) + string_block(
            name_bytes(joints[i]),
        ),
{
    assert(joints.take(i + 1).drop_last() =~= joints.take(i));
}

/// The records of the first `i + 1` joints are those of the first `i`, and behind
/// them the record of joint `i`.
pub proof fn lemma_records_image_step(joints: Seq<RDJoint>, name_ptrs: Seq<u32>, i: int)
    requires
        0 <= i < joints.len(),
    ensures
        records_image(joints.take(i + 1), name_ptrs) == records_image(joints.take(i), name_ptrs)
            + joint_record(joints[i], name_ptrs[i]),
{
    assert(joints.take(i + 1).drop_last() =~= joints.take(i));
}

/// Offset at which the vertex section of a model starts.
pub open spec fn vertex_at(model: RDModell) -> int {
    header_len(model.has_skin()) as int
}

/// Offset at which the index section of a model starts.
pub open spec fn index_at(model: RDModell) -> int {
    vertex_at(model) + vertex_image(model).len()
}

/// Offset at which the material block of a model starts.
pub open spec fn blob_at(model: RDModell) -> int {
    index_at(model) + index_image(model).len()
}

/// Offset at which the skin section of a model starts, where it has one.
pub open spec fn skin_at(model: RDModell) -> int {
    blob_at(model) + BLOB_LEN
}

/// The pointers of the header of a model's image. Each refers to the payload of its
/// section, eight bytes past the two words that open it; the skin pointer of a model
/// without joints is zero.
pub open spec fn image_ptrs(model: RDModell) -> HeaderPtrs {
    header_ptrs(
        model.has_skin(),
        ptr32(vertex_at(model) + 8),
        ptr32(index_at(model) + 8),
        ptr32(blob_at(model) + 8),
        if model.has_skin() {
            ptr32(skin_at(model) + 8)
        } else {
            0
        },
    )
}

/// The image of a model: header and meta region, vertex section, index section,
/// material block and, where the model carries joints, skin section.
pub open spec fn rdm_image(model: RDModell) -> Seq<u8> {
    let body = header_image(model.has_skin(), model.triangles_idx_count, image_ptrs(model))
        + vertex_image(model) + index_image(model) + blob_image(blob_at(model));
    match model.joints {
        Some(joints) => body + skin_image(joints@, skin_at(model)),
        None => body,
    }
}

/// Length of the image of a model.
pub open spec fn image_len(model: RDModell) -> nat {
    let skin: nat = match model.joints {
        Some(joints) => skin_len(joints@),
        None => 0,
    };
    header_len(model.has_skin()) + (8 + model.vertices.spec_len() * model.vertices.spec_stride())
        + (8 + 6 * model.triangle_indices@.len()) + 243 + skin
}

/// The skin section of `joints` is as long as [`skin_len`] says, wherever it is placed.
pub proof fn lemma_skin_image_len(joints: Seq<RDJoint>, at: int)
    ensures
        skin_image(joints, at).len() == skin_len(joints),
{
    reveal(skin_head_image);
    lemma_records_image_len(joints, name_ptrs(joints, at + 48 + 84 * joints.len()));
}

/// The sections of a model's image have the lengths that [`image_len`] adds up.
pub proof fn lemma_section_lens(model: RDModell)
    ensures
        vertex_image(model).len() == 8 + model.vertices.spec_len() * model.vertices.spec_stride(),
        index_image(model).len() == 8 + 6 * model.triangle_indices@.len(),
        blob_image(blob_at(model)).len() == BLOB_LEN,
        rdm_image(model).len() == image_len(model),
{
    model.vertices.lemma_bytes_len();
    lemma_triangles_image_len(model.triangle_indices@);
    lemma_blob_len(blob_at(model));
    lemma_header_len(model.has_skin(), model.triangles_idx_count, image_ptrs(model));
    match model.joints {
        Some(joints) => lemma_skin_image_len(joints@, skin_at(model)),
        None => {},
    }
}

/// The sum of two lengths, where it is no more than the largest allocation.
fn bounded_sum(a: usize, b: usize) -> (r: Option<usize>)
    ensures
        r matches Some(s) ==> s == a + b && s <= isize::MAX,
        r is None ==> a + b > isize::MAX,
{
    let limit = isize::MAX as usize;
    if a <= limit && b <= limit - a {
        Some(a + b)
    } else {
        None
    }
}

/// The product of a count and a size, where it is no more than the largest
/// allocation.
fn bounded_product(count: usize, size: usize) -> (r: Option<usize>)
    ensures
        r matches Some(p) ==> p == count * size && p <= isize::MAX,
        r is None ==> count * size > isize::MAX,
{
    let limit = isize::MAX as usize;
    if size == 0 {
        assert(count * size == 0) by (nonlinear_arith)
            requires
                size == 0,
        ;
        Some(0)
    } else if count <= limit / size {
        assert(count * size <= limit) by (nonlinear_arith)
            requires
                size > 0,
                count <= limit / size,
        ;
        Some(count * size)
    } else {
        assert(count * size > limit) by (nonlinear_arith)
            requires
                size > 0,
                count > limit / size,
        ;
        None
    }
}

/// Length of the name table of `joints`, where it is no more than the largest
/// allocation.
fn names_len(joints: &Vec<RDJoint>) -> (r: Option<usize>)
    ensures
        r matches Some(n) ==> n == names_image(joints@).len() && n <= isize::MAX,
        r is None ==> names_image(joints@).len() > isize::MAX,
{
    let mut total: usize = 0;
    let mut i: usize = 0;
    proof {
        assert(joints@.take(0) =~= Seq::<RDJoint>::empty());
    }
    while i < joints.len()
        invariant
            i <= joints@.len(),
            total == names_image(joints@.take(i as int)).len(),
            total <= isize::MAX,
        decreases joints@.len() - i,
    {
        proof {
            lemma_names_image_step(joints@, i as int);
            lemma_names_image_prefix(joints@, i as int + 1);
        }
        let name = joints[i].name.as_str().as_bytes();
        let entry = match bounded_sum(name.len(), 8) {
            Some(entry) => entry,
            None => {
                return None;
            },
        };
        total = match bounded_sum(total, entry) {
            Some(total) => total,
            None => {
                return None;
            },
        };
        i = i + 1;
    }
    proof {
        assert(joints@.take(joints@.len() as int) =~= joints@);
    }
    Some(total)
}

/// Length of the image of a model, where the image fits the largest allocation;
/// `None` where it does not.
pub fn encoded_len(model: &RDModell) -> (r: Option<usize>)
    ensures
        r matches Some(n) ==> n == image_len(*model) && n <= isize::MAX,
        r is None ==> image_len(*model) > isize::MAX,
{
    let header: usize = if model.has_skin() {
        704
    } else {
        688
    };
    let vertices = match bounded_product(model.vertices.len(), model.vertices.stride() as usize) {
        Some(n) => n,
        None => {
            return None;
        },
    };
    let triangles = match bounded_product(model.triangle_indices.len(), 6) {
        Some(n) => n,
        None => {
            return None;
        },
    };
    assert(model.triangle_indices@.len() * 6 == 6 * model.triangle_indices@.len());
    let skin = match &model.joints {
        Some(joints) => {
            let records = match bounded_product(joints.len(), 84) {
                Some(n) => n,
                None => {
                    return None;
                },
            };
            assert(joints@.len() * 84 == 84 * joints@.len());
            let names = match names_len(joints) {
                Some(n) => n,
                None => {
                    return None;
                },
            };
            match bounded_sum(records, names) {
                Some(n) => match bounded_sum(n, 48) {
                    Some(n) => n,
                    None => {
                        return None;
                    },
                },
                None => {
                    return None;
                },
            }
        },
        None => 0,
    };
    let fixed = header + 8 + 8 + BLOB_LEN;
    let total = match bounded_sum(fixed, vertices) {
        Some(n) => n,
        None => {
            return None;
        },
    };
    let total = match bounded_sum(total, triangles) {
        Some(n) => n,
        None => {
            return None;
        },
    };
    bounded_sum(total, skin)
}

} // verus!
