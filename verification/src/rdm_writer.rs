//! The writer: one pass over a model that appends section after section to a buffer
//! and fills in the pointer slots of earlier sections as their targets are placed.

use crate::buffer::{
    append, contents, le_u16, le_u32, lemma_concat_assoc, lemma_empty_back, lemma_empty_front,
    lemma_patched_front, lemma_patched_middle, len, patch, patched, ptr32, ptr_at, put_slice,
    put_u16_le, put_u32_le, put_u8, put_zeros, to_vec, with_capacity, zeros,
};
use crate::error::EncodeError;
use crate::image::{
    blob_at, blob_image, block_header, descriptors, encoded_len, header_image, header_len,
    image_len, index_at, index_image, initial_ptrs, joint_record, layout_matches,
    lemma_blob_texts, lemma_header_len, lemma_header_parts, lemma_header_texts,
    lemma_initial_ptrs, lemma_names_image_prefix, lemma_names_image_step, lemma_patch_header,
    lemma_patch_meta_table, lemma_patch_prologue, lemma_patch_record, lemma_records_image_len,
    lemma_records_image_step, lemma_section_lens, lemma_triangles_image_len, meta_blocks_image,
    meta_table_image, name_offset, name_ptrs, names_image, parent_field, poses_invertible,
    prologue_image, rdm_image, records_image, skin_at, skin_head_image, skin_image, skin_len,
    string_block, text, texts_image, triangles_image, unset_ptrs, vertex_at, vertex_image,
    with_slot, B4B_IDENTIFIER, BLOB_LEN, BLOB_SLOT, EXPORT_NAME, FILE_SLOT, G4B_IDENTIFIER,
    HeaderPtrs, I4B_IDENTIFIER, JOINT_RECORD_LEN, LAYOUT_CLASS, MATERIAL_NAME, META_BASE,
    META_BOX, META_SLOT, META_TABLE, MODEL_NAME, N4B_IDENTIFIER, NAME_PLACEHOLDER,
    P4H_IDENTIFIER, PATH_SLOT, PROLOGUE, RMP_NAME, SKIN_SLOT, T2H_IDENTIFIER, TEXTURE_PATH,
};
use crate::model::{RDJoint, RDModell, Triangle, NO_PARENT};
use crate::vertex::{put_records, VertexFormat};
use bytes::BytesMut;
use vstd::prelude::*;

verus! {

/// Appends a text as the format stores it: its length, the flag 1, its bytes.
/// Returns the offset of the first byte of the text.
fn put_text(buf: &mut BytesMut, s: &str) -> (at: usize)
    requires
        contents(*old(buf)).len() + 8 + text(s).len() <= isize::MAX,
    ensures
        contents(*final(buf)) == contents(*old(buf)) + string_block(text(s)),
        at == contents(*old(buf)).len() + 8,
{
    let bytes = s.as_bytes();
    put_u32_le(buf, ptr_at(bytes.len(), 0));
    put_u32_le(buf, 1);
    let at = append(buf, bytes);
    assert(contents(*buf) =~= contents(*old(buf)) + string_block(text(s)));
    at
}

/// Appends the two words that open a block and returns the offset of its payload.
fn put_block_header(buf: &mut BytesMut, count: u32, stride: u32) -> (at: usize)
    requires
        contents(*old(buf)).len() + 8 <= isize::MAX,
    ensures
        contents(*final(buf)) == contents(*old(buf)) + block_header(count, stride),
        at == contents(*old(buf)).len() + 8,
{
    put_u32_le(buf, count);
    put_u32_le(buf, stride);
    assert(contents(*buf) =~= contents(*old(buf)) + block_header(count, stride));
    len(buf)
}

/// Appends the attribute descriptors of the header: five, and behind them that of
/// the blend indices where the model is skinned.
fn put_descriptors(buf: &mut BytesMut, skinned: bool)
    requires
        contents(*old(buf)).len() + 104 <= isize::MAX,
    ensures
        contents(*final(buf)) == contents(*old(buf)) + descriptors(skinned),
{
    if skinned {
        put_u32_le(buf, 6);
        put_u32_le(buf, 16);
        put_slice(buf, &P4H_IDENTIFIER);
        put_slice(buf, &N4B_IDENTIFIER);
        put_slice(buf, &G4B_IDENTIFIER);
        put_slice(buf, &B4B_IDENTIFIER);
        put_slice(buf, &T2H_IDENTIFIER);
        put_slice(buf, &I4B_IDENTIFIER);
    } else {
        put_u32_le(buf, 5);
        put_u32_le(buf, 16);
        put_slice(buf, &P4H_IDENTIFIER);
        put_slice(buf, &N4B_IDENTIFIER);
        put_slice(buf, &G4B_IDENTIFIER);
        put_slice(buf, &B4B_IDENTIFIER);
        put_slice(buf, &T2H_IDENTIFIER);
    }
    assert(contents(*buf) =~= contents(*old(buf)) + descriptors(skinned));
}

/// Appends the parent field of a joint record.
fn put_parent(buf: &mut BytesMut, parent: u8)
    requires
        contents(*old(buf)).len() + 4 <= isize::MAX,
    ensures
        contents(*final(buf)) == contents(*old(buf)) + parent_field(parent),
{
    if parent == NO_PARENT {
        put_u32_le(buf, 0xFFFF_FFFF);
    } else {
        put_u8(buf, parent);
        put_u8(buf, 0);
        put_u8(buf, 0);
        put_u8(buf, 0);
    }
    assert(contents(*buf) =~= contents(*old(buf)) + parent_field(parent));
}

/// Appends the record of a joint, with the placeholder for its name pointer, and
/// returns the offset of the record.
fn put_joint_record(buf: &mut BytesMut, joint: &RDJoint) -> (at: usize)
    requires
        joint.inverse_translation is Some,
        contents(*old(buf)).len() + 84 <= isize::MAX,
    ensures
        contents(*final(buf)) == contents(*old(buf)) + joint_record(*joint, NAME_PLACEHOLDER),
        at == contents(*old(buf)).len(),
{
    let at = len(buf);
    put_u32_le(buf, NAME_PLACEHOLDER);
    match joint.inverse_translation {
        Some(translation) => {
            put_u32_le(buf, translation[0]);
            put_u32_le(buf, translation[1]);
            put_u32_le(buf, translation[2]);
        },
        None => {},
    }
    put_u32_le(buf, joint.rotation[0]);
    put_u32_le(buf, joint.rotation[1]);
    put_u32_le(buf, joint.rotation[2]);
    put_u32_le(buf, joint.rotation[3]);
    put_parent(buf, joint.parent);
    put_zeros(buf, 48);
    assert(contents(*buf) == contents(*old(buf)) + joint_record(*joint, NAME_PLACEHOLDER)) by {
        reveal(joint_record);
        assert(contents(*buf) =~= contents(*old(buf)) + joint_record(*joint, NAME_PLACEHOLDER));
    }
    at
}

/// Whether every joint has an inverse bind pose.
fn all_invertible(joints: &Vec<RDJoint>) -> (b: bool)
    ensures
        b == poses_invertible(joints@),
{
    let mut i: usize = 0;
    while i < joints.len()
        invariant
            i <= joints@.len(),
            forall|k: int| 0 <= k < i ==> (#[trigger] joints@[k]).inverse_translation is Some,
        decreases joints@.len() - i,
    {
        if joints[i].inverse_translation.is_none() {
            return false;
        }
        i = i + 1;
    }
    true
}

/// A model together with as much of its image as has been written.
pub struct RDWriter {
    meta_deref: u32,
    input: RDModell,
    buf: BytesMut,
}

impl View for RDWriter {
    type V = Seq<u8>;

    /// The bytes written so far.
    closed spec fn view(&self) -> Seq<u8> {
        contents(self.buf)
    }
}

impl RDWriter {
    /// The model that is being written.
    pub closed spec fn model(&self) -> RDModell {
        self.input
    }

    /// Offset of the meta table's payload, from which the slots of the vertex and
    /// index data are counted.
    pub closed spec fn meta_base(&self) -> int {
        self.meta_deref as int
    }

    /// Whether `outcome` is what encoding `rdm` yields: the writer that holds the whole
    /// image of `rdm`, where the declared vertex count and stride give the bytes of
    /// the vertices and every joint has an inverse bind pose; else the failure that
    /// names the first of the two that does not hold.
    pub open spec fn is_outcome(rdm: RDModell, outcome: Result<RDWriter, EncodeError>) -> bool {
        match outcome {
            Ok(writer) => {
                &&& layout_matches(rdm)
                &&& rdm.joints matches Some(joints) ==> poses_invertible(joints@)
                &&& writer@ == rdm_image(rdm)
                &&& writer.model() == rdm
                &&& writer.meta_base() == META_BASE
            },
            Err(EncodeError::LayoutMismatch) => !layout_matches(rdm),
            Err(EncodeError::NonInvertibleBindPose) => {
                &&& layout_matches(rdm)
                &&& rdm.joints matches Some(joints) && !poses_invertible(joints@)
            },
            Err(EncodeError::MissingSkinData) => false,
        }
    }

    /// Encodes a model: writes its header and meta region, its vertex section, its
    /// index section, its material block and, where it carries joints, its skin
    /// section, each into one buffer and in this order.
    ///
    /// Fails with [`EncodeError::LayoutMismatch`] where the declared vertex count and
    /// stride do not give the bytes of the vertices, and else with
    /// [`EncodeError::NonInvertibleBindPose`] where a joint has no inverse bind pose.
    /// The image must fit the largest buffer that can be allocated; [`Self::try_new`]
    /// tests that first.
    pub fn new(rdm: RDModell) -> (r: Result<RDWriter, EncodeError>)
        requires
            image_len(rdm) <= isize::MAX,
        ensures
            Self::is_outcome(rdm, r),
    {
        let ghost skinned = rdm.has_skin();
        let ghost count = rdm.triangles_idx_count;
        let ghost vertices = vertex_image(rdm);
        let ghost indices = index_image(rdm);
        let ghost blob = blob_image(blob_at(rdm));
        let ghost unset = unset_ptrs(skinned);
        let ghost with_vertex = with_slot(unset, META_BASE + 12, ptr32(vertex_at(rdm) + 8));
        let ghost with_index = with_slot(with_vertex, META_BASE + 16, ptr32(index_at(rdm) + 8));
        let ghost with_blob = with_slot(with_index, BLOB_SLOT as int, ptr32(blob_at(rdm) + 8));
        let ghost with_skin = with_slot(with_blob, SKIN_SLOT as int, ptr32(skin_at(rdm) + 8));
        proof {
            lemma_section_lens(rdm);
            lemma_header_len(skinned, count, unset);
            lemma_header_len(skinned, count, with_vertex);
            lemma_header_len(skinned, count, with_index);
            lemma_header_len(skinned, count, with_blob);
        }
        let mut rdw = RDWriter { meta_deref: 331, input: rdm, buf: with_capacity(5000) };

        rdw.put_header();
        proof {
            lemma_empty_back(header_image(skinned, count, unset));
            lemma_patch_header(
                skinned,
                count,
                unset,
                Seq::empty(),
                META_BASE + 12,
                ptr32(vertex_at(rdm) + 8),
            );
            lemma_empty_back(header_image(skinned, count, with_vertex));
        }
        match rdw.put_vertex_buffer() {
            Ok(()) => {},
            Err(e) => {
                return Err(e);
            },
        }
        proof {
            lemma_patch_header(
                skinned,
                count,
                with_vertex,
                vertices,
                META_BASE + 16,
                ptr32(index_at(rdm) + 8),
            );
        }
        rdw.put_indexed_triangle_list();
        proof {
            lemma_concat_assoc(header_image(skinned, count, with_index), vertices, indices);
            lemma_patch_header(
                skinned,
                count,
                with_index,
                vertices + indices,
                BLOB_SLOT as int,
                ptr32(blob_at(rdm) + 8),
            );
            lemma_concat_assoc(header_image(skinned, count, with_blob), vertices, indices);
        }
        rdw.put_blob();

        if rdw.input.has_skin() {
            proof {
                let head = header_image(skinned, count, with_blob);
                let after = header_image(skinned, count, with_skin);
                lemma_concat_assoc(head, vertices, indices);
                lemma_concat_assoc(head, vertices + indices, blob);
                lemma_patch_header(
                    skinned,
                    count,
                    with_blob,
                    vertices + indices + blob,
                    SKIN_SLOT as int,
                    ptr32(skin_at(rdm) + 8),
                );
                lemma_concat_assoc(after, vertices + indices, blob);
                lemma_concat_assoc(after, vertices, indices);
            }
            match rdw.put_skin() {
                Ok(()) => {},
                Err(e) => {
                    return Err(e);
                },
            }
        }
        Ok(rdw)
    }

    /// Encodes a model where its image fits the largest buffer that can be allocated,
    /// and returns `None` where it does not.
    pub fn try_new(rdm: RDModell) -> (r: Option<Result<RDWriter, EncodeError>>)
        ensures
            r is Some <==> image_len(rdm) <= isize::MAX,
            r matches Some(outcome) ==> Self::is_outcome(rdm, outcome),
    {
        match encoded_len(&rdm) {
            Some(_) => Some(RDWriter::new(rdm)),
            None => None,
        }
    }

    /// Hands over the bytes written, for the caller to persist.
    pub fn write_rdm(self) -> (bytes: Vec<u8>)
        ensures
            bytes@ == self@,
    {
        to_vec(&self.buf)
    }

    /// Writes the prologue and the two texts into the empty buffer, and the two words
    /// that open the meta table. The pointers to the texts and to the meta table are
    /// filled in as each is placed.
    fn put_prologue(&mut self)
        requires
            old(self)@.len() == 0,
        ensures
            final(self)@ == prologue_image(
                (HeaderPtrs { path: 164, file: 304, meta: META_BASE, ..initial_ptrs() }),
            ) + texts_image(),
            final(self).meta_base() == META_BASE,
            final(self).model() == old(self).model(),
    {
        proof {
            lemma_header_texts();
            lemma_initial_ptrs();
            lemma_header_parts(false, 0, initial_ptrs());
            reveal(texts_image);
        }
        let ghost initial = initial_ptrs();
        let ghost text_1 = string_block(text(EXPORT_NAME));
        let ghost text_2 = string_block(text(RMP_NAME));
        put_slice(&mut self.buf, &PROLOGUE);
        proof {
            lemma_empty_front(PROLOGUE@);
        }

        let path_str_ptr = put_text(&mut self.buf, EXPORT_NAME);
        let ghost with_path = with_slot(initial, PATH_SLOT as int, 164);
        proof {
            lemma_patch_prologue(initial, text_1, PATH_SLOT as int, 164);
        }
        patch(&mut self.buf, PATH_SLOT, ptr_at(path_str_ptr, 0));

        let file_str_ptr = put_text(&mut self.buf, RMP_NAME);
        let ghost with_file = with_slot(with_path, FILE_SLOT as int, 304);
        proof {
            lemma_concat_assoc(prologue_image(with_path), text_1, text_2);
            lemma_patch_prologue(with_path, text_1 + text_2, FILE_SLOT as int, 304);
        }
        patch(&mut self.buf, FILE_SLOT, ptr_at(file_str_ptr, 0));

        let meta_ptr = put_block_header(&mut self.buf, 1, 92);
        self.meta_deref = ptr_at(meta_ptr, 0);
        proof {
            lemma_concat_assoc(prologue_image(with_file), text_1 + text_2, block_header(1, 92));
            lemma_patch_prologue(with_file, texts_image(), META_SLOT as int, META_BASE);
        }
        patch(&mut self.buf, META_SLOT, self.meta_deref);
    }

    /// Writes the payload of the meta table and the blocks behind it. The pointers of
    /// the table to three of these blocks are filled in as each is placed; those to
    /// the vertex and index data keep their initial values.
    fn put_meta_table(&mut self)
        requires
            old(self)@.len() == META_BASE,
            old(self).meta_base() == META_BASE,
        ensures
            final(self)@ == old(self)@ + meta_table_image(
                unset_ptrs(old(self).model().has_skin()),
            ) + meta_blocks_image(
                old(self).model().has_skin(),
                old(self).model().triangles_idx_count,
            ),
            final(self).meta_base() == META_BASE,
            final(self).model() == old(self).model(),
    {
        let skinned = self.input.has_skin();
        let ghost front = self@;
        let ghost initial = initial_ptrs();
        proof {
            lemma_header_texts();
            lemma_initial_ptrs();
            lemma_header_parts(skinned, 0, initial);
        }
        let next = ptr_at(len(&self.buf), 8 + 92);
        put_u32_le(&mut self.buf, next);
        put_slice(&mut self.buf, &META_TABLE);
        put_slice(&mut self.buf, &META_BOX);
        put_zeros(&mut self.buf, 40);
        proof {
            lemma_concat_assoc(front, le_u32(442), META_TABLE@);
            lemma_concat_assoc(front, le_u32(442) + META_TABLE@, META_BOX@);
            lemma_concat_assoc(front, le_u32(442) + META_TABLE@ + META_BOX@, zeros(40));
        }
        assert(self@ == front + meta_table_image(initial));

        // The block that points to the model's name, and the name.
        let at = put_block_header(&mut self.buf, 1, 28);
        let ghost mut tail = block_header(1, 28);
        let next = ptr_at(at, 28 + 8);
        put_u32_le(&mut self.buf, next);
        proof {
            lemma_concat_assoc(front + meta_table_image(initial), tail, le_u32(478));
            tail = tail + le_u32(478);
        }
        put_zeros(&mut self.buf, 24);
        proof {
            lemma_concat_assoc(front + meta_table_image(initial), tail, zeros(24));
            tail = tail + zeros(24);
        }
        put_text(&mut self.buf, MODEL_NAME);
        proof {
            lemma_concat_assoc(
                front + meta_table_image(initial),
                tail,
                string_block(text(MODEL_NAME)),
            );
            tail = tail + string_block(text(MODEL_NAME));
        }

        // The block that holds the skin flag and points to the attribute descriptors.
        let meta_id_ptr = put_block_header(&mut self.buf, 1, 24);
        proof {
            lemma_concat_assoc(front + meta_table_image(initial), tail, block_header(1, 24));
            tail = tail + block_header(1, 24);
            lemma_patch_meta_table(front, initial, tail, META_BASE + 4, 512);
        }
        let ghost with_format = with_slot(initial, META_BASE + 4, 512);
        patch(&mut self.buf, (self.meta_deref + 4) as usize, ptr_at(meta_id_ptr, 0));
        assert(self@ == front + meta_table_image(with_format) + tail);
        let next = ptr_at(meta_id_ptr, 24 + 8);
        put_u32_le(&mut self.buf, next);
        proof {
            lemma_concat_assoc(front + meta_table_image(with_format), tail, le_u32(544));
            tail = tail + le_u32(544);
        }
        if skinned {
            put_u32_le(&mut self.buf, 1);
        } else {
            put_u32_le(&mut self.buf, 0);
        }
        let ghost flag = le_u32(if skinned { 1 } else { 0 });
        proof {
            lemma_concat_assoc(front + meta_table_image(with_format), tail, flag);
            tail = tail + flag;
        }
        put_zeros(&mut self.buf, 16);
        proof {
            lemma_concat_assoc(front + meta_table_image(with_format), tail, zeros(16));
            tail = tail + zeros(16);
        }

        put_descriptors(&mut self.buf, skinned);
        proof {
            lemma_concat_assoc(front + meta_table_image(with_format), tail, descriptors(skinned));
            tail = tail + descriptors(skinned);
        }

        // The layout class.
        let meta_unknown_ptr = put_block_header(&mut self.buf, 1, 20);
        let ghost class: u32 = if skinned { 648 } else { 632 };
        proof {
            lemma_concat_assoc(front + meta_table_image(with_format), tail, block_header(1, 20));
            tail = tail + block_header(1, 20);
            lemma_patch_meta_table(front, with_format, tail, META_BASE + 8, class);
        }
        let ghost with_class = with_slot(with_format, META_BASE + 8, class);
        patch(&mut self.buf, (self.meta_deref + 8) as usize, ptr_at(meta_unknown_ptr, 0));
        assert(self@ == front + meta_table_image(with_class) + tail);
        put_u32_le(&mut self.buf, LAYOUT_CLASS);
        proof {
            lemma_concat_assoc(front + meta_table_image(with_class), tail, le_u32(LAYOUT_CLASS));
            tail = tail + le_u32(LAYOUT_CLASS);
        }
        put_zeros(&mut self.buf, 16);
        proof {
            lemma_concat_assoc(front + meta_table_image(with_class), tail, zeros(16));
            tail = tail + zeros(16);
        }

        // The index count.
        let triangle_count_ptr = put_block_header(&mut self.buf, 1, 28);
        let ghost count: u32 = if skinned { 676 } else { 660 };
        proof {
            lemma_concat_assoc(front + meta_table_image(with_class), tail, block_header(1, 28));
            tail = tail + block_header(1, 28);
            lemma_patch_meta_table(front, with_class, tail, META_BASE + 20, count);
        }
        let ghost with_count = with_slot(with_class, META_BASE + 20, count);
        patch(&mut self.buf, (self.meta_deref + 20) as usize, ptr_at(triangle_count_ptr, 0));
        assert(self@ == front + meta_table_image(with_count) + tail);
        put_u32_le(&mut self.buf, 0);
        proof {
            lemma_concat_assoc(front + meta_table_image(with_count), tail, le_u32(0));
            tail = tail + le_u32(0);
        }
        put_u32_le(&mut self.buf, self.input.triangles_idx_count);
        proof {
            lemma_concat_assoc(
                front + meta_table_image(with_count),
                tail,
                le_u32(self.input.triangles_idx_count),
            );
            tail = tail + le_u32(self.input.triangles_idx_count);
        }
        put_zeros(&mut self.buf, 20);
        proof {
            lemma_concat_assoc(front + meta_table_image(with_count), tail, zeros(20));
            tail = tail + zeros(20);
            assert(tail == meta_blocks_image(skinned, self.input.triangles_idx_count)) by {
                reveal(meta_blocks_image);
                assert(tail =~= meta_blocks_image(skinned, self.input.triangles_idx_count));
            }
            assert(meta_table_image(with_count) == meta_table_image(
                unset_ptrs(skinned),
            )) by {
                reveal(meta_table_image);
            }
        }
    }

    /// Writes the header and meta region into the empty buffer: the prologue, the two
    /// texts, the meta table and the blocks behind it. Each pointer to a part of the
    /// region is filled in when the part is placed; the slots of the four later
    /// sections keep their initial values.
    fn put_header(&mut self)
        requires
            old(self)@.len() == 0,
        ensures
            final(self)@ == header_image(
                old(self).model().has_skin(),
                old(self).model().triangles_idx_count,
                unset_ptrs(old(self).model().has_skin()),
            ),
            final(self)@.len() == header_len(old(self).model().has_skin()),
            final(self).meta_base() == META_BASE,
            final(self).model() == old(self).model(),
    {
        self.put_prologue();
        proof {
            lemma_header_parts(
                false,
                0,
                (HeaderPtrs { path: 164, file: 304, meta: META_BASE, ..initial_ptrs() }),
            );
            assert(prologue_image(
                (HeaderPtrs { path: 164, file: 304, meta: META_BASE, ..initial_ptrs() }),
            ) == prologue_image(unset_ptrs(self.input.has_skin()))) by {
                reveal(prologue_image);
            }
        }
        self.put_meta_table();
        proof {
            lemma_header_len(
                self.input.has_skin(),
                self.input.triangles_idx_count,
                unset_ptrs(self.input.has_skin()),
            );
        }
    }

    /// Appends the vertex section and points the meta table's vertex slot to its
    /// data: the declared count and stride, then every vertex, attribute by attribute
    /// in the order of the layout.
    ///
    /// Fails where the bytes written for the vertices are not the declared count times
    /// the declared stride.
    pub fn put_vertex_buffer(&mut self) -> (r: Result<(), EncodeError>)
        requires
            0 <= old(self).meta_base(),
            old(self).meta_base() + 16 <= old(self)@.len(),
            old(self)@.len() + vertex_image(old(self).model()).len() <= isize::MAX,
        ensures
            final(self).model() == old(self).model(),
            final(self).meta_base() == old(self).meta_base(),
            final(self)@ == patched(
                old(self)@,
                old(self).meta_base() + 12,
                ptr32(old(self)@.len() as int + 8),
            ) + vertex_image(old(self).model()),
            r is Ok <==> layout_matches(old(self).model()),
            r matches Err(e) ==> e == EncodeError::LayoutMismatch,
    {
        let ghost start = self@;
        let ghost opening = block_header(self.input.vertices_count, self.input.vertex_buffer_size);
        proof {
            self.input.vertices.lemma_bytes_len();
        }
        let vertex_ptr = put_block_header(
            &mut self.buf,
            self.input.vertices_count,
            self.input.vertex_buffer_size,
        );
        proof {
            lemma_patched_front(
                start,
                opening,
                self.meta_deref + 12,
                ptr32(start.len() as int + 8),
            );
        }
        let buff_off = (self.meta_deref as usize) + (RDModell::VERTEX_META as usize);
        patch(&mut self.buf, buff_off, ptr_at(vertex_ptr, 0));
        let ghost front = patched(start, self.meta_deref + 12, ptr32(start.len() as int + 8));
        let start_len = len(&self.buf);
        match &self.input.vertices {
            VertexFormat::P4h(iv) => put_records(&mut self.buf, iv),
            VertexFormat::P4h_N4b_T2h(iv) => put_records(&mut self.buf, iv),
            VertexFormat::P4h_N4b_T2h_I4b(iv) => put_records(&mut self.buf, iv),
            VertexFormat::P4h_N4b_G4b_B4b_T2h(iv) => put_records(&mut self.buf, iv),
            VertexFormat::P4h_N4b_T2h_I4b_W4b(iv) => put_records(&mut self.buf, iv),
            VertexFormat::P4h_N4b_G4b_B4b_T2h_I4b(iv) => put_records(&mut self.buf, iv),
            VertexFormat::P4h_N4b_T2h_C4c(iv) => put_records(&mut self.buf, iv),
            VertexFormat::P4h_N4b_G4b_B4b_T2h_C4c(iv) => put_records(&mut self.buf, iv),
        }
        proof {
            lemma_concat_assoc(front, opening, self.input.vertices.bytes());
        }
        let end_len = len(&self.buf);
        let written = end_len - start_len;
        let count = self.input.vertices_count as u64;
        let stride = self.input.vertex_buffer_size as u64;
        assert(count * stride <= 0xFFFF_FFFF * 0xFFFF_FFFF) by (nonlinear_arith)
            requires
                count <= 0xFFFF_FFFF,
                stride <= 0xFFFF_FFFF,
        ;
        let declared = count * stride;
        if written as u64 == declared {
            Ok(())
        } else {
            Err(EncodeError::LayoutMismatch)
        }
    }

    /// Appends the index section and points the meta table's index slot to its data:
    /// the declared index count and the stride 2, then each triangle as three 16-bit
    /// indices, in input order.
    pub fn put_indexed_triangle_list(&mut self)
        requires
            0 <= old(self).meta_base(),
            old(self).meta_base() + 20 <= old(self)@.len(),
            old(self)@.len() + index_image(old(self).model()).len() <= isize::MAX,
        ensures
            final(self).model() == old(self).model(),
            final(self).meta_base() == old(self).meta_base(),
            final(self)@ == patched(
                old(self)@,
                old(self).meta_base() + 16,
                ptr32(old(self)@.len() as int + 8),
            ) + index_image(old(self).model()),
    {
        let ghost start = self@;
        let ghost opening = block_header(self.input.triangles_idx_count, 2);
        let ghost triangles = self.input.triangle_indices@;
        proof {
            lemma_triangles_image_len(triangles);
        }
        let triangle_list_ptr = put_block_header(&mut self.buf, self.input.triangles_idx_count, 2);
        proof {
            lemma_patched_front(
                start,
                opening,
                self.meta_deref + 16,
                ptr32(start.len() as int + 8),
            );
        }
        let buff_off = (self.meta_deref as usize) + (RDModell::TRIANGLES_META as usize);
        patch(&mut self.buf, buff_off, ptr_at(triangle_list_ptr, 0));
        let ghost base = patched(start, self.meta_deref + 16, ptr32(start.len() as int + 8))
            + opening;

        let n = self.input.triangle_indices.len();
        let mut i: usize = 0;
        proof {
            assert(triangles.take(0) =~= Seq::<Triangle>::empty());
            lemma_empty_back(base);
        }
        while i < n
            invariant
                i <= n == triangles.len(),
                triangles == self.input.triangle_indices@,
                base.len() + 6 * n <= isize::MAX,
                self@ == base + triangles_image(triangles.take(i as int)),
                self.input == old(self).input,
                self.meta_deref == old(self).meta_deref,
            decreases n - i,
        {
            let ghost done = triangles_image(triangles.take(i as int));
            let ghost t = triangles[i as int];
            proof {
                lemma_triangles_image_len(triangles.take(i as int));
                assert(triangles.take(i + 1).drop_last() =~= triangles.take(i as int));
            }
            let triangle = &self.input.triangle_indices[i];
            put_u16_le(&mut self.buf, triangle.indices[0]);
            put_u16_le(&mut self.buf, triangle.indices[1]);
            put_u16_le(&mut self.buf, triangle.indices[2]);
            proof {
                let a = le_u16(t.indices[0]);
                let b = le_u16(t.indices[1]);
                let c = le_u16(t.indices[2]);
                lemma_concat_assoc(base + done, a, b);
                lemma_concat_assoc(base + done, a + b, c);
                lemma_concat_assoc(base, done, a + b + c);
            }
            i = i + 1;
        }
        proof {
            assert(triangles.take(n as int) =~= triangles);
            lemma_concat_assoc(
                patched(start, self.meta_deref + 16, ptr32(start.len() as int + 8)),
                opening,
                triangles_image(triangles),
            );
        }
    }

    /// Appends the material block and points the prologue's slot to the payload of
    /// its first block. The pointers inside the block are computed from the lengths
    /// of its parts, which are known beforehand.
    pub fn put_blob(&mut self)
        requires
            BLOB_SLOT + 4 <= old(self)@.len(),
            old(self)@.len() + BLOB_LEN <= isize::MAX,
        ensures
            final(self).model() == old(self).model(),
            final(self).meta_base() == old(self).meta_base(),
            final(self)@ == patched(
                old(self)@,
                BLOB_SLOT as int,
                ptr32(old(self)@.len() as int + 8),
            ) + blob_image(old(self)@.len() as int),
            final(self)@.len() == old(self)@.len() + BLOB_LEN,
    {
        let ghost start = self@;
        let ghost at = start.len() as int;
        proof {
            lemma_blob_texts();
        }
        let blob_ptr = ptr_at(len(&self.buf), 8);
        patch(&mut self.buf, BLOB_SLOT, blob_ptr);
        let ghost front = self@;

        let payload = put_block_header(&mut self.buf, 1, 28);
        put_u32_le(&mut self.buf, ptr_at(payload, 4 + 24 + 8));
        put_zeros(&mut self.buf, 24);

        let material = MATERIAL_NAME.as_bytes();
        let payload = put_block_header(&mut self.buf, 1, 48);
        put_u32_le(&mut self.buf, ptr_at(payload, 8 + 48));
        let second = ptr_at(len(&self.buf), 8 + 48 + material.len() as u32 + 8 - 4);
        put_u32_le(&mut self.buf, second);
        put_zeros(&mut self.buf, 40);

        put_text(&mut self.buf, MATERIAL_NAME);
        put_text(&mut self.buf, TEXTURE_PATH);
        assert(self@ == front + blob_image(at)) by {
            assert(self@ =~= front + blob_image(at));
        }
    }

    /// Appends the skin section and points the prologue's skin slot to it: the skin
    /// block, a record for each joint, and the name table. Each record is written
    /// with a placeholder for its name pointer, which is filled in when the name is
    /// placed.
    ///
    /// Fails, and leaves the buffer as it is, where the model carries no joints or a
    /// joint has no inverse bind pose.
    pub fn put_skin(&mut self) -> (r: Result<(), EncodeError>)
        requires
            SKIN_SLOT + 4 <= old(self)@.len(),
            old(self).model().joints matches Some(joints) ==> old(self)@.len() + skin_len(
                joints@,
            ) <= isize::MAX,
        ensures
            final(self).model() == old(self).model(),
            final(self).meta_base() == old(self).meta_base(),
            r is Ok <==> (old(self).model().joints matches Some(joints) && poses_invertible(
                joints@,
            )),
            r is Ok ==> final(self)@ == patched(
                old(self)@,
                SKIN_SLOT as int,
                ptr32(old(self)@.len() as int + 8),
            ) + skin_image(old(self).model().joints->0@, old(self)@.len() as int),
            r matches Err(e) ==> final(self)@ == old(self)@ && e == (if old(
                self,
            ).model().joints is None {
                EncodeError::MissingSkinData
            } else {
                EncodeError::NonInvertibleBindPose
            }),
    {
        let joints = match &self.input.joints {
            Some(joints) => joints,
            None => {
                return Err(EncodeError::MissingSkinData);
            },
        };
        if !all_invertible(joints) {
            return Err(EncodeError::NonInvertibleBindPose);
        }
        let ghost start = self@;
        let ghost at = start.len() as int;
        let joint_count = joints.len();
        let ghost names_at = at + 48 + 84 * joint_count;
        proof {
            lemma_names_image_prefix(joints@, 0);
        }

        let skin_ptr_ptr = put_block_header(&mut self.buf, 1, 32);
        proof {
            lemma_patched_front(start, block_header(1, 32), SKIN_SLOT as int, ptr32(at + 8));
        }
        patch(&mut self.buf, SKIN_SLOT, ptr_at(skin_ptr_ptr, 0));
        let ghost front = patched(start, SKIN_SLOT as int, ptr32(at + 8));
        let first_joint_ptr = ptr_at(skin_ptr_ptr, 32 + 8);
        put_u32_le(&mut self.buf, first_joint_ptr);
        put_zeros(&mut self.buf, 28);
        put_u32_le(&mut self.buf, ptr_at(joint_count, 0));
        put_u32_le(&mut self.buf, JOINT_RECORD_LEN);
        let ghost head = skin_head_image(joint_count as nat, at);
        assert(self@ == front + head && head.len() == 48) by {
            reveal(skin_head_image);
            assert(self@ =~= front + head);
        }
        let ghost base = front + head;

        let ghost unset = Seq::new(joint_count as nat, |i: int| NAME_PLACEHOLDER);
        let mut name_ptr_vec: Vec<usize> = Vec::with_capacity(joint_count);
        let mut k: usize = 0;
        proof {
            assert(joints@.take(0) =~= Seq::<RDJoint>::empty());
            assert(base + records_image(joints@.take(0), unset) =~= base);
        }
        while k < joint_count
            invariant
                k <= joint_count == joints@.len(),
                poses_invertible(joints@),
                base.len() == at + 48,
                at + skin_len(joints@) <= isize::MAX,
                forall|i: int| 0 <= i < joint_count ==> unset[i] == NAME_PLACEHOLDER,
                self@ == base + records_image(joints@.take(k as int), unset),
                self.input == old(self).input,
                self.meta_deref == old(self).meta_deref,
                name_ptr_vec@.len() == k,
                forall|i: int| 0 <= i < k ==> name_ptr_vec@[i] == at + 48 + 84 * i,
            decreases joint_count - k,
        {
            proof {
                lemma_records_image_len(joints@.take(k as int), unset);
                lemma_records_image_step(joints@, unset, k as int);
                lemma_concat_assoc(
                    base,
                    records_image(joints@.take(k as int), unset),
                    joint_record(joints@[k as int], NAME_PLACEHOLDER),
                );
            }
            let record_at = put_joint_record(&mut self.buf, &joints[k]);
            name_ptr_vec.push(record_at);
            k = k + 1;
        }
        proof {
            assert(joints@.take(joint_count as int) =~= joints@);
            lemma_records_image_len(joints@, unset);
            lemma_empty_back(base + records_image(joints@, unset));
        }

        let ghost filled = |done: int|
            Seq::new(
                joint_count as nat,
                |i: int|
                    if i < done {
                        ptr32(names_at + name_offset(joints@, i))
                    } else {
                        NAME_PLACEHOLDER
                    },
            );
        let mut k: usize = 0;
        proof {
            assert(filled(0) =~= unset);
        }
        while k < joint_count
            invariant
                k <= joint_count == joints@.len(),
                base.len() == at + 48,
                names_at == at + 48 + 84 * joint_count,
                at + skin_len(joints@) <= isize::MAX,
                self@ == base + records_image(joints@, filled(k as int)) + names_image(
                    joints@.take(k as int),
                ),
                self.input == old(self).input,
                self.meta_deref == old(self).meta_deref,
                name_ptr_vec@.len() == joint_count,
                forall|i: int| 0 <= i < joint_count ==> name_ptr_vec@[i] == at + 48 + 84 * i,
                forall|done: int| #[trigger]
                    filled(done) == Seq::new(
                        joint_count as nat,
                        |i: int|
                            if i < done {
                                ptr32(names_at + name_offset(joints@, i))
                            } else {
                                NAME_PLACEHOLDER
                            },
                    ),
            decreases joint_count - k,
        {
            let ghost records = records_image(joints@, filled(k as int));
            let ghost names = names_image(joints@.take(k as int));
            let ghost name_ptr = ptr32(names_at + name_offset(joints@, k as int));
            let name = joints[k].name.as_str().as_bytes();
            let ghost opening = block_header(ptr32(name@.len() as int), 1);
            proof {
                lemma_records_image_len(joints@, filled(k as int));
                lemma_names_image_prefix(joints@, k as int + 1);
                lemma_names_image_step(joints@, k as int);
            }
            let name_at = put_block_header(&mut self.buf, ptr_at(name.len(), 0), 1);
            proof {
                lemma_concat_assoc(base + records, names, opening);
                lemma_patched_middle(base, records, names + opening, 84 * k, name_ptr);
                lemma_patch_record(joints@, filled(k as int), k as int, name_ptr);
                assert(filled(k as int).update(k as int, name_ptr) =~= filled(k as int + 1));
            }
            patch(&mut self.buf, name_ptr_vec[k], ptr_at(name_at, 0));
            put_slice(&mut self.buf, name);
            proof {
                let records = records_image(joints@, filled(k as int + 1));
                lemma_concat_assoc(base + records, names + opening, name@);
                lemma_concat_assoc(names, opening, name@);
            }
            k = k + 1;
        }
        proof {
            assert(joints@.take(joint_count as int) =~= joints@);
            assert(filled(joint_count as int) =~= name_ptrs(joints@, names_at));
            let records = records_image(joints@, name_ptrs(joints@, names_at));
            lemma_concat_assoc(front, head, records);
            lemma_concat_assoc(front, head + records, names_image(joints@));
        }
        Ok(())
    }
}

} // verus!
