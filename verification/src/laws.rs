//! What holds of every image, stated over the functions that describe it.

use crate::buffer::{
    le_u32, lemma_empty_back, lemma_subrange_back, lemma_subrange_front, lemma_subrange_middle,
    lemma_subrange_twice, ptr32,
};
use crate::image::{
    blob_image, header_image, index_image, joint_record, layout_matches, lemma_blob_len,
    lemma_header_len, lemma_joint_record_len, lemma_names_image_prefix, lemma_names_image_step,
    lemma_records_image_len, lemma_triangles_image_len, name_bytes, name_offset, name_ptrs,
    names_image, parent_field, records_image, skin_head_image, skin_image, string_block,
    triangles_image, vertex_image, HeaderPtrs,
};
use crate::model::{RDJoint, RDModell};
use crate::vertex::VertexFormat;
use vstd::prelude::*;

verus! {

/// The vertices of a well-formed model take the declared count times the declared
/// stride, and the declared stride is the sum of the sizes of the attributes of the
/// active layout.
pub proof fn law_vertex_section(model: RDModell)
    requires
        model.wf(),
    ensures
        layout_matches(model),
        vertex_image(model).len() == 8 + model.vertices_count * model.vertex_buffer_size,
        model.vertex_buffer_size == match model.vertices {
            VertexFormat::P4h(_) => 8int,
            VertexFormat::P4h_N4b_T2h(_) => 8int + 4 + 4,
            VertexFormat::P4h_N4b_T2h_I4b(_) => 8int + 4 + 4 + 4,
            VertexFormat::P4h_N4b_G4b_B4b_T2h(_) => 8int + 4 + 4 + 4 + 4,
            VertexFormat::P4h_N4b_T2h_I4b_W4b(_) => 8int + 4 + 4 + 4 + 4,
            VertexFormat::P4h_N4b_G4b_B4b_T2h_I4b(_) => 8int + 4 + 4 + 4 + 4 + 4,
            VertexFormat::P4h_N4b_T2h_C4c(_) => 8int + 4 + 4 + 4,
            VertexFormat::P4h_N4b_G4b_B4b_T2h_C4c(_) => 8int + 4 + 4 + 4 + 4 + 4,
        },
{
    model.vertices.lemma_bytes_len();
}

/// The triangles of a model take two bytes for each of the three indices of each
/// triangle.
pub proof fn law_index_section(model: RDModell)
    ensures
        triangles_image(model.triangle_indices@).len() == 2 * 3 * model.triangle_indices@.len(),
        index_image(model).len() == 8 + 2 * 3 * model.triangle_indices@.len(),
{
    lemma_triangles_image_len(model.triangle_indices@);
}

/// The header and meta region is 704 bytes long where it holds the descriptor of the
/// blend indices, which is where the model is skinned, and 688 bytes long where it
/// does not; whatever the pointers in it are.
pub proof fn law_header_length(skinned: bool, index_count: u32, ptrs: HeaderPtrs)
    ensures
        header_image(skinned, index_count, ptrs).len() == (if skinned {
            704int
        } else {
            688int
        }),
{
    lemma_header_len(skinned, index_count, ptrs);
}

/// The material block is 243 bytes long wherever it is placed.
pub proof fn law_blob_length(at: int)
    ensures
        blob_image(at).len() == 243,
{
    lemma_blob_len(at);
}

/// The record of joint `i` is the `i`-th run of 84 bytes of the records.
pub proof fn lemma_record_at(joints: Seq<RDJoint>, name_ptrs: Seq<u32>, i: int)
    requires
        0 <= i < joints.len(),
    ensures
        records_image(joints, name_ptrs).subrange(84 * i, 84 * i + 84) == joint_record(
            joints[i],
            name_ptrs[i],
        ),
    decreases joints.len(),
{
    let n = joints.len() as int;
    let front = records_image(joints.drop_last(), name_ptrs);
    let last = joint_record(joints.last(), name_ptrs[n - 1]);
    lemma_records_image_len(joints.drop_last(), name_ptrs);
    lemma_joint_record_len(joints.last(), name_ptrs[n - 1]);
    if i == n - 1 {
        lemma_subrange_back(front, last);
    } else {
        lemma_record_at(joints.drop_last(), name_ptrs, i);
        lemma_subrange_front(front, last, 84 * i, 84 * i + 84);
    }
}

/// The name of joint `i` stands in the name table as a string block whose text
/// starts at the joint's name offset.
pub proof fn lemma_name_at(joints: Seq<RDJoint>, i: int)
    requires
        0 <= i < joints.len(),
    ensures
        name_offset(joints, i) + name_bytes(joints[i]).len() <= names_image(joints).len(),
        names_image(joints).subrange(
            name_offset(joints, i) - 8,
            name_offset(joints, i) + name_bytes(joints[i]).len(),
        ) == string_block(name_bytes(joints[i])),
    decreases joints.len(),
{
    let n = joints.len() as int;
    let front = names_image(joints.drop_last());
    let last = string_block(name_bytes(joints.last()));
    if i == n - 1 {
        assert(joints.take(i) =~= joints.drop_last());
        lemma_subrange_back(front, last);
    } else {
        assert(joints.take(i) =~= joints.drop_last().take(i));
        lemma_name_at(joints.drop_last(), i);
        lemma_subrange_front(
            front,
            last,
            name_offset(joints, i) - 8,
            name_offset(joints, i) + name_bytes(joints[i]).len(),
        );
    }
}

/// In the skin section of `joints`, placed at `at`: the record of joint `i` is the
/// `i`-th run of 84 bytes behind the 48 bytes of the skin block; the names stand
/// behind the records as string blocks, in the order of the joints; and the first
/// word of the record of joint `i` points to the first byte of the name of joint `i`.
/// The pointer is that byte's offset itself where the offset fits 32 bits.
pub proof fn law_joint_names(joints: Seq<RDJoint>, at: int, i: int)
    requires
        0 <= at,
        0 <= i < joints.len(),
    ensures
        ({
            let skin = skin_image(joints, at);
            let record = 48 + 84 * i;
            let name = 48 + 84 * joints.len() + name_offset(joints, i);
            let name_len = name_bytes(joints[i]).len() as int;
            &&& joint_record(joints[i], ptr32(at + name)).len() == 84
            &&& name + name_len <= skin.len()
            &&& skin.subrange(record, record + 84) == joint_record(joints[i], ptr32(at + name))
            &&& skin.subrange(record, record + 4) == le_u32(ptr32(at + name))
            &&& skin.subrange(name - 8, name + name_len) == string_block(name_bytes(joints[i]))
            &&& i + 1 < joints.len() ==> name_offset(joints, i + 1) == name_offset(joints, i)
                + name_len + 8
            &&& at + name <= u32::MAX ==> ptr32(at + name) == at + name
        }),
{
    let n = joints.len() as int;
    let skin = skin_image(joints, at);
    let ptrs = name_ptrs(joints, at + 48 + 84 * n);
    let head = skin_head_image(joints.len(), at);
    let records = records_image(joints, ptrs);
    let names = names_image(joints);
    let name_len = name_bytes(joints[i]).len() as int;
    assert(head.len() == 48) by {
        reveal(skin_head_image);
    }
    lemma_joint_record_len(joints[i], ptrs[i]);
    lemma_records_image_len(joints, ptrs);
    lemma_record_at(joints, ptrs, i);
    lemma_name_at(joints, i);
    lemma_subrange_middle(head, records, names, 84 * i, 84 * i + 84);
    lemma_record_ptr(joints[i], ptrs[i]);
    lemma_subrange_twice(skin, 48 + 84 * i, 48 + 84 * i + 84, 0, 4);
    lemma_empty_back(head + records + names);
    lemma_subrange_middle(
        head + records,
        names,
        Seq::empty(),
        name_offset(joints, i) - 8,
        name_offset(joints, i) + name_len,
    );
    if i + 1 < n {
        lemma_names_image_step(joints, i);
    }
    lemma_names_image_prefix(joints, i);
}

/// The first word of a joint record is its name pointer.
pub proof fn lemma_record_ptr(joint: RDJoint, name_ptr: u32)
    ensures
        joint_record(joint, name_ptr).subrange(0, 4) == le_u32(name_ptr),
{
    reveal(joint_record);
    assert(joint_record(joint, name_ptr).subrange(0, 4) =~= le_u32(name_ptr));
}

/// The parent field of a joint record stands behind the name pointer and the pose.
/// It is all ones for a joint without parent, and else the parent's index followed by
/// three zero bytes.
pub proof fn law_parent_field(joint: RDJoint, name_ptr: u32)
    ensures
        joint_record(joint, name_ptr).len() == 84,
        joint_record(joint, name_ptr).subrange(32, 36) == parent_field(joint.parent),
        joint.parent == 255 ==> parent_field(joint.parent) == le_u32(0xFFFF_FFFF),
        joint.parent != 255 ==> parent_field(joint.parent) == seq![joint.parent, 0u8, 0u8, 0u8],
{
    reveal(joint_record);
    assert(joint_record(joint, name_ptr).subrange(32, 36) =~= parent_field(joint.parent));
    assert(le_u32(0xFFFF_FFFF) =~= seq![0xFFu8, 0xFFu8, 0xFFu8, 0xFFu8]);
}

} // verus!
