use rdm4lib::error::EncodeError;
use rdm4lib::image::{encoded_len, EXPORT_NAME, MATERIAL_NAME, MODEL_NAME, PROLOGUE, RMP_NAME, TEXTURE_PATH};
use rdm4lib::model::{RDJoint, RDModell, Triangle};
use rdm4lib::rdm_writer::RDWriter;
use rdm4lib::vertex::{
    B4b, C4c, G4b, I4b, N4b, P4h, P4h_N4b_G4b_B4b_T2h, P4h_N4b_G4b_B4b_T2h_C4c,
    P4h_N4b_G4b_B4b_T2h_I4b, P4h_N4b_T2h, P4h_N4b_T2h_C4c, P4h_N4b_T2h_I4b,
    P4h_N4b_T2h_I4b_W4b, T2h, VertexFormat, W4b,
};

fn u32_at(bytes: &[u8], at: usize) -> u32 {
    u32::from_le_bytes([bytes[at], bytes[at + 1], bytes[at + 2], bytes[at + 3]])
}

fn push_u32(out: &mut Vec<u8>, v: u32) {
    out.extend_from_slice(&v.to_le_bytes());
}

fn push_text(out: &mut Vec<u8>, s: &str) {
    push_u32(out, s.len() as u32);
    push_u32(out, 1);
    out.extend_from_slice(s.as_bytes());
}

fn plain_vertex(seed: u16) -> P4h_N4b_G4b_B4b_T2h {
    P4h_N4b_G4b_B4b_T2h {
        p4h: P4h { pos: [seed, seed + 1, seed + 2, 0x3C00] },
        n4b: N4b { normals: [1, 2, 3, 4] },
        g4b: G4b { tangent: [5, 6, 7, 8] },
        b4b: B4b { binormal: [9, 10, 11, 12] },
        t2h: T2h { tex: [0x0102, 0xA0B0] },
    }
}

fn skinned_vertex(seed: u16) -> P4h_N4b_G4b_B4b_T2h_I4b {
    P4h_N4b_G4b_B4b_T2h_I4b {
        p4h: P4h { pos: [seed, 0, 0, 0x3C00] },
        n4b: N4b { normals: [0, 0, 255, 0] },
        g4b: G4b { tangent: [255, 0, 0, 0] },
        b4b: B4b { binormal: [0, 255, 0, 0] },
        t2h: T2h { tex: [0, 0] },
        i4b: I4b { blend_idx: [1, 0, 0, 0] },
    }
}

fn triangle_model() -> RDModell {
    RDModell {
        vertices: VertexFormat::P4h_N4b_G4b_B4b_T2h(vec![
            plain_vertex(0x0100),
            plain_vertex(0x0200),
            plain_vertex(0x0300),
        ]),
        vertices_count: 3,
        vertex_buffer_size: 24,
        triangle_indices: vec![Triangle { indices: [0, 1, 2] }],
        triangles_idx_count: 3,
        joints: None,
    }
}

fn joint(name: &str, parent: u8, x: f32) -> RDJoint {
    RDJoint {
        name: name.to_string(),
        parent,
        inverse_translation: Some([x.to_bits(), 2.0f32.to_bits(), (-3.5f32).to_bits()]),
        rotation: [0, 0, 0, 1.0f32.to_bits()],
    }
}

fn two_joint_model() -> RDModell {
    RDModell {
        vertices: VertexFormat::P4h_N4b_G4b_B4b_T2h_I4b(vec![
            skinned_vertex(1),
            skinned_vertex(2),
            skinned_vertex(3),
            skinned_vertex(4),
        ]),
        vertices_count: 4,
        vertex_buffer_size: 28,
        triangle_indices: vec![Triangle { indices: [0, 1, 2] }, Triangle { indices: [2, 1, 3] }],
        triangles_idx_count: 6,
        joints: Some(vec![joint("root", 255, 1.0), joint("arm_left", 0, -1.0)]),
    }
}

fn sized_model(vertices: usize, triangles: usize, skinned: bool) -> RDModell {
    let mut v = Vec::new();
    for i in 0..vertices {
        v.push(skinned_vertex(i as u16));
    }
    let mut t = Vec::new();
    for i in 0..triangles {
        let a = (i % vertices) as u16;
        t.push(Triangle { indices: [a, a, a] });
    }
    RDModell {
        vertices: VertexFormat::P4h_N4b_G4b_B4b_T2h_I4b(v),
        vertices_count: vertices as u32,
        vertex_buffer_size: 28,
        triangle_indices: t,
        triangles_idx_count: (triangles * 3) as u32,
        joints: if skinned {
            Some(vec![joint("bone_a", 255, 0.0), joint("bone_b", 0, 0.5), joint("bone_c", 1, 0.25)])
        } else {
            None
        },
    }
}

fn encode(model: RDModell) -> Vec<u8> {
    match RDWriter::new(model) {
        Ok(writer) => writer.write_rdm(),
        Err(e) => panic!("encode failed: {:?}", e),
    }
}

/// The header of a model, written down field by field with every pointer given.
fn expected_header(skinned: bool, index_count: u32, ptrs: [u32; 4]) -> Vec<u8> {
    let [vertex, index, blob, skin] = ptrs;
    let mut out = PROLOGUE.to_vec();
    out[32..36].copy_from_slice(&342u32.to_le_bytes());
    out[36..40].copy_from_slice(&blob.to_le_bytes());
    out[40..44].copy_from_slice(&skin.to_le_bytes());
    out[84..88].copy_from_slice(&164u32.to_le_bytes());
    out[88..92].copy_from_slice(&304u32.to_le_bytes());
    push_text(&mut out, EXPORT_NAME);
    push_text(&mut out, RMP_NAME);
    push_u32(&mut out, 1);
    push_u32(&mut out, 92);
    assert_eq!(out.len(), 342);
    push_u32(&mut out, 442);
    push_u32(&mut out, 512);
    push_u32(&mut out, if skinned { 648 } else { 632 });
    push_u32(&mut out, vertex);
    push_u32(&mut out, index);
    push_u32(&mut out, if skinned { 676 } else { 660 });
    push_u32(&mut out, 0);
    out.extend_from_slice(&[
        0x00, 0x80, 0xF8, 0xBF, 0x00, 0x40, 0x22, 0xC0, 0x00, 0x60, 0xF7, 0xBF, 0x00, 0x80, 0xFB,
        0x3F, 0x00, 0xC0, 0xF2, 0x3F, 0x00, 0x80, 0xFC, 0x3F,
    ]);
    out.extend_from_slice(&[0u8; 40]);
    assert_eq!(out.len(), 434);
    push_u32(&mut out, 1);
    push_u32(&mut out, 28);
    push_u32(&mut out, 478);
    out.extend_from_slice(&[0u8; 24]);
    push_text(&mut out, MODEL_NAME);
    assert_eq!(out.len(), 504);
    push_u32(&mut out, 1);
    push_u32(&mut out, 24);
    push_u32(&mut out, 544);
    push_u32(&mut out, if skinned { 1 } else { 0 });
    out.extend_from_slice(&[0u8; 16]);
    push_u32(&mut out, if skinned { 6 } else { 5 });
    push_u32(&mut out, 16);
    let mut descriptors: Vec<[u32; 4]> =
        vec![[0, 6, 0, 4], [1, 5, 6, 1], [2, 5, 6, 1], [3, 5, 6, 1], [4, 6, 0, 2]];
    if skinned {
        descriptors.push([7, 5, 0, 1]);
    }
    for d in descriptors {
        for word in d {
            push_u32(&mut out, word);
        }
    }
    push_u32(&mut out, 1);
    push_u32(&mut out, 20);
    push_u32(&mut out, 3);
    out.extend_from_slice(&[0u8; 16]);
    push_u32(&mut out, 1);
    push_u32(&mut out, 28);
    push_u32(&mut out, 0);
    push_u32(&mut out, index_count);
    out.extend_from_slice(&[0u8; 20]);
    out
}

/// The material block placed at `at`, written down field by field.
fn expected_blob(at: u32) -> Vec<u8> {
    let mut out = Vec::new();
    push_u32(&mut out, 1);
    push_u32(&mut out, 28);
    push_u32(&mut out, at + 44);
    out.extend_from_slice(&[0u8; 24]);
    push_u32(&mut out, 1);
    push_u32(&mut out, 48);
    push_u32(&mut out, at + 100);
    push_u32(&mut out, at + 135);
    out.extend_from_slice(&[0u8; 40]);
    push_text(&mut out, MATERIAL_NAME);
    push_text(&mut out, TEXTURE_PATH);
    out
}

#[test]
fn minimal_unskinned_model_has_the_stated_lengths() {
    let bytes = encode(triangle_model());
    // No descriptor of blend indices: the header and meta region is 688 bytes long.
    assert_eq!(bytes.len(), 688 + 8 + 72 + 8 + 6 + 243);
    assert_eq!(bytes.len(), 1025);
    // Vertex section: count 3, stride 24, 72 bytes.
    assert_eq!(u32_at(&bytes, 688), 3);
    assert_eq!(u32_at(&bytes, 692), 24);
    // Index section: count 3, stride 2, 6 bytes.
    assert_eq!(u32_at(&bytes, 768), 3);
    assert_eq!(u32_at(&bytes, 772), 2);
    assert_eq!(&bytes[776..782], &[0, 0, 1, 0, 2, 0]);
    // No skin section: the skin slot is zero, and the material block ends the image.
    assert_eq!(u32_at(&bytes, 40), 0);
    assert_eq!(782 + 243, bytes.len());
}

#[test]
fn minimal_unskinned_model_is_encoded_byte_for_byte() {
    let bytes = encode(triangle_model());
    let mut expected = expected_header(false, 3, [696, 776, 790, 0]);
    assert_eq!(expected.len(), 688);
    push_u32(&mut expected, 3);
    push_u32(&mut expected, 24);
    for seed in [0x0100u16, 0x0200, 0x0300] {
        for half in [seed, seed + 1, seed + 2, 0x3C00] {
            expected.extend_from_slice(&half.to_le_bytes());
        }
        expected.extend_from_slice(&[1, 2, 3, 4, 5, 6, 7, 8, 9, 10, 11, 12]);
        expected.extend_from_slice(&[0x02, 0x01, 0xB0, 0xA0]);
    }
    push_u32(&mut expected, 3);
    push_u32(&mut expected, 2);
    expected.extend_from_slice(&[0, 0, 1, 0, 2, 0]);
    expected.extend_from_slice(&expected_blob(782));
    assert_eq!(bytes, expected);
}

#[test]
fn header_starts_with_magic_and_points_into_itself() {
    let bytes = encode(triangle_model());
    assert_eq!(&bytes[0..4], b"RDM\x01");
    let path = u32_at(&bytes, 84) as usize;
    assert_eq!(path, 164);
    assert_eq!(u32_at(&bytes, path - 8), 132);
    assert_eq!(u32_at(&bytes, path - 4), 1);
    assert_eq!(&bytes[path..path + 132], EXPORT_NAME.as_bytes());
    let file = u32_at(&bytes, 88) as usize;
    assert_eq!(file, 304);
    assert_eq!(u32_at(&bytes, file - 8), 30);
    assert_eq!(&bytes[file..file + 30], RMP_NAME.as_bytes());
    let meta = u32_at(&bytes, 32) as usize;
    assert_eq!(meta, 342);
    assert_eq!(u32_at(&bytes, meta - 8), 1);
    assert_eq!(u32_at(&bytes, meta - 4), 92);
    // The blocks that the meta table points to.
    let format = u32_at(&bytes, meta + 4) as usize;
    assert_eq!(u32_at(&bytes, format - 4), 24);
    let class = u32_at(&bytes, meta + 8) as usize;
    assert_eq!(u32_at(&bytes, class - 4), 20);
    assert_eq!(u32_at(&bytes, class), 3);
    let count = u32_at(&bytes, meta + 20) as usize;
    assert_eq!(u32_at(&bytes, count - 4), 28);
    assert_eq!(u32_at(&bytes, count + 4), 3);
    // The later sections.
    let vertex = u32_at(&bytes, meta + 12) as usize;
    assert_eq!(vertex, 696);
    let index = u32_at(&bytes, meta + 16) as usize;
    assert_eq!(index, 776);
    let blob = u32_at(&bytes, 36) as usize;
    assert_eq!(blob, 790);
    assert_eq!(u32_at(&bytes, blob - 4), 28);
}

#[test]
fn header_is_704_bytes_with_skin_and_688_without() {
    let plain = encode(sized_model(5, 2, false));
    let skinned = encode(sized_model(5, 2, true));
    // The vertex data starts eight bytes behind the header.
    assert_eq!(u32_at(&plain, 342 + 12), 688 + 8);
    assert_eq!(u32_at(&skinned, 342 + 12), 704 + 8);
    assert_eq!(&plain[..688], &expected_header(false, 6, [696, 696 + 140 + 8, 856 + 8, 0])[..]);
    let skin_at = 704 + 8 + 140 + 8 + 12 + 243;
    assert_eq!(
        &skinned[..704],
        &expected_header(true, 6, [712, 712 + 140 + 8, 872 + 8, skin_at + 8])[..]
    );
    // Six descriptors with skin, five without.
    assert_eq!(u32_at(&plain, 536), 5);
    assert_eq!(u32_at(&skinned, 536), 6);
    assert_eq!(u32_at(&skinned, 544 + 5 * 16), 7);
}

#[test]
fn blob_is_243_bytes_for_every_model() {
    for (vertices, triangles) in [(1usize, 0usize), (3, 1), (40, 17), (255, 300)] {
        let bytes = encode(sized_model(vertices, triangles, false));
        let blob_at = 688 + 8 + 28 * vertices + 8 + 6 * triangles;
        assert_eq!(bytes.len(), blob_at + 243);
        assert_eq!(u32_at(&bytes, 36) as usize, blob_at + 8);
        assert_eq!(&bytes[blob_at..], &expected_blob(blob_at as u32)[..]);

        let bytes = encode(sized_model(vertices, triangles, true));
        let blob_at = 704 + 8 + 28 * vertices + 8 + 6 * triangles;
        assert_eq!(u32_at(&bytes, 36) as usize, blob_at + 8);
        assert_eq!(u32_at(&bytes, 40) as usize, blob_at + 243 + 8);
        assert_eq!(&bytes[blob_at..blob_at + 243], &expected_blob(blob_at as u32)[..]);
    }
}

#[test]
fn index_section_takes_six_bytes_for_each_triangle() {
    let model = RDModell {
        triangle_indices: vec![
            Triangle { indices: [0x0102, 0x0304, 0x0506] },
            Triangle { indices: [2, 1, 0] },
            Triangle { indices: [0xFFFF, 0, 0x8000] },
        ],
        triangles_idx_count: 9,
        ..triangle_model()
    };
    let bytes = encode(model);
    assert_eq!(bytes.len(), 688 + 80 + 8 + 2 * 3 * 3 + 243);
    let index = u32_at(&bytes, 342 + 16) as usize;
    assert_eq!(index, 776);
    assert_eq!(u32_at(&bytes, index - 8), 9);
    assert_eq!(u32_at(&bytes, index - 4), 2);
    assert_eq!(
        &bytes[index..index + 18],
        &[2, 1, 4, 3, 6, 5, 2, 0, 1, 0, 0, 0, 0xFF, 0xFF, 0, 0, 0, 0x80]
    );
}

#[test]
fn each_layout_takes_the_sum_of_its_attribute_sizes() {
    let p4h = P4h { pos: [1, 2, 3, 4] };
    let n4b = N4b { normals: [10, 11, 12, 13] };
    let g4b = G4b { tangent: [20, 21, 22, 23] };
    let b4b = B4b { binormal: [30, 31, 32, 33] };
    let t2h = T2h { tex: [0x4142, 0x4344] };
    let i4b = I4b { blend_idx: [50, 51, 52, 53] };
    let w4b = W4b { blend_weight: [60, 61, 62, 63] };
    let c4c = C4c { unknown: [70, 71, 72, 73] };
    let p = [1u8, 0, 2, 0, 3, 0, 4, 0];
    let n = [10u8, 11, 12, 13];
    let g = [20u8, 21, 22, 23];
    let b = [30u8, 31, 32, 33];
    let t = [0x42u8, 0x41, 0x44, 0x43];
    let i = [50u8, 51, 52, 53];
    let w = [60u8, 61, 62, 63];
    let c = [70u8, 71, 72, 73];
    let cases: Vec<(VertexFormat, u32, Vec<u8>)> = vec![
        (VertexFormat::P4h(vec![p4h]), 8, p.to_vec()),
        (
            VertexFormat::P4h_N4b_T2h(vec![P4h_N4b_T2h { p4h, n4b, t2h }]),
            16,
            [&p[..], &n, &t].concat(),
        ),
        (
            VertexFormat::P4h_N4b_T2h_I4b(vec![P4h_N4b_T2h_I4b { p4h, n4b, t2h, i4b }]),
            20,
            [&p[..], &n, &t, &i].concat(),
        ),
        (
            VertexFormat::P4h_N4b_G4b_B4b_T2h(vec![P4h_N4b_G4b_B4b_T2h { p4h, n4b, g4b, b4b, t2h }]),
            24,
            [&p[..], &n, &g, &b, &t].concat(),
        ),
        (
            VertexFormat::P4h_N4b_T2h_I4b_W4b(vec![P4h_N4b_T2h_I4b_W4b { p4h, n4b, t2h, i4b, w4b }]),
            24,
            [&p[..], &n, &t, &i, &w].concat(),
        ),
        (
            VertexFormat::P4h_N4b_G4b_B4b_T2h_I4b(vec![P4h_N4b_G4b_B4b_T2h_I4b {
                p4h,
                n4b,
                g4b,
                b4b,
                t2h,
                i4b,
            }]),
            28,
            [&p[..], &n, &g, &b, &t, &i].concat(),
        ),
        (
            VertexFormat::P4h_N4b_T2h_C4c(vec![P4h_N4b_T2h_C4c { p4h, n4b, t2h, c4c }]),
            20,
            [&p[..], &n, &t, &c].concat(),
        ),
        (
            VertexFormat::P4h_N4b_G4b_B4b_T2h_C4c(vec![P4h_N4b_G4b_B4b_T2h_C4c {
                p4h,
                n4b,
                g4b,
                b4b,
                t2h,
                c4c,
            }]),
            28,
            [&p[..], &n, &g, &b, &t, &c].concat(),
        ),
    ];
    for (vertices, stride, wire) in cases {
        assert_eq!(vertices.stride(), stride);
        assert_eq!(vertices.len(), 1);
        let model = RDModell {
            vertices,
            vertices_count: 1,
            vertex_buffer_size: stride,
            ..triangle_model()
        };
        let bytes = encode(model);
        assert_eq!(bytes.len(), 688 + 8 + stride as usize + 14 + 243);
        assert_eq!(u32_at(&bytes, 688), 1);
        assert_eq!(u32_at(&bytes, 692), stride);
        assert_eq!(&bytes[696..696 + stride as usize], &wire[..]);
    }
}

#[test]
fn vertex_section_is_count_times_stride() {
    for count in [0usize, 1, 7, 100] {
        let model = sized_model(count.max(1), 0, false);
        let model = if count == 0 {
            RDModell {
                vertices: VertexFormat::P4h_N4b_G4b_B4b_T2h_I4b(vec![]),
                vertices_count: 0,
                ..model
            }
        } else {
            model
        };
        let bytes = encode(model);
        assert_eq!(bytes.len(), 688 + 8 + count * 28 + 8 + 243);
    }
}

#[test]
fn declared_stride_that_disagrees_is_a_layout_mismatch() {
    let model = RDModell { vertex_buffer_size: 28, ..triangle_model() };
    assert_eq!(RDWriter::new(model).err(), Some(EncodeError::LayoutMismatch));
    let model = RDModell { vertices_count: 4, ..triangle_model() };
    assert_eq!(RDWriter::new(model).err(), Some(EncodeError::LayoutMismatch));
    // The product decides: 6 times 12 is 72 as well.
    let model = RDModell { vertices_count: 6, vertex_buffer_size: 12, ..triangle_model() };
    assert!(RDWriter::new(model).is_ok());
}

#[test]
fn layout_mismatch_comes_before_a_missing_inverse() {
    let mut model = two_joint_model();
    model.vertex_buffer_size = 24;
    if let Some(joints) = model.joints.as_mut() {
        joints[1].inverse_translation = None;
    }
    assert_eq!(RDWriter::new(model).err(), Some(EncodeError::LayoutMismatch));
}

#[test]
fn joint_without_inverse_is_a_non_invertible_bind_pose() {
    let mut model = two_joint_model();
    if let Some(joints) = model.joints.as_mut() {
        joints[1].inverse_translation = None;
    }
    assert_eq!(RDWriter::new(model).err(), Some(EncodeError::NonInvertibleBindPose));
}

#[test]
fn skin_section_for_a_model_without_joints_is_missing_skin_data() {
    let mut writer = RDWriter::new(triangle_model()).unwrap();
    assert_eq!(writer.put_skin(), Err(EncodeError::MissingSkinData));
    // Nothing was written.
    assert_eq!(writer.write_rdm(), encode(triangle_model()));
}

#[test]
fn two_joints_give_two_records_and_two_names() {
    let bytes = encode(two_joint_model());
    let skin_at = 704 + 8 + 4 * 28 + 8 + 12 + 243;
    assert_eq!(bytes.len(), skin_at + 48 + 2 * 84 + (8 + 4) + (8 + 8));
    // The skin block.
    assert_eq!(u32_at(&bytes, 40) as usize, skin_at + 8);
    assert_eq!(u32_at(&bytes, skin_at), 1);
    assert_eq!(u32_at(&bytes, skin_at + 4), 32);
    assert_eq!(u32_at(&bytes, skin_at + 8) as usize, skin_at + 48);
    assert_eq!(&bytes[skin_at + 12..skin_at + 40], &[0u8; 28]);
    assert_eq!(u32_at(&bytes, skin_at + 40), 2);
    assert_eq!(u32_at(&bytes, skin_at + 44), 84);
    // The records.
    let first = skin_at + 48;
    let second = first + 84;
    let names = second + 84;
    assert_eq!(u32_at(&bytes, first + 32), 0xFFFF_FFFF);
    assert_eq!(u32_at(&bytes, second + 32), 0x0000_0000);
    assert_eq!(&bytes[second + 32..second + 36], &[0, 0, 0, 0]);
    assert_eq!(u32_at(&bytes, first + 4), 1.0f32.to_bits());
    assert_eq!(u32_at(&bytes, first + 8), 2.0f32.to_bits());
    assert_eq!(u32_at(&bytes, first + 12), (-3.5f32).to_bits());
    assert_eq!(u32_at(&bytes, second + 4), (-1.0f32).to_bits());
    assert_eq!(u32_at(&bytes, first + 16), 0);
    assert_eq!(u32_at(&bytes, first + 28), 1.0f32.to_bits());
    assert_eq!(&bytes[first + 36..first + 84], &[0u8; 48]);
    assert_eq!(&bytes[second + 36..second + 84], &[0u8; 48]);
    // The names, in the order of the joints, and the pointers to them.
    assert_eq!(u32_at(&bytes, names), 4);
    assert_eq!(u32_at(&bytes, names + 4), 1);
    assert_eq!(&bytes[names + 8..names + 12], b"root");
    assert_eq!(u32_at(&bytes, names + 12), 8);
    assert_eq!(u32_at(&bytes, names + 16), 1);
    assert_eq!(&bytes[names + 20..names + 28], b"arm_left");
    assert_eq!(u32_at(&bytes, first) as usize, names + 8);
    assert_eq!(u32_at(&bytes, second) as usize, names + 20);
}

#[test]
fn parent_field_is_all_ones_or_the_index_and_three_zeros() {
    let mut joints = Vec::new();
    for parent in [255u8, 0, 1, 2, 254, 7] {
        joints.push(joint("j", parent, 0.0));
    }
    let model = RDModell { joints: Some(joints), ..two_joint_model() };
    let bytes = encode(model);
    let first = u32_at(&bytes, u32_at(&bytes, 40) as usize) as usize;
    assert_eq!(&bytes[first + 32..first + 36], &[255, 255, 255, 255]);
    assert_eq!(&bytes[first + 84 + 32..first + 84 + 36], &[0, 0, 0, 0]);
    assert_eq!(&bytes[first + 2 * 84 + 32..first + 2 * 84 + 36], &[1, 0, 0, 0]);
    assert_eq!(&bytes[first + 3 * 84 + 32..first + 3 * 84 + 36], &[2, 0, 0, 0]);
    assert_eq!(&bytes[first + 4 * 84 + 32..first + 4 * 84 + 36], &[254, 0, 0, 0]);
    assert_eq!(&bytes[first + 5 * 84 + 32..first + 5 * 84 + 36], &[7, 0, 0, 0]);
}

#[test]
fn every_name_pointer_refers_to_its_name() {
    let names = ["", "a", "pelvis", "spine_01", "höhe", "x".repeat(300).as_str()].map(String::from);
    let mut joints = Vec::new();
    for (i, name) in names.iter().enumerate() {
        let parent = if i == 0 { 255 } else { (i - 1) as u8 };
        joints.push(joint(name, parent, i as f32));
    }
    let model = RDModell { joints: Some(joints), ..two_joint_model() };
    let bytes = encode(model);
    let first = u32_at(&bytes, u32_at(&bytes, 40) as usize) as usize;
    let mut entry = first + 84 * names.len();
    for (i, name) in names.iter().enumerate() {
        let pointer = u32_at(&bytes, first + 84 * i) as usize;
        assert_eq!(pointer, entry + 8);
        assert_eq!(u32_at(&bytes, pointer - 8) as usize, name.len());
        assert_eq!(u32_at(&bytes, pointer - 4), 1);
        assert_eq!(&bytes[pointer..pointer + name.len()], name.as_bytes());
        entry = pointer + name.len();
    }
    assert_eq!(entry, bytes.len());
}

#[test]
fn model_with_an_empty_skeleton_still_has_a_skin_block() {
    let model = RDModell { joints: Some(vec![]), ..two_joint_model() };
    let bytes = encode(model);
    let skin_at = 704 + 8 + 4 * 28 + 8 + 12 + 243;
    assert_eq!(bytes.len(), skin_at + 48);
    assert_eq!(u32_at(&bytes, skin_at + 40), 0);
    assert_eq!(u32_at(&bytes, skin_at + 44), 84);
}

#[test]
fn encoded_len_is_the_length_of_the_image() {
    for model in [triangle_model(), two_joint_model(), sized_model(9, 4, true), sized_model(9, 4, false)] {
        let expected = encoded_len(&model);
        let bytes = encode(model);
        assert_eq!(expected, Some(bytes.len()));
    }
    assert_eq!(encoded_len(&triangle_model()), Some(1025));
}

#[test]
fn stages_after_the_header_append_and_fill_their_slot() {
    let mut writer = RDWriter::new(triangle_model()).unwrap();
    let before = encode(triangle_model());
    writer.put_blob();
    let bytes = writer.write_rdm();
    assert_eq!(bytes.len(), before.len() + 243);
    assert_eq!(u32_at(&bytes, 36) as usize, before.len() + 8);
    assert_eq!(&bytes[before.len()..], &expected_blob(before.len() as u32)[..]);
    assert_eq!(&bytes[..36], &before[..36]);
    assert_eq!(&bytes[40..before.len()], &before[40..]);

    let mut writer = RDWriter::new(triangle_model()).unwrap();
    writer.put_indexed_triangle_list();
    let bytes = writer.write_rdm();
    assert_eq!(bytes.len(), before.len() + 14);
    assert_eq!(u32_at(&bytes, 342 + 16) as usize, before.len() + 8);
    assert_eq!(&bytes[before.len()..], &[3, 0, 0, 0, 2, 0, 0, 0, 0, 0, 1, 0, 2, 0]);

    let mut writer = RDWriter::new(triangle_model()).unwrap();
    assert_eq!(writer.put_vertex_buffer(), Ok(()));
    let bytes = writer.write_rdm();
    assert_eq!(bytes.len(), before.len() + 80);
    assert_eq!(u32_at(&bytes, 342 + 12) as usize, before.len() + 8);
    assert_eq!(&bytes[before.len() + 8..], &before[696..768]);
}

#[test]
fn try_new_encodes_what_fits() {
    let bytes = match RDWriter::try_new(two_joint_model()) {
        Some(Ok(writer)) => writer.write_rdm(),
        _ => panic!("a small model fits"),
    };
    assert_eq!(bytes, encode(two_joint_model()));
    let model = RDModell { vertex_buffer_size: 1, ..triangle_model() };
    assert_eq!(
        RDWriter::try_new(model).map(|outcome| outcome.err()),
        Some(Some(EncodeError::LayoutMismatch))
    );
}

#[test]
fn has_skin_tells_whether_joints_are_there() {
    assert!(!triangle_model().has_skin());
    assert!(two_joint_model().has_skin());
}

// The four models below stand for the files that an importer would have read: they
// have the sizes of those files, and are built in memory.

#[test]
fn exp_rdm_inv_basalt_crusher_others_lod0() {
    let rdm = sized_model(2615, 1500, true);
    assert_eq!(rdm.vertices_count, 2615);

    assert_eq!(rdm.triangles_idx_count as usize, rdm.triangle_indices.len() * 3);

    let exp_rdm = RDWriter::new(rdm).unwrap();
    let bytes = exp_rdm.write_rdm();
    assert_eq!(u32_at(&bytes, 704), 2615);
    assert_eq!(bytes.len(), 704 + 8 + 2615 * 28 + 8 + 1500 * 6 + 243 + 48 + 3 * 84 + 3 * 14);
}

#[test]
fn read_gltf() {
    let rdm = sized_model(5184, 1728, true);
    assert_eq!(rdm.vertices_count, 5184);
    assert_eq!(rdm.triangles_idx_count as usize, rdm.triangle_indices.len() * 3);

    let exp_rdm = RDWriter::new(rdm).unwrap();
    let bytes = exp_rdm.write_rdm();
    assert_eq!(u32_at(&bytes, 704), 5184);
    assert_eq!(u32_at(&bytes, 704 + 8 + 5184 * 28), 5184);
}

#[test]
fn read_gltf_no_skin() {
    let rdm = sized_model(5184, 1728, false);
    assert_eq!(rdm.vertices_count, 5184);
    assert_eq!(rdm.triangles_idx_count as usize, rdm.triangle_indices.len() * 3);

    let exp_rdm = RDWriter::new(rdm).unwrap();
    let bytes = exp_rdm.write_rdm();
    assert_eq!(bytes.len(), 688 + 8 + 5184 * 28 + 8 + 1728 * 6 + 243);
}

#[test]
fn read_gltf_no_skin2() {
    let rdm = triangle_model();
    assert_eq!(rdm.vertices_count, 3);
    assert_eq!(rdm.triangles_idx_count as usize, rdm.triangle_indices.len() * 3);

    let exp_rdm = RDWriter::new(rdm).unwrap();
    let bytes = exp_rdm.write_rdm();
    assert_eq!(bytes.len(), 1025);
}
