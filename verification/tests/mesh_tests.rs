use eq_files::{ByteCursor, WldFile, WldMesh};

fn le16(out: &mut Vec<u8>, v: u16) {
    out.extend_from_slice(&v.to_le_bytes());
}

fn le32(out: &mut Vec<u8>, v: u32) {
    out.extend_from_slice(&v.to_le_bytes());
}

fn build_world(version: u32, fragments: &[(u32, i32, Vec<u8>)]) -> Vec<u8> {
    let mut b = Vec::new();
    le32(&mut b, 0x54503D02);
    le32(&mut b, version);
    le32(&mut b, fragments.len() as u32);
    le32(&mut b, 0);
    le32(&mut b, 0);
    le32(&mut b, 0);
    le32(&mut b, 0);
    for (ty, name_ref, payload) in fragments {
        le32(&mut b, payload.len() as u32 + 4);
        le32(&mut b, *ty);
        le32(&mut b, *name_ref as u32);
        b.extend_from_slice(payload);
    }
    b
}

/// A mesh preamble with the given nine element counts and scale shift.
fn preamble(counts: [u16; 9], shift: u16) -> Vec<u8> {
    let mut p = Vec::new();
    le32(&mut p, 0); // flags
    le32(&mut p, 31); // material list reference
    le32(&mut p, 0); // animation reference
    le32(&mut p, 0);
    le32(&mut p, 0);
    for w in [0x3F800000u32, 0x40000000, 0x40400000] {
        le32(&mut p, w); // centre bit patterns
    }
    le32(&mut p, 0);
    le32(&mut p, 0);
    le32(&mut p, 0);
    le32(&mut p, 0x42C80000); // max distance bit pattern
    for _ in 0..6 {
        le32(&mut p, 0); // min and max bounds
    }
    for cnt in counts {
        le16(&mut p, cnt);
    }
    le16(&mut p, shift);
    p
}

fn sample_mesh_payload() -> Vec<u8> {
    // 2 positions, 1 uv, 1 normal, 1 colour, 1 triangle, 1 bone group,
    // 1 face material group, 1 vertex material group, 2 mesh-ops.
    let mut p = preamble([2, 1, 1, 1, 1, 1, 1, 1, 2], 2);
    for v in [100i16, -200, 300, 4, 5, -6] {
        p.extend_from_slice(&v.to_le_bytes());
    }
    le32(&mut p, 512u32); // u, new-world 32-bit
    le32(&mut p, (-256i32) as u32); // v
    p.extend_from_slice(&[10u8, (-20i8) as u8, 30u8]); // one normal
    p.extend_from_slice(&[1, 2, 3, 4]); // one colour
    for v in [0u16, 1, 2, 7] {
        le16(&mut p, v); // one triangle
    }
    le16(&mut p, 2); // bone group: count
    le16(&mut p, 0); // bone group: target
    le16(&mut p, 1); // face material group: count
    le16(&mut p, 5); // face material group: target
    le16(&mut p, 2); // vertex material group: count
    le16(&mut p, 9); // vertex material group: target
    // Mesh-op of type 1: two vertex indices.
    le16(&mut p, 7);
    le16(&mut p, 8);
    p.push(1); // param
    p.push(1); // type
    // Mesh-op of type 4: a float offset bit pattern instead.
    le16(&mut p, 0x0000);
    le16(&mut p, 0x3F80);
    p.push(0);
    p.push(4);
    p
}

#[test]
fn mesh_sections_decode_in_order() {
    let buf = build_world(0x1000C800, &[(54, 0, sample_mesh_payload())]);
    let mut c = ByteCursor::new(buf);
    let w = WldFile::new(&mut c).unwrap();
    let m: WldMesh = w.fragment_by_index(1).unwrap();
    assert_eq!(m.material_list_ref, 31);
    assert_eq!(m.centre_bits, (0x3F800000, 0x40000000, 0x40400000));
    assert_eq!(m.max_distance_bits, 0x42C80000);
    assert_eq!(m.vertex_count, 2);
    assert_eq!(m.scale_shift, 2);
    assert_eq!(m.position, vec![(100, -200, 300), (4, 5, -6)]);
    assert_eq!(m.uv, vec![(512, -256)]);
    assert_eq!(m.normal, vec![(10, -20, 30)]);
    assert_eq!(m.color, vec![(1, 2, 3, 4)]);
    assert_eq!(m.triangle, vec![(0, 1, 2, 7)]);
    // Run lengths become cumulative start offsets.
    assert_eq!(m.vertex_bone_group, vec![(0, 2, 0)]);
    assert_eq!(m.face_material_group, vec![(0, 1, 5)]);
    assert_eq!(m.vertex_material_group, vec![(0, 2, 9)]);
    assert_eq!(m.mesh_op.len(), 2);
    assert_eq!(m.mesh_op[0].type_field, 1);
    assert_eq!(m.mesh_op[0].index1, Some(7));
    assert_eq!(m.mesh_op[0].index2, Some(8));
    assert_eq!(m.mesh_op[0].offset_bits, None);
    assert_eq!(m.mesh_op[1].type_field, 4);
    assert_eq!(m.mesh_op[1].index1, None);
    assert_eq!(m.mesh_op[1].offset_bits, Some(0x3F800000));
}

#[test]
fn mesh_decode_is_idempotent() {
    let buf = build_world(0x1000C800, &[(54, 0, sample_mesh_payload())]);
    let mut c1 = ByteCursor::new(buf.clone());
    let w1 = WldFile::new(&mut c1).unwrap();
    let a: WldMesh = w1.fragment_by_index(1).unwrap();
    let b: WldMesh = w1.fragment_by_index(1).unwrap();
    assert_eq!(a, b);
    // A second pass over the same bytes agrees too.
    let mut c2 = ByteCursor::new(buf);
    let w2 = WldFile::new(&mut c2).unwrap();
    let d: WldMesh = w2.fragment_by_index(1).unwrap();
    assert_eq!(a, d);
}

#[test]
fn old_world_texture_coordinates_are_sixteen_bit() {
    let mut p = preamble([0, 2, 0, 0, 0, 0, 0, 0, 0], 0);
    for v in [256i16, -512, 3, 4] {
        p.extend_from_slice(&v.to_le_bytes());
    }
    let mut b = Vec::new();
    le32(&mut b, 0x54503D02);
    le32(&mut b, 0x00015500);
    le32(&mut b, 1);
    le32(&mut b, 0);
    le32(&mut b, 0);
    le32(&mut b, 0);
    le32(&mut b, 0);
    le32(&mut b, p.len() as u32);
    le32(&mut b, 54);
    b.extend_from_slice(&p);
    let mut c = ByteCursor::new(b);
    let w = WldFile::new(&mut c).unwrap();
    let m: WldMesh = w.fragment_by_index(1).unwrap();
    assert_eq!(m.uv, vec![(256, -512), (3, 4)]);
}

#[test]
fn truncated_mesh_fails_but_other_fragments_still_decode() {
    let mut good = preamble([0, 0, 0, 0, 0, 0, 0, 0, 0], 0);
    good.truncate(good.len()); // complete, empty sections
    let mut short = preamble([5, 0, 0, 0, 0, 0, 0, 0, 0], 0);
    short.truncate(short.len()); // declares 5 vertices but carries none
    let buf = build_world(0x1000C800, &[(54, 0, short), (54, 0, good)]);
    let mut c = ByteCursor::new(buf);
    let w = WldFile::new(&mut c).unwrap();
    let bad: Option<WldMesh> = w.fragment_by_index(1);
    assert!(bad.is_none());
    let ok: Option<WldMesh> = w.fragment_by_index(2);
    assert!(ok.is_some());
}
