use eq_files::{ByteCursor, WldFile, WldMaterialList, WldTextureBitmapInfo};

const KEY: [u8; 8] = [0x95, 0x3A, 0xC5, 0x2A, 0x95, 0x7A, 0x95, 0x6A];

fn xor_encode(plain: &[u8]) -> Vec<u8> {
    plain.iter().enumerate().map(|(i, b)| b ^ KEY[i % 8]).collect()
}

fn le32(out: &mut Vec<u8>, v: u32) {
    out.extend_from_slice(&v.to_le_bytes());
}

/// A new-world file: header, XOR-encoded name blob, then fragments given
/// as (type, name_ref, payload).
fn build_world(names_plain: &[u8], fragments: &[(u32, i32, Vec<u8>)]) -> Vec<u8> {
    let blob = xor_encode(names_plain);
    let mut b = Vec::new();
    le32(&mut b, 0x54503D02);
    le32(&mut b, 0x1000C800);
    le32(&mut b, fragments.len() as u32);
    le32(&mut b, 0);
    le32(&mut b, 0);
    le32(&mut b, blob.len() as u32);
    le32(&mut b, 0);
    b.extend_from_slice(&blob);
    for (ty, name_ref, payload) in fragments {
        le32(&mut b, payload.len() as u32 + 4);
        le32(&mut b, *ty);
        le32(&mut b, *name_ref as u32);
        b.extend_from_slice(payload);
    }
    b
}

fn material_list_payload(flags: u32, refs: &[u32]) -> Vec<u8> {
    let mut p = Vec::new();
    le32(&mut p, flags);
    le32(&mut p, refs.len() as u32);
    for r in refs {
        le32(&mut p, *r);
    }
    p
}

#[test]
fn framing_numbers_fragments_in_encounter_order() {
    let buf = build_world(
        b"",
        &[
            (49, 0, material_list_payload(0, &[7, 8])),
            (49, 0, material_list_payload(0, &[])),
            (23, 0, Vec::new()),
        ],
    );
    let mut c = ByteCursor::new(buf);
    let w = WldFile::new(&mut c).unwrap();
    assert_eq!(w.header.fragment_count, 3);
    assert_eq!(w.fragments.len(), 3);
    // Payload length is the declared size minus the consumed name field.
    assert_eq!(w.fragments[0].fragment_size, 20);
    assert_eq!(w.fragments[0].contents.len(), 16);
    assert_eq!(w.fragments[2].fragment_size, 4);
    assert_eq!(w.fragments[2].contents.len(), 0);
    // Slots are 1-based in encounter order.
    assert_eq!(w.type_by_index(1), 49);
    assert_eq!(w.type_by_index(2), 49);
    assert_eq!(w.type_by_index(3), 23);
}

#[test]
fn minimal_world_resolves_material_list_by_index() {
    let buf = build_world(b"", &[(49, 0, material_list_payload(0, &[]))]);
    let mut c = ByteCursor::new(buf);
    let w = WldFile::new(&mut c).unwrap();
    let ml: WldMaterialList = w.fragment_by_index(1).unwrap();
    assert_eq!(ml.name, None);
    assert_eq!(ml.flags, 0);
    assert!(ml.material_refs.is_empty());
}

#[test]
fn fragment_names_resolve_through_the_table() {
    // "FOO" starts at offset 0, "BAR" at offset 4.
    let buf = build_world(
        b"FOO\0BAR\0",
        &[
            (49, -1, material_list_payload(0, &[1])),
            (49, -5, material_list_payload(0, &[2, 3])),
        ],
    );
    let mut c = ByteCursor::new(buf);
    let w = WldFile::new(&mut c).unwrap();
    assert_eq!(w.fragments[0].name, Some("FOO".to_string()));
    assert_eq!(w.fragments[1].name, Some("BAR".to_string()));
}

#[test]
fn lookup_by_exact_name_takes_first_match_in_slot_order() {
    let buf = build_world(
        b"FOO\0BAR\0",
        &[
            (49, -1, material_list_payload(0, &[1])),
            (49, -5, material_list_payload(0, &[2, 3])),
        ],
    );
    let mut c = ByteCursor::new(buf);
    let w = WldFile::new(&mut c).unwrap();
    let ml: WldMaterialList = w.fragment_by_name("BAR".to_string()).unwrap();
    assert_eq!(ml.material_refs, vec![2, 3]);
    let none: Option<WldMaterialList> = w.fragment_by_name("BAZ".to_string());
    assert!(none.is_none());
}

#[test]
fn lookup_by_substring_and_by_type() {
    let buf = build_world(
        b"FOO\0BAR\0",
        &[
            (49, -1, material_list_payload(0, &[1])),
            (49, -5, material_list_payload(0, &[2, 3])),
            (23, 0, Vec::new()),
        ],
    );
    let mut c = ByteCursor::new(buf);
    let w = WldFile::new(&mut c).unwrap();
    let hits: Vec<WldMaterialList> = w.fragments_containing_name("AR".to_string());
    assert_eq!(hits.len(), 1);
    assert_eq!(hits[0].material_refs, vec![2, 3]);
    let all: Vec<WldMaterialList> = w.fragments_by_type(49);
    assert_eq!(all.len(), 2);
    assert_eq!(all[0].material_refs, vec![1]);
}

#[test]
fn old_world_frames_carry_no_name_reference() {
    // Old-world framing: the whole declared size is payload.
    let mut b = Vec::new();
    le32(&mut b, 0x54503D02);
    le32(&mut b, 0x00015500);
    le32(&mut b, 1);
    le32(&mut b, 0);
    le32(&mut b, 0);
    le32(&mut b, 0);
    le32(&mut b, 0);
    let payload = material_list_payload(0, &[9]);
    le32(&mut b, payload.len() as u32);
    le32(&mut b, 49);
    b.extend_from_slice(&payload);
    let mut c = ByteCursor::new(b);
    let w = WldFile::new(&mut c).unwrap();
    assert_eq!(w.fragments[0].name_ref, 0);
    assert_eq!(w.fragments[0].name, None);
    assert_eq!(w.fragments[0].contents.len(), 12);
    let ml: WldMaterialList = w.fragment_by_index(1).unwrap();
    assert_eq!(ml.material_refs, vec![9]);
}

#[test]
fn bitmap_info_conditional_fields_follow_the_flag_bits() {
    // animated (0x08) and skip-frames (0x20): both extra fields present.
    let mut p = Vec::new();
    le32(&mut p, 0x28);
    le32(&mut p, 2); // frame count
    le32(&mut p, 1); // current frame
    le32(&mut p, 250); // sleep
    le32(&mut p, 11);
    le32(&mut p, 12);
    let buf = build_world(b"", &[(4, 0, p)]);
    let mut c = ByteCursor::new(buf);
    let w = WldFile::new(&mut c).unwrap();
    let info: WldTextureBitmapInfo = w.fragment_by_index(1).unwrap();
    assert!(info.flags.animated());
    assert!(info.flags.skip_frames());
    assert_eq!(info.texture_current, 1);
    assert_eq!(info.sleep, 250);
    assert_eq!(info.frame_count, 2);
    assert_eq!(info.texture_list, vec![11, 12]);

    // Neither bit set: no conditional fields.
    let mut q = Vec::new();
    le32(&mut q, 0);
    le32(&mut q, 1);
    le32(&mut q, 42);
    let buf2 = build_world(b"", &[(4, 0, q)]);
    let mut c2 = ByteCursor::new(buf2);
    let w2 = WldFile::new(&mut c2).unwrap();
    let info2: WldTextureBitmapInfo = w2.fragment_by_index(1).unwrap();
    assert_eq!(info2.texture_current, 0);
    assert_eq!(info2.sleep, 0);
    assert_eq!(info2.texture_list, vec![42]);
}
