use eq_files::{
    ByteCursor, WldFile, WldMaterial, WldModel, WldSkeletonPieceTrack, WldSkeletonPieceTrackDef,
    WldTexture, WldTextureBitmapName,
};

const KEY: [u8; 8] = [0x95, 0x3A, 0xC5, 0x2A, 0x95, 0x7A, 0x95, 0x6A];

fn xor_encode(plain: &[u8]) -> Vec<u8> {
    plain.iter().enumerate().map(|(i, b)| b ^ KEY[i % 8]).collect()
}

fn le16(out: &mut Vec<u8>, v: u16) {
    out.extend_from_slice(&v.to_le_bytes());
}

fn le32(out: &mut Vec<u8>, v: u32) {
    out.extend_from_slice(&v.to_le_bytes());
}

fn build_world(names_plain: &[u8], fragments: &[(u32, i32, Vec<u8>)]) -> Vec<u8> {
    let blob = xor_encode(names_plain);
    let mut b = Vec::new();
    le32(&mut b, 0x54503D02);
    le32(&mut b, 0x1000C800);
    le32(&mut b, fragments.len() as u32);
    le32(&mut b, 0);
    le32(&mut b, 0);
    le32(&mut b, blob.len() as u32);
    le32(&mut b, 0);
    b.extend_from_slice(&blob);
    for (ty, name_ref, payload) in fragments {
        le32(&mut b, payload.len() as u32 + 4);
        le32(&mut b, *ty);
        le32(&mut b, *name_ref as u32);
        b.extend_from_slice(payload);
    }
    b
}

#[test]
fn material_masks_the_render_method_top_bit() {
    let mut p = Vec::new();
    le32(&mut p, 0); // flags: no pairs
    le32(&mut p, 0x8000_0003);
    le32(&mut p, 0x00FF00FF); // rgb pen
    le32(&mut p, 0x3F80_0000); // brightness bit pattern
    le32(&mut p, 0x3F00_0000); // scaled ambient bit pattern
    le32(&mut p, 6); // texture list reference
    let buf = build_world(b"", &[(48, 0, p.clone())]);
    let mut c = ByteCursor::new(buf);
    let w = WldFile::new(&mut c).unwrap();
    let m: WldMaterial = w.fragment_by_index(1).unwrap();
    assert_eq!(m.render_method, 3);
    assert_eq!(m.rgb_pen, 0x00FF00FF);
    assert_eq!(m.brightness_bits, 0x3F80_0000);
    assert_eq!(m.scaled_ambient_bits, 0x3F00_0000);
    assert_eq!(m.texture_list_ref, 6);
    assert_eq!(m.pairs, None);

    // The legacy revision keeps the word verbatim.
    let buf2 = build_world(b"", &[(48, 0, p)]);
    let mut c2 = ByteCursor::new(buf2);
    let w2 = WldFile::new(&mut c2).unwrap();
    let t: WldTexture = w2.fragment_by_index(1).unwrap();
    assert_eq!(t.render_method, 0x8000_0003);
}

#[test]
fn material_pairs_follow_flag_bit_zero() {
    let mut p = Vec::new();
    le32(&mut p, 1);
    le32(&mut p, 0);
    le32(&mut p, 0);
    le32(&mut p, 0);
    le32(&mut p, 0);
    le32(&mut p, 0);
    le32(&mut p, 77);
    le32(&mut p, 88);
    let buf = build_world(b"", &[(48, 0, p)]);
    let mut c = ByteCursor::new(buf);
    let w = WldFile::new(&mut c).unwrap();
    let m: WldMaterial = w.fragment_by_index(1).unwrap();
    assert_eq!(m.pairs, Some((77, 88)));
}

#[test]
fn texture_filename_count_is_stored_one_low() {
    // Stored count 1 means two strings.
    let mut p = Vec::new();
    le32(&mut p, 1);
    let a = xor_encode(b"ONE.BMP\0");
    le16(&mut p, a.len() as u16);
    p.extend_from_slice(&a);
    let b2 = xor_encode(b"TWO.BMP\0");
    le16(&mut p, b2.len() as u16);
    p.extend_from_slice(&b2);
    let buf = build_world(b"", &[(3, 0, p)]);
    let mut c = ByteCursor::new(buf);
    let w = WldFile::new(&mut c).unwrap();
    let t: WldTextureBitmapName = w.fragment_by_index(1).unwrap();
    assert_eq!(t.textures, vec!["ONE.BMP".to_string(), "TWO.BMP".to_string()]);
}

#[test]
fn track_sleep_follows_flag_bit_zero() {
    let mut p = Vec::new();
    le32(&mut p, 5); // reference
    le32(&mut p, 1); // has_sleep
    le32(&mut p, 99);
    let buf = build_world(b"", &[(19, 0, p)]);
    let mut c = ByteCursor::new(buf);
    let w = WldFile::new(&mut c).unwrap();
    let t: WldSkeletonPieceTrack = w.fragment_by_index(1).unwrap();
    assert_eq!(t.reference, 5);
    assert!(t.flags.has_sleep());
    assert_eq!(t.sleep, Some(99));

    let mut q = Vec::new();
    le32(&mut q, 5);
    le32(&mut q, 6); // reverse + interpolate, no sleep
    let buf2 = build_world(b"", &[(19, 0, q)]);
    let mut c2 = ByteCursor::new(buf2);
    let w2 = WldFile::new(&mut c2).unwrap();
    let t2: WldSkeletonPieceTrack = w2.fragment_by_index(1).unwrap();
    assert_eq!(t2.sleep, None);
    assert!(t2.flags.reverse());
    assert!(t2.flags.interpolate());
}

#[test]
fn track_definition_keeps_raw_frame_components() {
    let mut p = Vec::new();
    le32(&mut p, 8); // flags
    le32(&mut p, 2); // frame count
    // Frame 0: rotation (16384, 1, -2, 3), shift (256, -512, 768) / 256.
    for v in [16384i16, 1, -2, 3, 256, -512, 768, 256] {
        p.extend_from_slice(&v.to_le_bytes());
    }
    // Frame 1: zero shift denominator means no translation.
    for v in [16384i16, 0, 0, 0, 9, 9, 9, 0] {
        p.extend_from_slice(&v.to_le_bytes());
    }
    p.extend_from_slice(&[0xAB, 0xCD]); // trailing bytes are kept verbatim
    let buf = build_world(b"", &[(18, 0, p)]);
    let mut c = ByteCursor::new(buf);
    let w = WldFile::new(&mut c).unwrap();
    let d: WldSkeletonPieceTrackDef = w.fragment_by_index(1).unwrap();
    assert_eq!(d.flags, 8);
    assert_eq!(d.frames.len(), 2);
    assert_eq!(d.frames[0].rotation_denominator, 16384);
    assert_eq!(d.frames[0].rotation_y, -2);
    assert_eq!(d.frames[0].shift_y, -512);
    assert_eq!(d.frames[0].shift_denominator, 256);
    assert_eq!(d.frames[1].shift_denominator, 0);
    assert_eq!(d.remainder, vec![0xAB, 0xCD]);
}

#[test]
fn model_resolves_callback_name_through_the_table() {
    let mut p = Vec::new();
    le32(&mut p, 0); // flags: no current action, no placement
    le32(&mut p, -1i32 as u32); // callback name reference: offset 0
    le32(&mut p, 1); // action count
    le32(&mut p, 2); // fragment count
    le32(&mut p, 30); // bounds reference
    // One action: two level-of-detail words.
    le32(&mut p, 2);
    le32(&mut p, 0);
    le32(&mut p, 0x3F80_0000);
    le32(&mut p, 0x4000_0000);
    // Fragment references.
    le32(&mut p, 8);
    le32(&mut p, 9);
    le32(&mut p, 0); // trailing count
    let buf = build_world(b"SPRITECALLBACK\0", &[(20, 0, p)]);
    let mut c = ByteCursor::new(buf);
    let w = WldFile::new(&mut c).unwrap();
    let m: WldModel = w.fragment_by_index(1).unwrap();
    assert_eq!(m.callback_name, Some("SPRITECALLBACK".to_string()));
    assert_eq!(m.current_action, None);
    assert_eq!(m.offset_rotation, None);
    assert_eq!(m.actions.len(), 1);
    assert_eq!(m.actions[0].lod_bits, vec![0x3F80_0000, 0x4000_0000]);
    assert_eq!(m.fragments, vec![8, 9]);
    assert_eq!(m.bounds_ref, 30);
}

#[test]
fn models_and_materials_collect_by_type() {
    let mut mp = Vec::new();
    le32(&mut mp, 0);
    le32(&mut mp, 0);
    le32(&mut mp, 0);
    le32(&mut mp, 0);
    le32(&mut mp, 0);
    le32(&mut mp, 0);
    let mut mdl = Vec::new();
    le32(&mut mdl, 0);
    le32(&mut mdl, 0);
    le32(&mut mdl, 0);
    le32(&mut mdl, 0);
    le32(&mut mdl, 0);
    le32(&mut mdl, 0);
    let buf = build_world(
        b"A\0B\0",
        &[(48, -1, mp), (20, -3, mdl)],
    );
    let mut c = ByteCursor::new(buf);
    let w = WldFile::new(&mut c).unwrap();
    assert_eq!(w.materials().len(), 1);
    let models = w.models();
    assert_eq!(models.len(), 1);
    assert_eq!(models[0].name, Some("B".to_string()));
}
