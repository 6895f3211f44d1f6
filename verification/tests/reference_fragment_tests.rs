use eq_files::{
    ByteCursor, WldDmSpriteRef, WldFile, WldFragment23, WldFragment44, WldFragment6, WldMeshRef,
    WldParticleCloud, WldParticleSprite, WldParticleSpriteRef, WldSkeletonRef,
    WldSkeletonTrackSetRef, WldTextureBitmapFilename, WldTextureBitmapInfoRef, WldTextureList,
    WldTextureMaterial, WldTextureMaterialList, WldTextureRef, WldTrack, WldTrackDef,
};

const KEY: [u8; 8] = [0x95, 0x3A, 0xC5, 0x2A, 0x95, 0x7A, 0x95, 0x6A];

fn xor_encode(plain: &[u8]) -> Vec<u8> {
    plain.iter().enumerate().map(|(i, b)| b ^ KEY[i % 8]).collect()
}

fn le16(out: &mut Vec<u8>, v: u16) {
    out.extend_from_slice(&v.to_le_bytes());
}

fn le32(out: &mut Vec<u8>, v: u32) {
    out.extend_from_slice(&v.to_le_bytes());
}

fn build_world(names_plain: &[u8], fragments: &[(u32, i32, Vec<u8>)]) -> Vec<u8> {
    let blob = xor_encode(names_plain);
    let mut b = Vec::new();
    le32(&mut b, 0x54503D02);
    le32(&mut b, 0x1000C800);
    le32(&mut b, fragments.len() as u32);
    le32(&mut b, 0);
    le32(&mut b, 0);
    le32(&mut b, blob.len() as u32);
    le32(&mut b, 0);
    b.extend_from_slice(&blob);
    for (ty, name_ref, payload) in fragments {
        le32(&mut b, payload.len() as u32 + 4);
        le32(&mut b, *ty);
        le32(&mut b, *name_ref as u32);
        b.extend_from_slice(payload);
    }
    b
}

fn one_fragment_world(ty: u32, payload: Vec<u8>) -> WldFile {
    let buf = build_world(b"REF\0", &[(ty, -1, payload)]);
    let mut c = ByteCursor::new(buf);
    WldFile::new(&mut c).unwrap()
}

fn two_u32(a: u32, b: u32) -> Vec<u8> {
    let mut p = Vec::new();
    le32(&mut p, a);
    le32(&mut p, b);
    p
}

#[test]
fn mesh_references_carry_reference_and_params() {
    let w = one_fragment_world(45, two_u32(12, 34));
    let r: WldMeshRef = w.fragment_by_index(1).unwrap();
    assert_eq!(r.reference, 12);
    assert_eq!(r.params, 34);
    assert_eq!(r.name, Some("REF".to_string()));
    let d: WldDmSpriteRef = w.fragment_by_index(1).unwrap();
    assert_eq!(d.reference, 12);
}

#[test]
fn skeleton_references_carry_reference_and_params() {
    let w = one_fragment_world(17, two_u32(3, 0));
    let r: WldSkeletonTrackSetRef = w.fragment_by_index(1).unwrap();
    assert_eq!(r.reference, 3);
    assert_eq!(r.params1, 0);
    let s: WldSkeletonRef = w.fragment_by_index(1).unwrap();
    assert_eq!(s.reference, 3);
}

#[test]
fn particle_fragments_decode() {
    let mut p = two_u32(1, 2);
    le32(&mut p, 3);
    let w = one_fragment_world(38, p);
    let s: WldParticleSprite = w.fragment_by_index(1).unwrap();
    assert_eq!(s.name, Some("REF".to_string()));
    let w2 = one_fragment_world(39, two_u32(1, 2));
    let r: WldParticleSpriteRef = w2.fragment_by_index(1).unwrap();
    assert_eq!(r.name, Some("REF".to_string()));
    let w3 = one_fragment_world(52, Vec::new());
    let c: WldParticleCloud = w3.fragment_by_index(1).unwrap();
    assert_eq!(c.name, Some("REF".to_string()));
}

#[test]
fn placeholder_fragments_keep_only_the_name() {
    let w = one_fragment_world(6, vec![1, 2, 3]);
    let f: WldFragment6 = w.fragment_by_index(1).unwrap();
    assert_eq!(f.name, Some("REF".to_string()));
    let w2 = one_fragment_world(23, Vec::new());
    let f2: WldFragment23 = w2.fragment_by_index(1).unwrap();
    assert_eq!(f2.name, Some("REF".to_string()));
    let w3 = one_fragment_world(44, Vec::new());
    let f3: WldFragment44 = w3.fragment_by_index(1).unwrap();
    assert_eq!(f3.name, Some("REF".to_string()));
}

#[test]
fn bitmap_info_reference_reads_index_then_flags() {
    let mut p = Vec::new();
    le16(&mut p, 9);
    le32(&mut p, 0x100000);
    let w = one_fragment_world(5, p.clone());
    let r: WldTextureBitmapInfoRef = w.fragment_by_index(1).unwrap();
    assert_eq!(r.texture_ref, 9);
    assert!(r.flags.unknown1());
    assert!(!r.flags.unknown2());
    assert_eq!(r.flags.all(), 0x100000);
    let w2 = one_fragment_world(5, p);
    let t: WldTextureRef = w2.fragment_by_index(1).unwrap();
    assert_eq!(t.texture_ref, 9);
    assert_eq!(t.flags, 0x100000);
}

#[test]
fn legacy_texture_list_conditionals_follow_their_bits() {
    // 0x20: a current-frame word; 0x18: a sleep word.
    let mut p = Vec::new();
    le32(&mut p, 0x38);
    le32(&mut p, 1); // signed count
    le32(&mut p, 4); // current
    le32(&mut p, 90); // sleep
    le32(&mut p, 77);
    let w = one_fragment_world(4, p);
    let t: WldTextureList = w.fragment_by_index(1).unwrap();
    assert_eq!(t.texture_current, 4);
    assert_eq!(t.sleep, 90);
    assert_eq!(t.texture_list, vec![77]);

    // A negative count stores no list entries.
    let mut q = Vec::new();
    le32(&mut q, 0);
    le32(&mut q, (-2i32) as u32);
    let w2 = one_fragment_world(4, q);
    let t2: WldTextureList = w2.fragment_by_index(1).unwrap();
    assert!(t2.texture_list.is_empty());
}

#[test]
fn legacy_track_and_definition_decode() {
    let mut p = Vec::new();
    le32(&mut p, 8);
    le32(&mut p, 0); // no sleep
    let w = one_fragment_world(19, p);
    let t: WldTrack = w.fragment_by_index(1).unwrap();
    assert_eq!(t.reference, 8);
    assert_eq!(t.sleep, None);

    let mut q = Vec::new();
    le32(&mut q, 5);
    q.extend_from_slice(&[9, 9]);
    let w2 = one_fragment_world(18, q);
    let d: WldTrackDef = w2.fragment_by_index(1).unwrap();
    assert_eq!(d.flags, 5);
    assert_eq!(d.remainder, vec![9, 9]);
}

#[test]
fn legacy_material_names_decode() {
    let mut p = Vec::new();
    le32(&mut p, 0);
    le32(&mut p, 7);
    le32(&mut p, 0);
    le32(&mut p, 0);
    le32(&mut p, 0);
    le32(&mut p, 13);
    let w = one_fragment_world(48, p);
    let m: WldTextureMaterial = w.fragment_by_index(1).unwrap();
    assert_eq!(m.render_method, 7);
    assert_eq!(m.bitmap_ref, 13);

    let mut q = Vec::new();
    le32(&mut q, 2);
    le32(&mut q, 1);
    le32(&mut q, 55);
    let w2 = one_fragment_world(49, q);
    let ml: WldTextureMaterialList = w2.fragment_by_index(1).unwrap();
    assert_eq!(ml.flags, 2);
    assert_eq!(ml.material_refs, vec![55]);

    let mut r = Vec::new();
    le32(&mut r, 0); // stored count: one string
    let enc = xor_encode(b"SKIN.BMP\0");
    le16(&mut r, enc.len() as u16);
    r.extend_from_slice(&enc);
    let w3 = one_fragment_world(3, r);
    let f: WldTextureBitmapFilename = w3.fragment_by_index(1).unwrap();
    assert_eq!(f.textures, vec!["SKIN.BMP".to_string()]);
}
