use eq_files::{ByteCursor, EQFilesError, WldHeader};

fn le32(out: &mut Vec<u8>, v: u32) {
    out.extend_from_slice(&v.to_le_bytes());
}

fn header_bytes(magic: u32, version: u32) -> Vec<u8> {
    let mut b = Vec::new();
    le32(&mut b, magic);
    le32(&mut b, version);
    le32(&mut b, 3); // fragment_count
    le32(&mut b, 4); // region_count
    le32(&mut b, 5); // max_object_bytes
    le32(&mut b, 6); // string_hash_size
    le32(&mut b, 7); // string_count
    b
}

#[test]
fn decodes_new_world_header() {
    let mut c = ByteCursor::new(header_bytes(0x54503D02, 0x1000C800));
    let h = WldHeader::new(&mut c).unwrap();
    assert_eq!(h.magic_number, 0x54503D02);
    assert!(!h.is_old_world);
    assert_eq!(h.fragment_count, 3);
    assert_eq!(h.region_count, 4);
    assert_eq!(h.max_object_bytes, 5);
    assert_eq!(h.string_hash_size, 6);
    assert_eq!(h.string_count, 7);
}

#[test]
fn decodes_old_world_header() {
    let mut c = ByteCursor::new(header_bytes(0x54503D02, 0x00015500));
    let h = WldHeader::new(&mut c).unwrap();
    assert!(h.is_old_world);
}

#[test]
fn rejects_bad_magic_with_value() {
    let mut c = ByteCursor::new(header_bytes(0xDEADBEEF, 0x1000C800));
    let e = WldHeader::new(&mut c).unwrap_err();
    assert_eq!(e, EQFilesError::InvalidMagicNumber(0xDEADBEEF));
}

#[test]
fn rejects_bad_version_with_value() {
    let mut c = ByteCursor::new(header_bytes(0x54503D02, 0x12345678));
    let e = WldHeader::new(&mut c).unwrap_err();
    assert_eq!(e, EQFilesError::InvalidVersionNumber(0x12345678));
}

#[test]
fn bad_magic_reported_even_on_short_buffer() {
    let mut b = Vec::new();
    le32(&mut b, 0x11111111);
    let mut c = ByteCursor::new(b);
    let e = WldHeader::new(&mut c).unwrap_err();
    assert_eq!(e, EQFilesError::InvalidMagicNumber(0x11111111));
}

#[test]
fn short_header_is_unknown_error() {
    let mut b = Vec::new();
    le32(&mut b, 0x54503D02);
    le32(&mut b, 0x1000C800);
    le32(&mut b, 1);
    let mut c = ByteCursor::new(b);
    let e = WldHeader::new(&mut c).unwrap_err();
    assert_eq!(e, EQFilesError::UnknownError);
}
