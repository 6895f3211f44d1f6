use eq_files::{ByteCursor, EQFilesError, WldNames};

const KEY: [u8; 8] = [0x95, 0x3A, 0xC5, 0x2A, 0x95, 0x7A, 0x95, 0x6A];

fn xor_encode(plain: &[u8]) -> Vec<u8> {
    plain.iter().enumerate().map(|(i, b)| b ^ KEY[i % 8]).collect()
}

fn decode_names(plain: &[u8]) -> WldNames {
    let blob = xor_encode(plain);
    let len = blob.len() as u32;
    let mut c = ByteCursor::new(blob);
    WldNames::new(&mut c, len).unwrap()
}

#[test]
fn round_trip_recovers_names_at_their_offsets() {
    let names = decode_names(b"Foo\0Bar\0");
    // Reference 0 means "no name".
    assert_eq!(names.get_name(0), None);
    // Reference -1 addresses offset 0.
    assert_eq!(names.get_name(-1), Some("Foo".to_string()));
    // "Bar" starts at byte offset 4, addressed by the complement of 4.
    assert_eq!(names.get_name(-5), Some("Bar".to_string()));
}

#[test]
fn unknown_offset_falls_back_to_decimal_text() {
    let names = decode_names(b"Foo\0Bar\0");
    // Offset 2 starts no name, so it resolves to its own decimal text.
    assert_eq!(names.get_name(-3), Some("2".to_string()));
    // Offset 4293 is far outside the blob.
    assert_eq!(names.get_name(-4294), Some("4293".to_string()));
}

#[test]
fn trailing_bytes_without_terminator_are_dropped() {
    let names = decode_names(b"Foo\0Par");
    assert_eq!(names.get_name(-1), Some("Foo".to_string()));
    // "Par" never ended, so offset 4 resolves to the fallback text.
    assert_eq!(names.get_name(-5), Some("4".to_string()));
}

#[test]
fn invalid_utf8_name_is_a_string_decoding_error() {
    let blob = xor_encode(&[0xFF, 0xFE, 0x00]);
    let len = blob.len() as u32;
    let mut c = ByteCursor::new(blob);
    let e = WldNames::new(&mut c, len).unwrap_err();
    assert_eq!(e, EQFilesError::ErrorDecodingString);
}

#[test]
fn short_blob_is_unknown_error() {
    let mut c = ByteCursor::new(vec![1, 2, 3]);
    let e = WldNames::new(&mut c, 4).unwrap_err();
    assert_eq!(e, EQFilesError::UnknownError);
}
