use eq_files::{decode_string, ByteCursor, EQFilesError};

const KEY: [u8; 8] = [0x95, 0x3A, 0xC5, 0x2A, 0x95, 0x7A, 0x95, 0x6A];

fn xor_encode(plain: &[u8]) -> Vec<u8> {
    plain.iter().enumerate().map(|(i, b)| b ^ KEY[i % 8]).collect()
}

#[test]
fn decodes_an_obfuscated_run() {
    let enc = xor_encode(b"LIGHT.BMP");
    let n = enc.len();
    let mut c = ByteCursor::new(enc);
    assert_eq!(decode_string(&mut c, n).unwrap(), "LIGHT.BMP");
}

#[test]
fn encoded_zero_padding_is_dropped() {
    let enc = xor_encode(b"AB\0\0CD\0");
    let n = enc.len();
    let mut c = ByteCursor::new(enc);
    assert_eq!(decode_string(&mut c, n).unwrap(), "ABCD");
}

#[test]
fn key_repeats_every_eight_bytes() {
    let enc = xor_encode(b"ABCDEFGHIJ");
    let n = enc.len();
    let mut c = ByteCursor::new(enc);
    assert_eq!(decode_string(&mut c, n).unwrap(), "ABCDEFGHIJ");
}

#[test]
fn invalid_utf8_is_a_string_decoding_error() {
    let enc = xor_encode(&[0xC3, 0x28]);
    let n = enc.len();
    let mut c = ByteCursor::new(enc);
    assert_eq!(decode_string(&mut c, n).unwrap_err(), EQFilesError::ErrorDecodingString);
}

#[test]
fn short_input_is_unknown_error() {
    let mut c = ByteCursor::new(vec![1, 2]);
    assert_eq!(decode_string(&mut c, 3).unwrap_err(), EQFilesError::UnknownError);
    // Nothing was consumed, so a shorter read still succeeds afterwards.
    let enc = xor_encode(b"OK");
    let mut c2 = ByteCursor::new(enc);
    assert_eq!(decode_string(&mut c2, 2).unwrap(), "OK");
}
