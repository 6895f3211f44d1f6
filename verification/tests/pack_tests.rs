use eq_files::{ByteCursor, EQFilesError, PackFile};

const KEY: [u8; 8] = [0x95, 0x3A, 0xC5, 0x2A, 0x95, 0x7A, 0x95, 0x6A];

fn xor_encode(plain: &[u8]) -> Vec<u8> {
    plain.iter().enumerate().map(|(i, b)| b ^ KEY[i % 8]).collect()
}

fn le32(out: &mut Vec<u8>, v: u32) {
    out.extend_from_slice(&v.to_le_bytes());
}

/// A zlib stream holding `data` in one stored (uncompressed) deflate block.
fn zlib_stored(data: &[u8]) -> Vec<u8> {
    let mut out = vec![0x78, 0x01, 0x01];
    let len = data.len() as u16;
    out.extend_from_slice(&len.to_le_bytes());
    out.extend_from_slice(&(!len).to_le_bytes());
    out.extend_from_slice(data);
    let mut a: u32 = 1;
    let mut b: u32 = 0;
    for &byte in data {
        a = (a + byte as u32) % 65521;
        b = (b + a) % 65521;
    }
    out.extend_from_slice(&(((b << 16) | a).to_be_bytes()));
    out
}

fn push_block(region: &mut Vec<u8>, plain: &[u8]) {
    let z = zlib_stored(plain);
    le32(region, z.len() as u32);
    le32(region, plain.len() as u32);
    region.extend_from_slice(&z);
}

/// An archive whose entries each hold one block, plus the trailing
/// directory entry listing the names.
fn build_archive(files: &[(&str, &[u8])]) -> Vec<u8> {
    let mut region = Vec::new();
    let mut entries: Vec<(u32, u32, u32)> = Vec::new();
    for (_, data) in files {
        let pointer = 12 + region.len() as u32;
        push_block(&mut region, data);
        entries.push((0, pointer, data.len() as u32));
    }
    let mut dir = Vec::new();
    le32(&mut dir, files.len() as u32);
    for (name, _) in files {
        let mut plain = name.as_bytes().to_vec();
        plain.push(0);
        let enc = xor_encode(&plain);
        le32(&mut dir, enc.len() as u32);
        dir.extend_from_slice(&enc);
    }
    let pointer = 12 + region.len() as u32;
    push_block(&mut region, &dir);
    entries.push((0, pointer, dir.len() as u32));

    let mut out = Vec::new();
    le32(&mut out, 12 + region.len() as u32);
    le32(&mut out, 0x20534650);
    le32(&mut out, 0x00020000);
    out.extend_from_slice(&region);
    le32(&mut out, entries.len() as u32);
    for (crc, ptr, size) in entries {
        le32(&mut out, crc);
        le32(&mut out, ptr);
        le32(&mut out, size);
    }
    out
}

#[test]
fn block_walk_reconstructs_the_declared_size_exactly() {
    // One entry of 100 bytes split into blocks of 60 and 40.
    let payload: Vec<u8> = (0u8..100).collect();
    let mut region = Vec::new();
    let pointer = 12 + region.len() as u32;
    push_block(&mut region, &payload[..60]);
    push_block(&mut region, &payload[60..]);
    let dir_ptr = 12 + region.len() as u32;
    let mut dir = Vec::new();
    le32(&mut dir, 1);
    let enc = xor_encode(b"BIG.DAT\0");
    le32(&mut dir, enc.len() as u32);
    dir.extend_from_slice(&enc);
    push_block(&mut region, &dir);

    let mut out = Vec::new();
    le32(&mut out, 12 + region.len() as u32);
    le32(&mut out, 0x20534650);
    le32(&mut out, 0x00020000);
    out.extend_from_slice(&region);
    le32(&mut out, 2);
    le32(&mut out, 0);
    le32(&mut out, pointer);
    le32(&mut out, 100);
    le32(&mut out, 0);
    le32(&mut out, dir_ptr);
    le32(&mut out, dir.len() as u32);

    let mut c = ByteCursor::new(out);
    let pf = PackFile::new(&mut c).unwrap();
    assert_eq!(pf.entry_count, 2);
    let blocks = pf.entries[0].blocks.as_ref().unwrap();
    assert_eq!(blocks.len(), 2);
    assert_eq!(blocks[0].uncompressed_size, 60);
    assert_eq!(blocks[1].uncompressed_size, 40);
    let data = pf.entries[0].decompress().unwrap();
    assert_eq!(data.len(), 100);
    assert_eq!(data, payload);
    assert_eq!(pf.get("big.dat").unwrap(), payload);
}

#[test]
fn block_split_that_overshoots_is_a_decode_error() {
    // The entry declares 100 bytes but its blocks cover 60 + 60.
    let mut region = Vec::new();
    let pointer = 12 + region.len() as u32;
    push_block(&mut region, &[1u8; 60]);
    push_block(&mut region, &[2u8; 60]);
    let mut out = Vec::new();
    le32(&mut out, 12 + region.len() as u32);
    le32(&mut out, 0x20534650);
    le32(&mut out, 0x00020000);
    out.extend_from_slice(&region);
    le32(&mut out, 1);
    le32(&mut out, 0);
    le32(&mut out, pointer);
    le32(&mut out, 100);
    let mut c = ByteCursor::new(out);
    let e = PackFile::new(&mut c).unwrap_err();
    assert_eq!(e, EQFilesError::UnknownError);
}

#[test]
fn filename_lookup_is_case_insensitive() {
    let contents: &[u8] = b"sixteen pixels!!";
    let pack = build_archive(&[("Object.bmp", contents)]);
    let mut c = ByteCursor::new(pack);
    let pf = PackFile::new(&mut c).unwrap();
    let names = pf.filenames().unwrap();
    assert_eq!(names, vec!["Object.bmp".to_string()]);
    assert_eq!(pf.get("Object.bmp").unwrap(), contents.to_vec());
    assert_eq!(pf.get("object.bmp").unwrap(), contents.to_vec());
    assert_eq!(pf.get("OBJECT.BMP").unwrap(), contents.to_vec());
    assert!(pf.get("other.bmp").is_none());
}

#[test]
fn entries_are_sorted_by_pointer_and_files_pair_up() {
    // Hand the directory records over in reverse pointer order.
    let a: &[u8] = b"alpha contents";
    let b: &[u8] = b"beta!";
    let mut region = Vec::new();
    let ptr_a = 12 + region.len() as u32;
    push_block(&mut region, a);
    let ptr_b = 12 + region.len() as u32;
    push_block(&mut region, b);
    let mut dir = Vec::new();
    le32(&mut dir, 2);
    for name in ["A.TXT", "B.TXT"] {
        let mut plain = name.as_bytes().to_vec();
        plain.push(0);
        let enc = xor_encode(&plain);
        le32(&mut dir, enc.len() as u32);
        dir.extend_from_slice(&enc);
    }
    let ptr_dir = 12 + region.len() as u32;
    push_block(&mut region, &dir);

    let mut out = Vec::new();
    le32(&mut out, 12 + region.len() as u32);
    le32(&mut out, 0x20534650);
    le32(&mut out, 0x00020000);
    out.extend_from_slice(&region);
    le32(&mut out, 3);
    // Directory entry first, then B, then A: parsing must sort them.
    le32(&mut out, 0);
    le32(&mut out, ptr_dir);
    le32(&mut out, dir.len() as u32);
    le32(&mut out, 0);
    le32(&mut out, ptr_b);
    le32(&mut out, b.len() as u32);
    le32(&mut out, 0);
    le32(&mut out, ptr_a);
    le32(&mut out, a.len() as u32);

    let mut c = ByteCursor::new(out);
    let pf = PackFile::new(&mut c).unwrap();
    assert_eq!(pf.entries[0].pointer, ptr_a);
    assert_eq!(pf.entries[1].pointer, ptr_b);
    assert_eq!(pf.entries[2].pointer, ptr_dir);
    let files = pf.files().unwrap();
    assert_eq!(files.len(), 2);
    assert_eq!(files[0].0, "A.TXT");
    assert_eq!(files[0].1, a.to_vec());
    assert_eq!(files[1].0, "B.TXT");
    assert_eq!(files[1].1, b.to_vec());
}

#[test]
fn corrupt_zlib_stream_fails_decompression_but_not_parsing() {
    // Entry 0 holds garbage where a zlib stream should be; the directory
    // entry is intact, so parsing and the filename list still work.
    let mut region = Vec::new();
    let ptr_bad = 12 + region.len() as u32;
    le32(&mut region, 4); // compressed size
    le32(&mut region, 4); // declared uncompressed size
    region.extend_from_slice(&[0x11, 0x22, 0x33, 0x44]);
    let mut dir = Vec::new();
    le32(&mut dir, 1);
    let enc = xor_encode(b"BAD.DAT\0");
    le32(&mut dir, enc.len() as u32);
    dir.extend_from_slice(&enc);
    let ptr_dir = 12 + region.len() as u32;
    push_block(&mut region, &dir);

    let mut out = Vec::new();
    le32(&mut out, 12 + region.len() as u32);
    le32(&mut out, 0x20534650);
    le32(&mut out, 0x00020000);
    out.extend_from_slice(&region);
    le32(&mut out, 2);
    le32(&mut out, 0);
    le32(&mut out, ptr_bad);
    le32(&mut out, 4);
    le32(&mut out, 0);
    le32(&mut out, ptr_dir);
    le32(&mut out, dir.len() as u32);

    let mut c = ByteCursor::new(out);
    let pf = PackFile::new(&mut c).unwrap();
    assert_eq!(pf.filenames().unwrap(), vec!["BAD.DAT".to_string()]);
    assert_eq!(pf.entries[0].decompress().unwrap_err(), EQFilesError::UnknownError);
    assert!(pf.get("BAD.DAT").is_none());
    assert_eq!(pf.files().unwrap_err(), EQFilesError::UnknownError);
}

#[test]
fn short_archive_is_unknown_error() {
    let mut c = ByteCursor::new(vec![1, 2, 3, 4, 5]);
    let e = PackFile::new(&mut c).unwrap_err();
    assert_eq!(e, EQFilesError::UnknownError);
}
