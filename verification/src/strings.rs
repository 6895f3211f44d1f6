//! The XOR string codec shared by the archive directory and the world-file
//! name blob: bytes are XOR-ed with a fixed repeating 8-byte key, encoded
//! zero bytes are dropped, and the rest must be UTF-8 text.

use vstd::prelude::*;
use vstd::utf8::{decode_utf8, valid_utf8};

use crate::cursor::ByteCursor;
use crate::EQFilesError;

verus! {

/// The fixed 8-byte obfuscation key of the legacy formats.
pub open spec fn spec_hash_key() -> Seq<u8> {
    seq![0x95u8, 0x3Au8, 0xC5u8, 0x2Au8, 0x95u8, 0x7Au8, 0x95u8, 0x6Au8]
}

/// The key byte used for the `i`-th byte of an obfuscated run.
pub fn hash_key_byte(i: usize) -> (r: u8)
    ensures
        r == spec_hash_key()[i as int % 8],
{
    let m = i % 8;
    if m == 0 {
        0x95
    } else if m == 1 {
        0x3A
    } else if m == 2 {
        0xC5
    } else if m == 3 {
        0x2A
    } else if m == 4 {
        0x95
    } else if m == 5 {
        0x7A
    } else if m == 6 {
        0x95
    } else {
        0x6A
    }
}

/// `s` XOR-ed byte by byte with the repeating key, starting at key phase 0.
pub open spec fn xor_decoded(s: Seq<u8>) -> Seq<u8> {
    Seq::new(s.len(), |i: int| s[i] ^ spec_hash_key()[i % 8])
}

pub open spec fn is_nonzero_byte(b: u8) -> bool {
    b != 0
}

/// The de-obfuscated bytes of `s` with every decoded zero byte dropped.
pub open spec fn xor_stripped(s: Seq<u8>) -> Seq<u8> {
    xor_decoded(s).filter(|b: u8| is_nonzero_byte(b))
}

/// What decoding an obfuscated run of bytes yields: the de-obfuscated,
/// zero-stripped bytes read as UTF-8, or nothing if they are not UTF-8.
pub open spec fn spec_decoded_string(raw: Seq<u8>) -> Option<Seq<char>> {
    if valid_utf8(xor_stripped(raw)) {
        Some(decode_utf8(xor_stripped(raw)))
    } else {
        None
    }
}

/// Relies on `String::from_utf8`: it succeeds exactly on valid UTF-8 input
/// and keeps the bytes; vstd's `valid_utf8` / `decode_utf8` give the meaning.
#[verifier::external_body]
pub(crate) fn utf8_string(bytes: Vec<u8>) -> (r: Option<String>)
    ensures
        r matches Some(s) ==> valid_utf8(bytes@) && s@ == decode_utf8(bytes@),
        valid_utf8(bytes@) ==> r is Some,
{
    String::from_utf8(bytes).ok()
}

/// Reads `length` obfuscated bytes and decodes them to text.
///
/// Fails with `UnknownError` when fewer than `length` bytes remain (nothing
/// is consumed then), and with `ErrorDecodingString` when the de-obfuscated,
/// zero-stripped bytes are not valid UTF-8 (the bytes are still consumed).
pub fn decode_string(input: &mut ByteCursor, length: usize) -> (r: Result<String, EQFilesError>)
    requires
        old(input).wf(),
    ensures
        final(input).wf(),
        final(input).bytes() == old(input).bytes(),
        !old(input).can_read(length as int) ==> r == Err::<String, EQFilesError>(
            EQFilesError::UnknownError,
        ) && final(input).position() == old(input).position(),
        old(input).can_read(length as int) ==> {
            &&& final(input).position() == old(input).position() + length
            &&& match spec_decoded_string(
                old(input).bytes().subrange(
                    old(input).position(),
                    old(input).position() + length,
                ),
            ) {
                Some(cs) => r matches Ok(s) && s@ == cs,
                None => r == Err::<String, EQFilesError>(EQFilesError::ErrorDecodingString),
            }
        },
{
    if input.remaining() < length {
        return Err(EQFilesError::UnknownError);
    }
    let ghost start = input.position();
    let ghost raw = input.bytes().subrange(start, start + length as int);
    let mut result: Vec<u8> = Vec::new();
    let mut i: usize = 0;
    while i < length
        invariant
            input.wf(),
            input.bytes() == old(input).bytes(),
            input.position() == start + i,
            0 <= i <= length,
            0 <= start,
            start + length <= input.bytes().len(),
            raw == input.bytes().subrange(start, start + length as int),
            result@ == xor_stripped(raw.subrange(0, i as int)),
        decreases length - i,
    {
        let b = match input.u8() {
            Ok(b) => b,
            Err(_) => {
                proof {
                    assert(false);
                }
                return Err(EQFilesError::UnknownError);
            },
        };
        let c = b ^ hash_key_byte(i);
        proof {
            assert(raw[i as int] == input.bytes()[start + i]);
            assert(c == xor_decoded(raw)[i as int]);
            lemma_xor_stripped_step(raw, i as int);
        }
        if c != 0 {
            result.push(c);
        }
        i = i + 1;
    }
    proof {
        assert(raw.subrange(0, length as int) =~= raw);
    }
    match utf8_string(result) {
        Some(s) => Ok(s),
        None => Err(EQFilesError::ErrorDecodingString),
    }
}

/// Extending the raw run by one byte extends its stripped decoding by that
/// byte exactly when the decoded byte is nonzero.
proof fn lemma_xor_stripped_step(raw: Seq<u8>, i: int)
    requires
        0 <= i < raw.len(),
    ensures
        xor_stripped(raw.subrange(0, i + 1)) == if xor_decoded(raw)[i] != 0 {
            xor_stripped(raw.subrange(0, i)).push(xor_decoded(raw)[i])
        } else {
            xor_stripped(raw.subrange(0, i))
        },
{
    reveal(Seq::filter);
    let short = raw.subrange(0, i);
    let long = raw.subrange(0, i + 1);
    assert(xor_decoded(long).drop_last() =~= xor_decoded(short));
    assert(xor_decoded(long).last() == xor_decoded(raw)[i]);
    if xor_decoded(raw)[i] != 0 {
        assert(xor_stripped(long) =~= xor_stripped(short).push(xor_decoded(raw)[i]));
    } else {
        assert(xor_stripped(long) =~= xor_stripped(short));
    }
}

/// The ghost values of a sequence of owned strings.
pub open spec fn string_views(ss: Seq<String>) -> Seq<Seq<char>> {
    ss.map_values(|s: String| s@)
}

/// The ghost value of an optional owned string.
pub open spec fn opt_string_view(o: Option<String>) -> Option<Seq<char>> {
    match o {
        Some(s) => Some(s@),
        None => None,
    }
}

/// Whether `needle` appears as a contiguous run inside `hay`.
pub open spec fn spec_bytes_contain(hay: Seq<u8>, needle: Seq<u8>) -> bool {
    exists|i: int|
        0 <= i && i + needle.len() <= hay.len() && #[trigger] hay.subrange(i, i + needle.len())
            == needle
}

fn bytes_eq_at(hay: &[u8], needle: &[u8], i: usize) -> (r: bool)
    requires
        i + needle@.len() <= hay@.len(),
    ensures
        r == (hay@.subrange(i as int, i as int + needle@.len()) == needle@),
{
    let hlen = hay.len();
    let mut k: usize = 0;
    while k < needle.len()
        invariant
            hlen == hay@.len(),
            i + needle@.len() <= hay@.len(),
            0 <= k <= needle@.len(),
            forall|t: int| 0 <= t < k ==> hay@[i + t] == needle@[t],
        decreases needle@.len() - k,
    {
        if hay[i + k] != needle[k] {
            proof {
                if hay@.subrange(i as int, i as int + needle@.len()) == needle@ {
                    assert(hay@.subrange(i as int, i as int + needle@.len())[k as int]
                        == needle@[k as int]);
                    assert(hay@.subrange(i as int, i as int + needle@.len())[k as int]
                        == hay@[i + k]);
                }
            }
            return false;
        }
        k = k + 1;
    }
    proof {
        assert(hay@.subrange(i as int, i as int + needle@.len()) =~= needle@);
    }
    true
}

/// Whether `needle`'s bytes appear contiguously inside `hay`'s bytes.
pub fn bytes_contain(hay: &[u8], needle: &[u8]) -> (r: bool)
    ensures
        r == spec_bytes_contain(hay@, needle@),
{
    if needle.len() > hay.len() {
        return false;
    }
    if needle.len() == 0 {
        proof {
            assert(hay@.subrange(0, 0 + needle@.len() as int) =~= needle@);
        }
        return true;
    }
    let last = hay.len() - needle.len();
    let mut i: usize = 0;
    while i <= last
        invariant
            1 <= needle@.len() <= hay@.len(),
            hay@.len() <= usize::MAX,
            last == hay@.len() - needle@.len(),
            0 <= i <= last + 1,
            forall|t: int|
                0 <= t < i ==> #[trigger] hay@.subrange(t, t + needle@.len()) != needle@,
        decreases last + 1 - i,
    {
        if bytes_eq_at(hay, needle, i) {
            proof {
                assert(spec_bytes_contain(hay@, needle@));
            }
            return true;
        }
        i = i + 1;
    }
    proof {
        if spec_bytes_contain(hay@, needle@) {
            let t = choose|t: int|
                0 <= t && t + needle@.len() <= hay@.len() && #[trigger] hay@.subrange(
                    t,
                    t + needle@.len(),
                ) == needle@;
            assert(t < i);
        }
    }
    false
}

/// A byte with any ASCII capital letter folded to its small form.
pub open spec fn spec_ascii_lower(b: u8) -> u8 {
    if 0x41 <= b <= 0x5A {
        (b + 0x20) as u8
    } else {
        b
    }
}

/// Whether two byte runs are equal once ASCII letters are folded to one
/// case.
pub open spec fn spec_eq_ignore_ascii_case(a: Seq<u8>, b: Seq<u8>) -> bool {
    a.map_values(|x: u8| spec_ascii_lower(x)) == b.map_values(|x: u8| spec_ascii_lower(x))
}

/// Compares two byte runs ignoring ASCII letter case.
pub fn eq_ignore_case(a: &[u8], b: &[u8]) -> (r: bool)
    ensures
        r == spec_eq_ignore_ascii_case(a@, b@),
{
    let ghost fa = a@.map_values(|x: u8| spec_ascii_lower(x));
    let ghost fb = b@.map_values(|x: u8| spec_ascii_lower(x));
    if a.len() != b.len() {
        proof {
            assert(fa.len() != fb.len());
        }
        return false;
    }
    let mut k: usize = 0;
    while k < a.len()
        invariant
            a@.len() == b@.len(),
            fa == a@.map_values(|x: u8| spec_ascii_lower(x)),
            fb == b@.map_values(|x: u8| spec_ascii_lower(x)),
            0 <= k <= a@.len(),
            forall|t: int| 0 <= t < k ==> fa[t] == fb[t],
        decreases a@.len() - k,
    {
        let ca = a[k];
        let cb = b[k];
        let la = if 0x41 <= ca && ca <= 0x5A {
            ca + 0x20
        } else {
            ca
        };
        let lb = if 0x41 <= cb && cb <= 0x5A {
            cb + 0x20
        } else {
            cb
        };
        if la != lb {
            proof {
                assert(fa[k as int] == spec_ascii_lower(a@[k as int]));
                assert(fb[k as int] == spec_ascii_lower(b@[k as int]));
            }
            return false;
        }
        k = k + 1;
    }
    proof {
        assert(fa =~= fb);
    }
    true
}

/// The decimal digit character for `d`.
pub open spec fn spec_digit_char(d: nat) -> char
    recommends
        d < 10,
{
    ((d + 0x30) as u8) as char
}

/// The decimal digit characters of `v`, most significant first.
pub open spec fn spec_decimal(v: nat) -> Seq<char>
    decreases v,
{
    if v < 10 {
        seq![spec_digit_char(v)]
    } else {
        spec_decimal(v / 10).push(spec_digit_char(v % 10))
    }
}

/// Relies on the `Display` implementation of `u32`: plain decimal digits,
/// no sign and no padding.
#[verifier::external_body]
pub(crate) fn u32_decimal(v: u32) -> (r: String)
    ensures
        r@ == spec_decimal(v as nat),
{
    format!("{}", v)
}

} // verus!
