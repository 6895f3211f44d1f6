//! The world-file format: fixed header, obfuscated name table, raw fragment
//! stream and the aggregate that serves typed decoding on demand.

use vstd::prelude::*;
use vstd::utf8::{decode_utf8, valid_utf8};

use crate::cursor::{as_signed32, le32_at, ByteCursor};
use crate::fragments::{Settings, SettingsView, WldFragment};
use crate::strings::{bytes_contain, spec_bytes_contain, spec_decimal, u32_decimal, utf8_string,
    xor_decoded};
use crate::strings::hash_key_byte;
use crate::EQFilesError;
use vstd::utf8::encode_utf8;

verus! {

/// The magic number that opens every world file.
pub const WLD_MAGIC: u32 = 0x54503D02;

/// The version word of the older world-file revision.
pub const WLD_VERSION_OLD: u32 = 0x00015500;

/// The version word of the newer world-file revision.
pub const WLD_VERSION_NEW: u32 = 0x1000C800;

/// The fixed 28-byte world-file header.
#[derive(Clone, Copy, Debug, PartialEq, Eq, Structural)]
pub struct WldHeader {
    pub magic_number: u32,
    pub is_old_world: bool,
    pub fragment_count: u32,
    pub region_count: u32,
    pub max_object_bytes: u32,
    pub string_hash_size: u32,
    pub string_count: u32,
}

/// What decoding a header from offset `p` of `s` yields: the header and the
/// offset just past it, or the error the bytes force.  Reads happen in field
/// order, so a bad magic number is reported even when the buffer is shorter
/// than a whole header.
pub open spec fn spec_header_decode(s: Seq<u8>, p: int) -> Result<(WldHeader, int), EQFilesError> {
    if p + 4 > s.len() {
        Err(EQFilesError::UnknownError)
    } else {
        let magic = le32_at(s, p);
        if magic != WLD_MAGIC {
            Err(EQFilesError::InvalidMagicNumber(magic))
        } else if p + 8 > s.len() {
            Err(EQFilesError::UnknownError)
        } else {
            let version = le32_at(s, p + 4);
            if version != WLD_VERSION_OLD && version != WLD_VERSION_NEW {
                Err(EQFilesError::InvalidVersionNumber(version))
            } else if p + 28 > s.len() {
                Err(EQFilesError::UnknownError)
            } else {
                Ok(
                    (
                        WldHeader {
                            magic_number: magic,
                            is_old_world: version == WLD_VERSION_OLD,
                            fragment_count: le32_at(s, p + 8),
                            region_count: le32_at(s, p + 12),
                            max_object_bytes: le32_at(s, p + 16),
                            string_hash_size: le32_at(s, p + 20),
                            string_count: le32_at(s, p + 24),
                        },
                        p + 28,
                    ),
                )
            }
        }
    }
}

impl WldHeader {
    /// Decodes the fixed header, consuming 28 bytes on success.
    pub fn new(input: &mut ByteCursor) -> (r: Result<WldHeader, EQFilesError>)
        requires
            old(input).wf(),
        ensures
            final(input).wf(),
            final(input).bytes() == old(input).bytes(),
            match spec_header_decode(old(input).bytes(), old(input).position()) {
                Ok((h, q)) => r == Ok::<WldHeader, EQFilesError>(h) && final(input).position()
                    == q,
                Err(e) => r == Err::<WldHeader, EQFilesError>(e),
            },
    {
        let magic_number = match input.u32le() {
            Ok(v) => v,
            Err(e) => { return Err(e) },
        };
        if magic_number != WLD_MAGIC {
            return Err(EQFilesError::InvalidMagicNumber(magic_number));
        }
        let version = match input.u32le() {
            Ok(v) => v,
            Err(e) => { return Err(e) },
        };
        let is_old_world = if version == WLD_VERSION_OLD {
            true
        } else if version == WLD_VERSION_NEW {
            false
        } else {
            return Err(EQFilesError::InvalidVersionNumber(version));
        };
        let fragment_count = match input.u32le() {
            Ok(v) => v,
            Err(e) => { return Err(e) },
        };
        let region_count = match input.u32le() {
            Ok(v) => v,
            Err(e) => { return Err(e) },
        };
        let max_object_bytes = match input.u32le() {
            Ok(v) => v,
            Err(e) => { return Err(e) },
        };
        let string_hash_size = match input.u32le() {
            Ok(v) => v,
            Err(e) => { return Err(e) },
        };
        let string_count = match input.u32le() {
            Ok(v) => v,
            Err(e) => { return Err(e) },
        };
        Ok(
            WldHeader {
                magic_number,
                is_old_world,
                fragment_count,
                region_count,
                max_object_bytes,
                string_hash_size,
                string_count,
            },
        )
    }
}

/// The unsigned 32-bit value with the same bit pattern as `v`.
pub open spec fn as_unsigned32(v: i32) -> u32 {
    if v >= 0 {
        v as u32
    } else {
        (v + 0x1_0000_0000) as u32
    }
}

/// Reinterprets a signed 32-bit value as unsigned.
pub fn unsigned32(v: i32) -> (r: u32)
    ensures
        r == as_unsigned32(v),
{
    if v >= 0 {
        v as u32
    } else {
        let w = v + 1;
        u32::MAX - ((-w) as u32)
    }
}

/// The name-table offset addressed by a nonzero name reference: the bitwise
/// complement of the reference, read as unsigned.
pub open spec fn spec_name_ref_offset(r: i32) -> u32 {
    (0xFFFF_FFFF - as_unsigned32(r)) as u32
}

/// The bitwise complement of a name reference, as the table offset it
/// addresses.
pub fn name_ref_offset(r: i32) -> (off: u32)
    ensures
        off == spec_name_ref_offset(r),
{
    u32::MAX - unsigned32(r)
}

/// The `(start offset, name bytes)` pairs found in the de-obfuscated blob
/// `d`, scanning from `i` with the current name starting at `start`: a zero
/// byte ends the current name, and trailing bytes without a terminator are
/// dropped.
pub open spec fn spec_name_entries(d: Seq<u8>, i: int, start: int) -> Seq<(int, Seq<u8>)>
    recommends
        0 <= start <= i <= d.len(),
    decreases d.len() - i,
{
    if i < 0 || i >= d.len() {
        Seq::empty()
    } else if d[i] == 0 {
        seq![(start, d.subrange(start, i))] + spec_name_entries(d, i + 1, i + 1)
    } else {
        spec_name_entries(d, i + 1, start)
    }
}

/// Whether every name in the blob is valid UTF-8; decoding the table fails
/// otherwise.
pub open spec fn spec_names_ok(d: Seq<u8>) -> bool {
    forall|k: int|
        0 <= k < spec_name_entries(d, 0, 0).len() ==> valid_utf8(
            #[trigger] spec_name_entries(d, 0, 0)[k].1,
        )
}

/// The decoded name table: each name keyed by the blob offset at which it
/// starts.
pub open spec fn spec_names_decoded(d: Seq<u8>) -> Seq<(u32, Seq<char>)> {
    spec_name_entries(d, 0, 0).map_values(|e: (int, Seq<u8>)| (e.0 as u32, decode_utf8(e.1)))
}

/// First entry of `names` stored at offset `off`, if any.
pub open spec fn spec_lookup(names: Seq<(u32, Seq<char>)>, off: u32) -> Option<Seq<char>>
    decreases names.len(),
{
    if names.len() == 0 {
        None
    } else if names[0].0 == off {
        Some(names[0].1)
    } else {
        spec_lookup(names.drop_first(), off)
    }
}

/// The text a name-table offset resolves to: the stored name, or the decimal
/// text of the offset itself when the offset is unknown (the legacy fallback,
/// never an error).
pub open spec fn spec_resolved_name(names: Seq<(u32, Seq<char>)>, off: u32) -> Seq<char> {
    match spec_lookup(names, off) {
        Some(cs) => cs,
        None => spec_decimal(off as nat),
    }
}

/// What a whole name reference resolves to: `None` for the reference `0`,
/// otherwise the text at the complement offset.
pub open spec fn spec_opt_name(names: Seq<(u32, Seq<char>)>, name_ref: i32) -> Option<Seq<char>> {
    if name_ref == 0 {
        None
    } else {
        Some(spec_resolved_name(names, spec_name_ref_offset(name_ref)))
    }
}

/// The decoded, de-obfuscated name table of a world file.
#[derive(Clone, Debug)]
pub struct WldNames {
    entries: Vec<(u32, String)>,
}

impl View for WldNames {
    type V = Seq<(u32, Seq<char>)>;

    closed spec fn view(&self) -> Seq<(u32, Seq<char>)> {
        self.entries@.map_values(|e: (u32, String)| (e.0, e.1@))
    }
}

impl WldNames {
    /// Decodes the name blob of `size` bytes: each byte is XOR-decoded with
    /// the repeating key, a decoded zero ends the current name, and every
    /// name is keyed by the offset at which it started.
    #[verifier::rlimit(30)]
    pub fn new(input: &mut ByteCursor, size: u32) -> (r: Result<WldNames, EQFilesError>)
        requires
            old(input).wf(),
        ensures
            final(input).wf(),
            final(input).bytes() == old(input).bytes(),
            !old(input).can_read(size as int) ==> r == Err::<WldNames, EQFilesError>(
                EQFilesError::UnknownError,
            ) && final(input).position() == old(input).position(),
            old(input).can_read(size as int) ==> {
                let d = xor_decoded(
                    old(input).bytes().subrange(
                        old(input).position(),
                        old(input).position() + size,
                    ),
                );
                &&& final(input).position() == old(input).position() + size
                &&& if spec_names_ok(d) {
                    r matches Ok(n) && n@ == spec_names_decoded(d)
                } else {
                    r == Err::<WldNames, EQFilesError>(EQFilesError::ErrorDecodingString)
                }
            },
    {
        let raw = match input.take(size as usize) {
            Ok(v) => v,
            Err(e) => { return Err(e) },
        };
        let ghost d = xor_decoded(raw@);
        let size_us = size as usize;
        let mut entries: Vec<(u32, String)> = Vec::new();
        let mut temp: Vec<u8> = Vec::new();
        let mut start: usize = 0;
        let ghost mut done: Seq<(int, Seq<u8>)> = Seq::empty();
        let mut i: usize = 0;
        while i < size_us
            invariant
                input.wf(),
                input.bytes() == old(input).bytes(),
                old(input).can_read(size as int),
                input.position() == old(input).position() + size,
                size_us == size as usize,
                raw@ == old(input).bytes().subrange(
                    old(input).position(),
                    old(input).position() + size,
                ),
                raw@.len() == size_us,
                size_us <= u32::MAX,
                d == xor_decoded(raw@),
                0 <= start <= i <= size_us,
                temp@ == d.subrange(start as int, i as int),
                spec_name_entries(d, 0, 0) == done + spec_name_entries(d, i as int, start as int),
                entries@.len() == done.len(),
                forall|k: int| 0 <= k < done.len() ==> valid_utf8(#[trigger] done[k].1),
                forall|k: int|
                    0 <= k < done.len() ==> (#[trigger] entries@[k]).0 == done[k].0,
                forall|k: int|
                    0 <= k < done.len() ==> (#[trigger] entries@[k]).1@ == decode_utf8(done[k].1),
            decreases size_us - i,
        {
            let c = raw[i] ^ hash_key_byte(i);
            proof {
                assert(c == d[i as int]);
            }
            if c == 0 {
                let ghost entry = (start as int, d.subrange(start as int, i as int));
                proof {
                    assert(spec_name_entries(d, i as int, start as int) =~= seq![entry]
                        + spec_name_entries(d, i as int + 1, i as int + 1));
                }
                match utf8_string(temp) {
                    Some(s) => {
                        let ghost old_done = done;
                        let ghost old_entries = entries@;
                        entries.push((start as u32, s));
                        proof {
                            done = done.push(entry);
                            assert(done + spec_name_entries(d, i as int + 1, i as int + 1)
                                =~= old_done + (seq![entry] + spec_name_entries(
                                d,
                                i as int + 1,
                                i as int + 1,
                            )));
                            assert(valid_utf8(entry.1));
                            assert forall|k: int| 0 <= k < done.len() implies valid_utf8(
                                #[trigger] done[k].1,
                            ) && (entries@[k]).0 == done[k].0 && (entries@[k]).1@ == decode_utf8(
                                done[k].1,
                            ) by {
                                if k < old_done.len() {
                                    assert(valid_utf8(old_done[k].1));
                                    assert((old_entries[k]).0 == old_done[k].0);
                                    assert((old_entries[k]).1@ == decode_utf8(old_done[k].1));
                                    assert(done[k] == old_done[k]);
                                    assert(entries@[k] == old_entries[k]);
                                } else {
                                    assert(done[k] == entry);
                                    assert(entries@[k] == (start as u32, s));
                                }
                            }
                        }
                    },
                    None => {
                        proof {
                            let all = spec_name_entries(d, 0, 0);
                            let rest = spec_name_entries(d, i as int + 1, i as int + 1);
                            assert(all == done + (seq![entry] + rest));
                            assert(all.len() == done.len() + 1 + rest.len());
                            assert(all[done.len() as int] == entry);
                            assert(!valid_utf8(entry.1));
                            assert(!spec_names_ok(d));
                        }
                        return Err(EQFilesError::ErrorDecodingString);
                    },
                }
                temp = Vec::new();
                start = i + 1;
            } else {
                temp.push(c);
                proof {
                    assert(d.subrange(start as int, i as int + 1) =~= d.subrange(
                        start as int,
                        i as int,
                    ).push(d[i as int]));
                }
            }
            i = i + 1;
        }
        proof {
            assert(spec_name_entries(d, size_us as int, start as int) =~= Seq::empty());
            assert(spec_name_entries(d, 0, 0) =~= done);
            assert(spec_names_ok(d));
        }
        let r = WldNames { entries };
        proof {
            assert(r@ =~= spec_names_decoded(d));
        }
        Ok(r)
    }

    /// Resolves a signed name reference: `0` is "no name", any other value
    /// addresses the table at the complement offset, and an unknown offset
    /// falls back to its decimal text.
    pub fn get_name(&self, index: i32) -> (r: Option<String>)
        ensures
            index == 0 ==> r is None,
            index != 0 ==> (r matches Some(s) && s@ == spec_resolved_name(
                self@,
                spec_name_ref_offset(index),
            )),
    {
        if index == 0 {
            return None;
        }
        let offset = name_ref_offset(index);
        let n = self.entries.len();
        let mut k: usize = 0;
        proof {
            assert(self@.skip(0) =~= self@);
        }
        while k < n
            invariant
                n == self.entries.len(),
                0 <= k <= n,
                index != 0,
                offset == spec_name_ref_offset(index),
                spec_lookup(self@, offset) == spec_lookup(self@.skip(k as int), offset),
            decreases n - k,
        {
            proof {
                assert(self@.skip(k as int).drop_first() =~= self@.skip(k as int + 1));
                assert(self@.skip(k as int)[0] == self@[k as int]);
            }
            if self.entries[k].0 == offset {
                return Some(self.entries[k].1.clone());
            }
            k = k + 1;
        }
        proof {
            assert(self@.skip(n as int) =~= Seq::empty());
        }
        Some(u32_decimal(offset))
    }
}

/// The ghost value of a raw fragment: its frame fields and payload bytes.
pub struct WldRawFragmentView {
    pub fragment_size: u32,
    pub fragment_type: u32,
    pub name_ref: i32,
    pub name: Option<Seq<char>>,
    pub contents: Seq<u8>,
}

/// One frame of the fragment stream: type tag, resolved name and payload,
/// not yet interpreted.
#[derive(Clone, Debug)]
pub struct WldRawFragment {
    pub fragment_size: u32,
    pub fragment_type: u32,
    pub name_ref: i32,
    pub name: Option<String>,
    pub contents: Vec<u8>,
}

impl View for WldRawFragment {
    type V = WldRawFragmentView;

    open spec fn view(&self) -> WldRawFragmentView {
        WldRawFragmentView {
            fragment_size: self.fragment_size,
            fragment_type: self.fragment_type,
            name_ref: self.name_ref,
            name: match self.name {
                Some(s) => Some(s@),
                None => None,
            },
            contents: self.contents@,
        }
    }
}

/// What framing one fragment at offset `p` yields.  A frame is a 32-bit
/// size, a 32-bit type tag and, in the newer revision only, a 32-bit name
/// reference that counts against the size; the payload is the remaining
/// `size - 4` bytes (all `size` bytes in the older revision).
pub open spec fn spec_raw_fragment_decode(
    s: Seq<u8>,
    p: int,
    names: Seq<(u32, Seq<char>)>,
    old_world: bool,
) -> Result<(WldRawFragmentView, int), EQFilesError> {
    if p + 8 > s.len() {
        Err(EQFilesError::UnknownError)
    } else {
        let size = le32_at(s, p);
        let ty = le32_at(s, p + 4);
        if old_world {
            if p + 8 + size > s.len() {
                Err(EQFilesError::UnknownError)
            } else {
                Ok(
                    (
                        WldRawFragmentView {
                            fragment_size: size,
                            fragment_type: ty,
                            name_ref: 0,
                            name: None,
                            contents: s.subrange(p + 8, p + 8 + size),
                        },
                        p + 8 + size,
                    ),
                )
            }
        } else if size < 4 {
            Err(EQFilesError::UnknownError)
        } else if p + 12 > s.len() {
            Err(EQFilesError::UnknownError)
        } else {
            let name_ref = as_signed32(le32_at(s, p + 8));
            if p + 12 + (size - 4) > s.len() {
                Err(EQFilesError::UnknownError)
            } else {
                Ok(
                    (
                        WldRawFragmentView {
                            fragment_size: size,
                            fragment_type: ty,
                            name_ref: name_ref,
                            name: spec_opt_name(names, name_ref),
                            contents: s.subrange(p + 12, p + 12 + (size - 4)),
                        },
                        p + 12 + (size - 4),
                    ),
                )
            }
        }
    }
}

impl WldRawFragment {
    /// Frames one fragment: reads the size and type words, then (newer
    /// revision) the name reference, and captures the payload bytes.
    pub fn new(input: &mut ByteCursor, names: &WldNames, old_world: bool) -> (r: Result<
        WldRawFragment,
        EQFilesError,
    >)
        requires
            old(input).wf(),
        ensures
            final(input).wf(),
            final(input).bytes() == old(input).bytes(),
            match spec_raw_fragment_decode(
                old(input).bytes(),
                old(input).position(),
                names@,
                old_world,
            ) {
                Ok((f, q)) => (r matches Ok(x) && x@ == f) && final(input).position() == q,
                Err(e) => r == Err::<WldRawFragment, EQFilesError>(e),
            },
    {
        let fragment_size = match input.u32le() {
            Ok(v) => v,
            Err(e) => { return Err(e) },
        };
        let fragment_type = match input.u32le() {
            Ok(v) => v,
            Err(e) => { return Err(e) },
        };
        if old_world {
            let contents = match input.take(fragment_size as usize) {
                Ok(v) => v,
                Err(e) => { return Err(e) },
            };
            Ok(
                WldRawFragment {
                    fragment_size,
                    fragment_type,
                    name_ref: 0,
                    name: None,
                    contents,
                },
            )
        } else {
            if fragment_size < 4 {
                return Err(EQFilesError::UnknownError);
            }
            let name_ref = match input.i32le() {
                Ok(v) => v,
                Err(e) => { return Err(e) },
            };
            let name = names.get_name(name_ref);
            let contents = match input.take((fragment_size - 4) as usize) {
                Ok(v) => v,
                Err(e) => { return Err(e) },
            };
            Ok(
                WldRawFragment {
                    fragment_size,
                    fragment_type,
                    name_ref,
                    name,
                    contents,
                },
            )
        }
    }
}

/// The views of a sequence of raw fragments.
pub open spec fn spec_fragment_views(frags: Seq<WldRawFragment>) -> Seq<WldRawFragmentView> {
    frags.map_values(|f: WldRawFragment| f@)
}

/// What framing `n` consecutive fragments from offset `p` yields: the frames
/// in encounter order and the offset just past them, or the first error.
pub open spec fn spec_fragments_decode(
    s: Seq<u8>,
    p: int,
    names: Seq<(u32, Seq<char>)>,
    old_world: bool,
    n: nat,
) -> Result<(Seq<WldRawFragmentView>, int), EQFilesError>
    decreases n,
{
    if n == 0 {
        Ok((Seq::empty(), p))
    } else {
        match spec_raw_fragment_decode(s, p, names, old_world) {
            Err(e) => Err(e),
            Ok((f, q)) => match spec_fragments_decode(s, q, names, old_world, (n - 1) as nat) {
                Err(e) => Err(e),
                Ok((fs, qq)) => Ok((seq![f] + fs, qq)),
            },
        }
    }
}

/// Framing `n` fragments yields exactly `n` frames, and each frame's payload
/// length is its declared size less the header fields consumed from it: the
/// whole size in the older revision, `size - 4` (the name reference) in the
/// newer one.
pub proof fn lemma_fragment_framing(
    s: Seq<u8>,
    p: int,
    names: Seq<(u32, Seq<char>)>,
    old_world: bool,
    n: nat,
)
    requires
        0 <= p,
        spec_fragments_decode(s, p, names, old_world, n) is Ok,
    ensures
        spec_fragments_decode(s, p, names, old_world, n)->Ok_0.0.len() == n,
        forall|k: int|
            0 <= k < n ==> {
                let f = #[trigger] spec_fragments_decode(s, p, names, old_world, n)->Ok_0.0[k];
                f.contents.len() == if old_world {
                    f.fragment_size as int
                } else {
                    f.fragment_size - 4
                }
            },
    decreases n,
{
    if n > 0 {
        assert(spec_raw_fragment_decode(s, p, names, old_world) is Ok);
        let (f, q) = spec_raw_fragment_decode(s, p, names, old_world)->Ok_0;
        assert(p <= q);
        let rest = spec_fragments_decode(s, q, names, old_world, (n - 1) as nat);
        lemma_fragment_framing(s, q, names, old_world, (n - 1) as nat);
        let all = spec_fragments_decode(s, p, names, old_world, n)->Ok_0.0;
        assert(all == seq![f] + rest->Ok_0.0);
        assert(f.contents.len() == if old_world {
            f.fragment_size as int
        } else {
            f.fragment_size - 4
        });
        assert forall|k: int| 0 <= k < n implies {
            let g = #[trigger] all[k];
            g.contents.len() == if old_world {
                g.fragment_size as int
            } else {
                g.fragment_size - 4
            }
        } by {
            if k > 0 {
                assert(all[k] == rest->Ok_0.0[k - 1]);
            }
        }
    }
}

/// The framing law at file level: a successfully decoded world file holds
/// exactly `fragment_count` fragments, numbered by slot in encounter order.
pub proof fn lemma_wld_fragment_count(s: Seq<u8>, p: int)
    requires
        0 <= p,
        spec_wld_decode(s, p) is Ok,
    ensures
        spec_wld_decode(s, p)->Ok_0.0.fragments.len() == spec_wld_decode(
            s,
            p,
        )->Ok_0.0.header.fragment_count,
{
    let (h, p1) = spec_header_decode(s, p)->Ok_0;
    let d = xor_decoded(s.subrange(p1, p1 + h.string_hash_size));
    lemma_fragment_framing(
        s,
        p1 + h.string_hash_size,
        spec_names_decoded(d),
        h.is_old_world,
        h.fragment_count as nat,
    );
}

/// The ghost value of a whole decoded world file.
pub struct WldFileView {
    pub header: WldHeader,
    pub names: Seq<(u32, Seq<char>)>,
    pub fragments: Seq<WldRawFragmentView>,
}

/// A decoded world file: header, name table and the raw fragment stream,
/// ready for on-demand typed decoding.  Fragment slot numbers are 1-based in
/// encounter order: slot `i` is `fragments[i - 1]`.
pub struct WldFile {
    pub header: WldHeader,
    pub names: WldNames,
    pub fragments: Vec<WldRawFragment>,
}

impl View for WldFile {
    type V = WldFileView;

    open spec fn view(&self) -> WldFileView {
        WldFileView {
            header: self.header,
            names: self.names@,
            fragments: spec_fragment_views(self.fragments@),
        }
    }
}

/// What decoding a whole world file from offset `p` of `s` yields: header,
/// then the name blob sized by the header, then exactly `fragment_count`
/// frames.
pub open spec fn spec_wld_decode(s: Seq<u8>, p: int) -> Result<(WldFileView, int), EQFilesError> {
    match spec_header_decode(s, p) {
        Err(e) => Err(e),
        Ok((h, p1)) => {
            if p1 + h.string_hash_size > s.len() {
                Err(EQFilesError::UnknownError)
            } else {
                let d = xor_decoded(s.subrange(p1, p1 + h.string_hash_size));
                if !spec_names_ok(d) {
                    Err(EQFilesError::ErrorDecodingString)
                } else {
                    let names = spec_names_decoded(d);
                    match spec_fragments_decode(
                        s,
                        p1 + h.string_hash_size,
                        names,
                        h.is_old_world,
                        h.fragment_count as nat,
                    ) {
                        Err(e) => Err(e),
                        Ok((fs, q)) => Ok((WldFileView { header: h, names: names, fragments: fs }, q)),
                    }
                }
            }
        },
    }
}

impl WldFile {
    /// Decodes a world file: header, name table, then the full raw fragment
    /// stream.
    #[verifier::loop_isolation(false)]
    pub fn new(input: &mut ByteCursor) -> (r: Result<WldFile, EQFilesError>)
        requires
            old(input).wf(),
        ensures
            final(input).wf(),
            final(input).bytes() == old(input).bytes(),
            match spec_wld_decode(old(input).bytes(), old(input).position()) {
                Ok((v, q)) => (r matches Ok(w) && w@ == v) && final(input).position() == q,
                Err(e) => r == Err::<WldFile, EQFilesError>(e),
            },
    {
        let header = match WldHeader::new(input) {
            Ok(h) => h,
            Err(e) => { return Err(e) },
        };
        let names = match WldNames::new(input, header.string_hash_size) {
            Ok(n) => n,
            Err(e) => { return Err(e) },
        };
        let ghost p0 = input.position();
        let n = header.fragment_count;
        let mut fragments: Vec<WldRawFragment> = Vec::new();
        let mut i: u32 = 0;
        while i < n
            invariant
                input.wf(),
                input.bytes() == old(input).bytes(),
                0 <= i <= n,
                fragments@.len() == i as int,
                match spec_fragments_decode(
                    input.bytes(),
                    input.position(),
                    names@,
                    header.is_old_world,
                    (n - i) as nat,
                ) {
                    Ok((fs, q)) => spec_fragments_decode(
                        input.bytes(),
                        p0,
                        names@,
                        header.is_old_world,
                        n as nat,
                    ) == Ok::<(Seq<WldRawFragmentView>, int), EQFilesError>(
                        (spec_fragment_views(fragments@) + fs, q),
                    ),
                    Err(e) => spec_fragments_decode(
                        input.bytes(),
                        p0,
                        names@,
                        header.is_old_world,
                        n as nat,
                    ) == Err::<(Seq<WldRawFragmentView>, int), EQFilesError>(e),
                },
            decreases n - i,
        {
            let frag = match WldRawFragment::new(input, &names, header.is_old_world) {
                Ok(f) => f,
                Err(e) => { return Err(e) },
            };
            proof {
                let rest = spec_fragments_decode(
                    input.bytes(),
                    input.position(),
                    names@,
                    header.is_old_world,
                    (n - i - 1) as nat,
                );
                if rest is Ok {
                    assert(spec_fragment_views(fragments@.push(frag)) + rest->Ok_0.0
                        =~= spec_fragment_views(fragments@) + (seq![frag@] + rest->Ok_0.0));
                }
            }
            fragments.push(frag);
            i = i + 1;
        }
        proof {
            assert(spec_fragment_views(fragments@) + Seq::<WldRawFragmentView>::empty()
                =~= spec_fragment_views(fragments@));
        }
        let r = WldFile { header, names, fragments };
        proof {
            let (v, q) = spec_wld_decode(old(input).bytes(), old(input).position())->Ok_0;
            assert(r@.fragments =~= v.fragments);
        }
        Ok(r)
    }

    /// The stored type tag of the fragment in 1-based slot `index`.
    pub fn type_by_index(&self, index: u32) -> (r: u32)
        requires
            1 <= index <= self@.fragments.len(),
        ensures
            r == self@.fragments[index - 1].fragment_type,
    {
        self.fragments[(index - 1) as usize].fragment_type
    }
}

/// The decode context a world file hands to the fragment in view `f`.
pub open spec fn spec_settings_for(file: WldFileView, f: WldRawFragmentView) -> SettingsView {
    SettingsView {
        old_world: file.header.is_old_world,
        names: file.names,
        name_ref: f.name_ref,
        name: f.name,
    }
}

/// The first fragment at slot `k` or later whose name is exactly `name`,
/// whose type tag is `T`'s, and that decodes successfully.
pub open spec fn spec_find_by_name<T: WldFragment>(
    file: WldFileView,
    k: int,
    name: Seq<char>,
) -> Option<T::V>
    decreases file.fragments.len() - k,
{
    if k < 0 || k >= file.fragments.len() {
        None
    } else {
        let f = file.fragments[k];
        if f.name == Some(name) && f.fragment_type == T::spec_type_tag() {
            match T::spec_decode(f.contents, 0, spec_settings_for(file, f)) {
                Ok((v, q)) => Some(v),
                Err(_) => spec_find_by_name::<T>(file, k + 1, name),
            }
        } else {
            spec_find_by_name::<T>(file, k + 1, name)
        }
    }
}

/// Every fragment at slot `k` or later whose name contains `pat`, whose
/// type tag is `T`'s, and that decodes successfully, in slot order.
pub open spec fn spec_containing_name<T: WldFragment>(
    file: WldFileView,
    k: int,
    pat: Seq<char>,
) -> Seq<T::V>
    decreases file.fragments.len() - k,
{
    if k < 0 || k >= file.fragments.len() {
        Seq::empty()
    } else {
        let f = file.fragments[k];
        let rest = spec_containing_name::<T>(file, k + 1, pat);
        let hit = match f.name {
            Some(nm) => spec_bytes_contain(encode_utf8(nm), encode_utf8(pat))
                && f.fragment_type == T::spec_type_tag(),
            None => false,
        };
        if hit {
            match T::spec_decode(f.contents, 0, spec_settings_for(file, f)) {
                Ok((v, q)) => seq![v] + rest,
                Err(_) => rest,
            }
        } else {
            rest
        }
    }
}

/// Every fragment at slot `k` or later whose stored type tag is `typ` and
/// `T`'s, and that decodes successfully, in slot order.
pub open spec fn spec_by_type<T: WldFragment>(file: WldFileView, k: int, typ: u32) -> Seq<T::V>
    decreases file.fragments.len() - k,
{
    if k < 0 || k >= file.fragments.len() {
        Seq::empty()
    } else {
        let f = file.fragments[k];
        let rest = spec_by_type::<T>(file, k + 1, typ);
        if f.fragment_type == typ && f.fragment_type == T::spec_type_tag() {
            match T::spec_decode(f.contents, 0, spec_settings_for(file, f)) {
                Ok((v, q)) => seq![v] + rest,
                Err(_) => rest,
            }
        } else {
            rest
        }
    }
}

impl WldFile {
    fn settings_for<'a>(&'a self, frag: &WldRawFragment) -> (r: Settings<'a>)
        ensures
            r@ == spec_settings_for(self@, frag@),
    {
        Settings {
            header: self.header,
            names: &self.names,
            name_ref: frag.name_ref,
            name: match &frag.name {
                Some(s) => Some(s.clone()),
                None => None,
            },
        }
    }

    fn decode_fragment<T: WldFragment>(&self, k: usize) -> (r: Result<T, EQFilesError>)
        requires
            0 <= k < self@.fragments.len(),
        ensures
            match T::spec_decode(
                self@.fragments[k as int].contents,
                0,
                spec_settings_for(self@, self@.fragments[k as int]),
            ) {
                Ok((v, q)) => r matches Ok(x) && x@ == v,
                Err(e) => r == Err::<T, EQFilesError>(e),
            },
    {
        let frag = &self.fragments[k];
        let settings = self.settings_for(frag);
        let data = vstd::slice::slice_to_vec(frag.contents.as_slice());
        let mut cursor = ByteCursor::new(data);
        T::new(&mut cursor, &settings)
    }

    /// Decodes the fragment in 1-based slot `index` as the typed kind `T`.
    /// A caller must route by type first: a stored tag that does not match
    /// `T`'s is a contract violation, not a recoverable error.
    pub fn fragment_by_index<T: WldFragment>(&self, index: u32) -> (r: Option<T>)
        requires
            1 <= index <= self@.fragments.len() ==> self@.fragments[index - 1].fragment_type
                == T::spec_type_tag(),
        ensures
            ({
                if 1 <= index <= self@.fragments.len() {
                    let f = self@.fragments[index - 1];
                    match T::spec_decode(f.contents, 0, spec_settings_for(self@, f)) {
                        Ok((v, q)) => r matches Some(x) && x@ == v,
                        Err(_) => r is None,
                    }
                } else {
                    r is None
                }
            }),
    {
        if index < 1 || index as usize > self.fragments.len() {
            return None;
        }
        match self.decode_fragment::<T>((index - 1) as usize) {
            Ok(x) => Some(x),
            Err(_) => None,
        }
    }

    /// The first fragment, in slot order, whose name is exactly `name`,
    /// whose type tag is `T`'s, and that decodes successfully.
    #[verifier::loop_isolation(false)]
    pub fn fragment_by_name<T: WldFragment>(&self, name: String) -> (r: Option<T>)
        ensures
            match spec_find_by_name::<T>(self@, 0, name@) {
                Some(v) => r matches Some(x) && x@ == v,
                None => r is None,
            },
    {
        let n = self.fragments.len();
        let mut k: usize = 0;
        while k < n
            invariant
                n == self.fragments.len(),
                0 <= k <= n,
                spec_find_by_name::<T>(self@, 0, name@) == spec_find_by_name::<T>(
                    self@,
                    k as int,
                    name@,
                ),
            decreases n - k,
        {
            let frag = &self.fragments[k];
            let name_hit = match &frag.name {
                Some(s) => s.eq(&name),
                None => false,
            };
            if name_hit && frag.fragment_type == T::type_tag() {
                match self.decode_fragment::<T>(k) {
                    Ok(x) => { return Some(x) },
                    Err(_) => {},
                }
            }
            k = k + 1;
        }
        None
    }

    /// Every fragment, in slot order, whose name contains `contents`, whose
    /// type tag is `T`'s, and that decodes successfully.
    #[verifier::loop_isolation(false)]
    pub fn fragments_containing_name<T: WldFragment>(&self, contents: String) -> (r: Vec<T>)
        ensures
            r@.map_values(|x: T| x@) == spec_containing_name::<T>(self@, 0, contents@),
    {
        let n = self.fragments.len();
        let mut result: Vec<T> = Vec::new();
        let mut k: usize = 0;
        while k < n
            invariant
                n == self.fragments.len(),
                0 <= k <= n,
                spec_containing_name::<T>(self@, 0, contents@) == result@.map_values(|x: T| x@)
                    + spec_containing_name::<T>(self@, k as int, contents@),
            decreases n - k,
        {
            let frag = &self.fragments[k];
            let name_hit = match &frag.name {
                Some(s) => bytes_contain(s.as_str().as_bytes(), contents.as_str().as_bytes()),
                None => false,
            };
            if name_hit && frag.fragment_type == T::type_tag() {
                match self.decode_fragment::<T>(k) {
                    Ok(x) => {
                        proof {
                            let rest = spec_containing_name::<T>(self@, k + 1, contents@);
                            assert(result@.push(x).map_values(|y: T| y@) + rest
                                =~= result@.map_values(|y: T| y@) + (seq![x@] + rest));
                        }
                        result.push(x);
                    },
                    Err(_) => {},
                }
            }
            k = k + 1;
        }
        proof {
            assert(result@.map_values(|x: T| x@) + Seq::<T::V>::empty() =~= result@.map_values(
                |x: T| x@,
            ));
        }
        result
    }

    /// Every fragment, in slot order, whose stored type tag is `typ` and
    /// `T`'s, and that decodes successfully.
    #[verifier::loop_isolation(false)]
    pub fn fragments_by_type<T: WldFragment>(&self, typ: u32) -> (r: Vec<T>)
        ensures
            r@.map_values(|x: T| x@) == spec_by_type::<T>(self@, 0, typ),
    {
        let n = self.fragments.len();
        let mut result: Vec<T> = Vec::new();
        let mut k: usize = 0;
        while k < n
            invariant
                n == self.fragments.len(),
                0 <= k <= n,
                spec_by_type::<T>(self@, 0, typ) == result@.map_values(|x: T| x@)
                    + spec_by_type::<T>(self@, k as int, typ),
            decreases n - k,
        {
            let frag = &self.fragments[k];
            if frag.fragment_type == typ && frag.fragment_type == T::type_tag() {
                match self.decode_fragment::<T>(k) {
                    Ok(x) => {
                        proof {
                            let rest = spec_by_type::<T>(self@, k + 1, typ);
                            assert(result@.push(x).map_values(|y: T| y@) + rest
                                =~= result@.map_values(|y: T| y@) + (seq![x@] + rest));
                        }
                        result.push(x);
                    },
                    Err(_) => {},
                }
            }
            k = k + 1;
        }
        proof {
            assert(result@.map_values(|x: T| x@) + Seq::<T::V>::empty() =~= result@.map_values(
                |x: T| x@,
            ));
        }
        result
    }

    /// Every material fragment, decoded.
    pub fn materials(&self) -> (r: Vec<crate::fragments::WldTexture>)
        ensures
            r@.map_values(|x: crate::fragments::WldTexture| x@) == spec_by_type::<
                crate::fragments::WldTexture,
            >(self@, 0, 48),
    {
        self.fragments_by_type::<crate::fragments::WldTexture>(48)
    }

    /// Every model fragment, decoded.
    pub fn models(&self) -> (r: Vec<crate::fragments::model::WldModel>)
        ensures
            r@.map_values(|x: crate::fragments::model::WldModel| x@) == spec_by_type::<
                crate::fragments::model::WldModel,
            >(self@, 0, 20),
    {
        self.fragments_by_type::<crate::fragments::model::WldModel>(20)
    }
}

} // verus!
