//! The pack-file archive: a directory of CRC-keyed entries whose contents
//! are split into zlib-compressed blocks, plus a trailing directory entry
//! holding the filename list.

use vstd::prelude::*;
use vstd::utf8::encode_utf8;

use crate::cursor::{le32_at, ByteCursor};
use crate::strings::{
    eq_ignore_case, spec_decoded_string, spec_eq_ignore_ascii_case, string_views,
};
use crate::strings::decode_string;
use crate::EQFilesError;

verus! {

/// What the zlib stream `data` inflates to.  Relied on below; inflation is
/// a function of the compressed bytes alone.
pub uninterp spec fn inflated(data: Seq<u8>) -> Seq<u8>;

/// Whether `data` is a zlib stream that inflation accepts.  Like the
/// stream's contents, acceptance depends on the bytes alone.
pub uninterp spec fn zlib_ok(data: Seq<u8>) -> bool;

/// Relies on `miniz_oxide::inflate::decompress_to_vec_zlib`, a pure-Rust
/// RFC 1950 inflater that forbids unsafe code and reports malformed input
/// as an error value rather than panicking.  Whether the call succeeds,
/// and what it yields when it does, are functions of the compressed bytes
/// alone, named `zlib_ok` and `inflated` here.
#[verifier::external_body]
fn inflate(data: &[u8]) -> (r: Option<Vec<u8>>)
    ensures
        r is Some <==> zlib_ok(data@),
        r matches Some(v) ==> v@ == inflated(data@),
{
    miniz_oxide::inflate::decompress_to_vec_zlib(data).ok()
}

/// Whether every block of a list holds a zlib stream that inflation
/// accepts.
pub open spec fn spec_blocks_inflatable(bs: Seq<PackFileBlockView>) -> bool {
    forall|k: int| 0 <= k < bs.len() ==> zlib_ok(#[trigger] bs[k].data)
}

/// The fixed pack-file header: three 32-bit words.
#[derive(Clone, Copy, Debug, PartialEq, Eq, Structural)]
pub struct PackFileHeader {
    pub directory_offset: u32,
    pub magic_number: u32,
    pub version: u32,
}

/// What decoding a pack-file header at offset `p` yields.
pub open spec fn spec_pack_header_decode(s: Seq<u8>, p: int) -> Result<
    (PackFileHeader, int),
    EQFilesError,
> {
    if p + 12 > s.len() {
        Err(EQFilesError::UnknownError)
    } else {
        Ok(
            (
                PackFileHeader {
                    directory_offset: le32_at(s, p),
                    magic_number: le32_at(s, p + 4),
                    version: le32_at(s, p + 8),
                },
                p + 12,
            ),
        )
    }
}

impl PackFileHeader {
    pub fn new(input: &mut ByteCursor) -> (r: Result<PackFileHeader, EQFilesError>)
        requires
            old(input).wf(),
        ensures
            final(input).wf(),
            final(input).bytes() == old(input).bytes(),
            match spec_pack_header_decode(old(input).bytes(), old(input).position()) {
                Ok((h, q)) => r == Ok::<PackFileHeader, EQFilesError>(h) && final(input).position()
                    == q,
                Err(e) => r == Err::<PackFileHeader, EQFilesError>(e),
            },
    {
        let directory_offset = match input.u32le() {
            Ok(v) => v,
            Err(e) => { return Err(e) },
        };
        let magic_number = match input.u32le() {
            Ok(v) => v,
            Err(e) => { return Err(e) },
        };
        let version = match input.u32le() {
            Ok(v) => v,
            Err(e) => { return Err(e) },
        };
        Ok(PackFileHeader { directory_offset, magic_number, version })
    }
}

/// One compression block: an 8-byte header and the compressed payload.
#[derive(Clone, Debug)]
pub struct PackFileBlock {
    pub compressed_size: u32,
    pub uncompressed_size: u32,
    pub data: Vec<u8>,
}

pub struct PackFileBlockView {
    pub compressed_size: u32,
    pub uncompressed_size: u32,
    pub data: Seq<u8>,
}

impl View for PackFileBlock {
    type V = PackFileBlockView;

    open spec fn view(&self) -> PackFileBlockView {
        PackFileBlockView {
            compressed_size: self.compressed_size,
            uncompressed_size: self.uncompressed_size,
            data: self.data@,
        }
    }
}

/// What decoding one block at offset `p` yields.
pub open spec fn spec_block_decode(s: Seq<u8>, p: int) -> Result<
    (PackFileBlockView, int),
    EQFilesError,
> {
    if p + 8 > s.len() {
        Err(EQFilesError::UnknownError)
    } else {
        let compressed_size = le32_at(s, p);
        let uncompressed_size = le32_at(s, p + 4);
        if p + 8 + compressed_size > s.len() {
            Err(EQFilesError::UnknownError)
        } else {
            Ok(
                (
                    PackFileBlockView {
                        compressed_size,
                        uncompressed_size,
                        data: s.subrange(p + 8, p + 8 + compressed_size),
                    },
                    p + 8 + compressed_size,
                ),
            )
        }
    }
}

impl PackFileBlock {
    pub fn new(input: &mut ByteCursor) -> (r: Result<PackFileBlock, EQFilesError>)
        requires
            old(input).wf(),
        ensures
            final(input).wf(),
            final(input).bytes() == old(input).bytes(),
            match spec_block_decode(old(input).bytes(), old(input).position()) {
                Ok((b, q)) => (r matches Ok(x) && x@ == b) && final(input).position() == q,
                Err(e) => r == Err::<PackFileBlock, EQFilesError>(e),
            },
    {
        let compressed_size = match input.u32le() {
            Ok(v) => v,
            Err(e) => { return Err(e) },
        };
        let uncompressed_size = match input.u32le() {
            Ok(v) => v,
            Err(e) => { return Err(e) },
        };
        let data = match input.take(compressed_size as usize) {
            Ok(v) => v,
            Err(e) => { return Err(e) },
        };
        Ok(PackFileBlock { compressed_size, uncompressed_size, data })
    }
}

/// What walking blocks from `p` until exactly `remaining` uncompressed
/// bytes are covered yields.  A block that covers nothing or overshoots the
/// remainder marks a corrupt archive.
pub open spec fn spec_block_walk(s: Seq<u8>, p: int, remaining: int) -> Result<
    Seq<PackFileBlockView>,
    EQFilesError,
>
    decreases remaining,
{
    if remaining <= 0 {
        Ok(Seq::empty())
    } else {
        match spec_block_decode(s, p) {
            Err(e) => Err(e),
            Ok((b, q)) => {
                if b.uncompressed_size == 0 || b.uncompressed_size > remaining {
                    Err(EQFilesError::UnknownError)
                } else {
                    match spec_block_walk(s, q, remaining - b.uncompressed_size) {
                        Err(e) => Err(e),
                        Ok(rest) => Ok(seq![b] + rest),
                    }
                }
            },
        }
    }
}

/// The sum of the uncompressed sizes that a block list declares.
pub open spec fn spec_blocks_size_sum(bs: Seq<PackFileBlockView>) -> int
    decreases bs.len(),
{
    if bs.len() == 0 {
        0
    } else {
        bs[0].uncompressed_size + spec_blocks_size_sum(bs.drop_first())
    }
}

/// The block-walk law: a successful walk covers the declared uncompressed
/// size exactly, each block's payload is as long as its header declares,
/// and each block starts exactly `compressed_size + 8` bytes after the
/// previous one.
pub proof fn lemma_block_walk_exact(s: Seq<u8>, p: int, remaining: int)
    requires
        0 <= p,
        0 <= remaining,
        spec_block_walk(s, p, remaining) is Ok,
    ensures
        spec_blocks_size_sum(spec_block_walk(s, p, remaining)->Ok_0) == remaining,
        remaining > 0 ==> spec_block_walk(s, p, remaining)->Ok_0[0].data == s.subrange(
            p + 8,
            p + 8 + spec_block_walk(s, p, remaining)->Ok_0[0].compressed_size,
        ) && spec_block_walk(s, p, remaining)->Ok_0.drop_first() == spec_block_walk(
            s,
            p + 8 + spec_block_walk(s, p, remaining)->Ok_0[0].compressed_size,
            remaining - spec_block_walk(s, p, remaining)->Ok_0[0].uncompressed_size,
        )->Ok_0,
    decreases remaining,
{
    if remaining > 0 {
        let (b, q) = spec_block_decode(s, p)->Ok_0;
        lemma_block_walk_exact(s, q, remaining - b.uncompressed_size);
        let rest = spec_block_walk(s, q, remaining - b.uncompressed_size)->Ok_0;
        assert(spec_block_walk(s, p, remaining)->Ok_0 == seq![b] + rest);
        assert((seq![b] + rest).drop_first() =~= rest);
        assert(spec_blocks_size_sum(seq![b] + rest) == b.uncompressed_size
            + spec_blocks_size_sum((seq![b] + rest).drop_first()));
    }
}

/// Walks the blocks of one entry, starting at `start` in the block-contents
/// region, until exactly `size` uncompressed bytes are covered.
#[verifier::loop_isolation(false)]
fn walk_blocks(input: &mut ByteCursor, start: usize, size: u32) -> (r: Result<
    Vec<PackFileBlock>,
    EQFilesError,
>)
    requires
        old(input).wf(),
    ensures
        final(input).wf(),
        final(input).bytes() == old(input).bytes(),
        match spec_block_walk(old(input).bytes(), start as int, size as int) {
            Ok(bs) => r matches Ok(v) && v@.map_values(|b: PackFileBlock| b@) == bs,
            Err(e) => r == Err::<Vec<PackFileBlock>, EQFilesError>(e),
        },
{
    let mut blocks: Vec<PackFileBlock> = Vec::new();
    if size == 0 {
        proof {
            assert(blocks@.map_values(|b: PackFileBlock| b@) =~= Seq::<PackFileBlockView>::empty());
        }
        return Ok(blocks);
    }
    match input.seek(start) {
        Ok(_) => {},
        Err(_) => { return Err(EQFilesError::UnknownError) },
    }
    let mut remaining: u32 = size;
    while remaining > 0
        invariant
            input.wf(),
            input.bytes() == old(input).bytes(),
            0 <= remaining <= size,
            match spec_block_walk(input.bytes(), input.position(), remaining as int) {
                Ok(bs) => spec_block_walk(input.bytes(), start as int, size as int) == Ok::<
                    Seq<PackFileBlockView>,
                    EQFilesError,
                >(blocks@.map_values(|b: PackFileBlock| b@) + bs),
                Err(e) => spec_block_walk(input.bytes(), start as int, size as int) == Err::<
                    Seq<PackFileBlockView>,
                    EQFilesError,
                >(e),
            },
        decreases remaining,
    {
        let b = match PackFileBlock::new(input) {
            Ok(b) => b,
            Err(e) => { return Err(e) },
        };
        if b.uncompressed_size == 0 || b.uncompressed_size > remaining {
            return Err(EQFilesError::UnknownError);
        }
        let ghost prev = blocks@.map_values(|x: PackFileBlock| x@);
        proof {
            let rest = spec_block_walk(
                input.bytes(),
                input.position(),
                remaining - b.uncompressed_size,
            );
            if rest is Ok {
                assert(blocks@.push(b).map_values(|x: PackFileBlock| x@) + rest->Ok_0 =~= prev
                    + (seq![b@] + rest->Ok_0));
            }
        }
        remaining = remaining - b.uncompressed_size;
        blocks.push(b);
    }
    proof {
        assert(blocks@.map_values(|x: PackFileBlock| x@) + Seq::<PackFileBlockView>::empty()
            =~= blocks@.map_values(|x: PackFileBlock| x@));
    }
    Ok(blocks)
}

/// One archive entry: the directory record plus, once the block-contents
/// region has been walked, its compression blocks.
#[derive(Clone, Debug)]
pub struct PackFileEntry {
    pub filename_crc: u32,
    pub pointer: u32,
    pub uncompressed_size: u32,
    pub blocks: Option<Vec<PackFileBlock>>,
}

pub struct PackFileEntryView {
    pub filename_crc: u32,
    pub pointer: u32,
    pub uncompressed_size: u32,
    pub blocks: Option<Seq<PackFileBlockView>>,
}

impl View for PackFileEntry {
    type V = PackFileEntryView;

    open spec fn view(&self) -> PackFileEntryView {
        PackFileEntryView {
            filename_crc: self.filename_crc,
            pointer: self.pointer,
            uncompressed_size: self.uncompressed_size,
            blocks: match self.blocks {
                Some(bs) => Some(bs@.map_values(|b: PackFileBlock| b@)),
                None => None,
            },
        }
    }
}

/// What decoding one 12-byte directory record at offset `p` yields.
pub open spec fn spec_entry_decode(s: Seq<u8>, p: int) -> Result<
    (PackFileEntryView, int),
    EQFilesError,
> {
    if p + 12 > s.len() {
        Err(EQFilesError::UnknownError)
    } else {
        Ok(
            (
                PackFileEntryView {
                    filename_crc: le32_at(s, p),
                    pointer: le32_at(s, p + 4),
                    uncompressed_size: le32_at(s, p + 8),
                    blocks: None,
                },
                p + 12,
            ),
        )
    }
}

/// What the whole decompressed contents of a block list is: each block's
/// inflated payload, in order.
pub open spec fn spec_decompressed_from(bs: Seq<PackFileBlockView>, k: int) -> Seq<u8>
    decreases bs.len() - k,
{
    if k < 0 || k >= bs.len() {
        Seq::empty()
    } else {
        inflated(bs[k].data) + spec_decompressed_from(bs, k + 1)
    }
}

pub open spec fn spec_decompressed(bs: Seq<PackFileBlockView>) -> Seq<u8> {
    spec_decompressed_from(bs, 0)
}

proof fn lemma_decompressed_length_from(bs: Seq<PackFileBlockView>, k: int)
    requires
        0 <= k <= bs.len(),
        forall|t: int|
            0 <= t < bs.len() ==> inflated(#[trigger] bs[t].data).len() == bs[t].uncompressed_size,
    ensures
        spec_decompressed_from(bs, k).len() == spec_blocks_size_sum(bs.skip(k)),
    decreases bs.len() - k,
{
    if k < bs.len() {
        lemma_decompressed_length_from(bs, k + 1);
        assert(bs.skip(k).drop_first() =~= bs.skip(k + 1));
        assert(bs.skip(k)[0] == bs[k]);
    } else {
        assert(bs.skip(k) =~= Seq::<PackFileBlockView>::empty());
    }
}

/// The decompressed-length law: when each block's inflated contents are as
/// long as its header declares, an entry's decompressed contents are
/// exactly the sum of the declared sizes — together with the block-walk
/// law, exactly the entry's declared uncompressed size.
pub proof fn lemma_decompressed_length(bs: Seq<PackFileBlockView>)
    requires
        forall|t: int|
            0 <= t < bs.len() ==> inflated(#[trigger] bs[t].data).len() == bs[t].uncompressed_size,
    ensures
        spec_decompressed(bs).len() == spec_blocks_size_sum(bs),
{
    lemma_decompressed_length_from(bs, 0);
    assert(bs.skip(0) =~= bs);
}

impl PackFileEntry {
    pub fn new(input: &mut ByteCursor) -> (r: Result<PackFileEntry, EQFilesError>)
        requires
            old(input).wf(),
        ensures
            final(input).wf(),
            final(input).bytes() == old(input).bytes(),
            match spec_entry_decode(old(input).bytes(), old(input).position()) {
                Ok((e, q)) => (r matches Ok(x) && x@ == e) && final(input).position() == q,
                Err(e) => r == Err::<PackFileEntry, EQFilesError>(e),
            },
    {
        let filename_crc = match input.u32le() {
            Ok(v) => v,
            Err(e) => { return Err(e) },
        };
        let pointer = match input.u32le() {
            Ok(v) => v,
            Err(e) => { return Err(e) },
        };
        let uncompressed_size = match input.u32le() {
            Ok(v) => v,
            Err(e) => { return Err(e) },
        };
        Ok(PackFileEntry { filename_crc, pointer, uncompressed_size, blocks: None })
    }

    /// Inflates and concatenates this entry's blocks.  Fails exactly when
    /// the blocks are missing or the inflater rejects one of them.
    #[verifier::loop_isolation(false)]
    pub fn decompress(&self) -> (r: Result<Vec<u8>, EQFilesError>)
        ensures
            match self@.blocks {
                None => r == Err::<Vec<u8>, EQFilesError>(EQFilesError::UnknownError),
                Some(bs) => if spec_blocks_inflatable(bs) {
                    r matches Ok(v) && v@ == spec_decompressed(bs)
                } else {
                    r == Err::<Vec<u8>, EQFilesError>(EQFilesError::UnknownError)
                },
            },
    {
        let blocks = match &self.blocks {
            Some(bs) => bs,
            None => { return Err(EQFilesError::UnknownError) },
        };
        let ghost bviews = blocks@.map_values(|b: PackFileBlock| b@);
        proof {
            assert(self@.blocks == Some(bviews));
        }
        let mut out: Vec<u8> = Vec::new();
        let mut k: usize = 0;
        while k < blocks.len()
            invariant
                bviews == blocks@.map_values(|b: PackFileBlock| b@),
                0 <= k <= blocks@.len(),
                forall|t: int| 0 <= t < k ==> zlib_ok(#[trigger] bviews[t].data),
                spec_decompressed(bviews) == out@ + spec_decompressed_from(bviews, k as int),
            decreases blocks@.len() - k,
        {
            proof {
                assert(blocks@[k as int]@ == bviews[k as int]);
            }
            let mut part = match inflate(blocks[k].data.as_slice()) {
                Some(v) => v,
                None => {
                    proof {
                        assert(!zlib_ok(bviews[k as int].data));
                        assert(!spec_blocks_inflatable(bviews));
                    }
                    return Err(EQFilesError::UnknownError);
                },
            };
            proof {
                assert((out@ + part@) + spec_decompressed_from(bviews, k as int + 1) =~= out@ + (
                inflated(bviews[k as int].data) + spec_decompressed_from(bviews, k as int + 1)));
            }
            out.append(&mut part);
            k = k + 1;
        }
        proof {
            assert(out@ + Seq::<u8>::empty() =~= out@);
            assert(spec_blocks_inflatable(bviews));
        }
        Ok(out)
    }
}

/// The entry list with `e` placed before the first stored entry whose
/// pointer exceeds `e`'s, scanning from the back: the stable
/// insertion-by-pointer step.
pub open spec fn spec_insert_by_pointer(
    out: Seq<PackFileEntryView>,
    e: PackFileEntryView,
) -> Seq<PackFileEntryView>
    decreases out.len(),
{
    if out.len() == 0 {
        seq![e]
    } else if out.last().pointer <= e.pointer {
        out.push(e)
    } else {
        spec_insert_by_pointer(out.drop_last(), e).push(out.last())
    }
}

/// The entry list sorted by pointer, stably: what repeated insertion of
/// each entry in stream order produces.
pub open spec fn spec_sort_entries(s: Seq<PackFileEntryView>) -> Seq<PackFileEntryView>
    decreases s.len(),
{
    if s.len() == 0 {
        Seq::empty()
    } else {
        spec_insert_by_pointer(spec_sort_entries(s.drop_last()), s.last())
    }
}

/// Whether neighbouring entries are ordered by pointer.
pub open spec fn spec_sorted_by_pointer(s: Seq<PackFileEntryView>) -> bool {
    forall|i: int| 0 <= i < s.len() - 1 ==> #[trigger] s[i].pointer <= s[i + 1].pointer
}

proof fn lemma_insert_by_pointer_sorted(out: Seq<PackFileEntryView>, e: PackFileEntryView)
    requires
        spec_sorted_by_pointer(out),
    ensures
        spec_sorted_by_pointer(spec_insert_by_pointer(out, e)),
        spec_insert_by_pointer(out, e).len() == out.len() + 1,
        spec_insert_by_pointer(out, e).last() == e || (out.len() > 0 && spec_insert_by_pointer(
            out,
            e,
        ).last() == out.last()),
    decreases out.len(),
{
    if out.len() == 0 {
    } else if out.last().pointer <= e.pointer {
        let r = out.push(e);
        assert forall|i: int| 0 <= i < r.len() - 1 implies #[trigger] r[i].pointer <= r[i
            + 1].pointer by {
            if i < out.len() - 1 {
                assert(out[i].pointer <= out[i + 1].pointer);
            }
        }
    } else {
        let dl = out.drop_last();
        assert(spec_sorted_by_pointer(dl));
        lemma_insert_by_pointer_sorted(dl, e);
        let inner = spec_insert_by_pointer(dl, e);
        let r = inner.push(out.last());
        if inner.last() == e {
            assert(inner.last().pointer <= out.last().pointer);
        } else if dl.len() > 0 {
            assert(dl.last() == out[out.len() - 2]);
            assert(out[out.len() - 2].pointer <= out[out.len() - 1].pointer);
        }
        assert forall|i: int| 0 <= i < r.len() - 1 implies #[trigger] r[i].pointer <= r[i
            + 1].pointer by {
            if i < inner.len() - 1 {
                assert(inner[i].pointer <= inner[i + 1].pointer);
            }
        }
    }
}

/// The directory-order law: however the records lie on disk, the parsed
/// entry list is sorted by pointer ascending, so the block walk and the
/// positional filename alignment are well defined.
pub proof fn lemma_sort_entries_sorted(s: Seq<PackFileEntryView>)
    ensures
        spec_sorted_by_pointer(spec_sort_entries(s)),
        spec_sort_entries(s).len() == s.len(),
    decreases s.len(),
{
    if s.len() > 0 {
        lemma_sort_entries_sorted(s.drop_last());
        lemma_insert_by_pointer_sorted(spec_sort_entries(s.drop_last()), s.last());
    }
}

/// Inserts `e` into `out`, which is kept sorted by pointer.
fn insert_by_pointer(out: &mut Vec<PackFileEntry>, e: PackFileEntry)
    ensures
        final(out)@.map_values(|x: PackFileEntry| x@) == spec_insert_by_pointer(
            old(out)@.map_values(|x: PackFileEntry| x@),
            e@,
        ),
{
    let ghost full = old(out)@.map_values(|x: PackFileEntry| x@);
    let n = out.len();
    let mut idx: usize = n;
    proof {
        assert(full.skip(n as int) =~= Seq::<PackFileEntryView>::empty());
        assert(full.take(n as int) =~= full);
        assert(spec_insert_by_pointer(full, e@) == spec_insert_by_pointer(
            full.take(idx as int),
            e@,
        ) + full.skip(idx as int));
    }
    while idx > 0
        invariant
            n == out.len(),
            full == out@.map_values(|x: PackFileEntry| x@),
            0 <= idx <= n,
            spec_insert_by_pointer(full, e@) == spec_insert_by_pointer(full.take(idx as int), e@)
                + full.skip(idx as int),
        ensures
            0 <= idx <= n,
            spec_insert_by_pointer(full, e@) == spec_insert_by_pointer(full.take(idx as int), e@)
                + full.skip(idx as int),
            idx == 0 || full[idx - 1].pointer <= e@.pointer,
        decreases idx,
    {
        if out[idx - 1].pointer <= e.pointer {
            proof {
                assert(full[idx - 1].pointer == out@[idx - 1]@.pointer);
            }
            break;
        }
        proof {
            let t = full.take(idx as int);
            assert(t.last() == full[idx - 1]);
            assert(t.drop_last() =~= full.take(idx - 1));
            assert(spec_insert_by_pointer(t, e@) == spec_insert_by_pointer(
                full.take(idx - 1),
                e@,
            ).push(full[idx - 1]));
            assert(spec_insert_by_pointer(full.take(idx - 1), e@).push(full[idx - 1]) + full.skip(
                idx as int,
            ) =~= spec_insert_by_pointer(full.take(idx - 1), e@) + full.skip(idx - 1));
        }
        idx = idx - 1;
    }
    proof {
        let t = full.take(idx as int);
        if idx == 0 {
            assert(t =~= Seq::<PackFileEntryView>::empty());
            assert(spec_insert_by_pointer(t, e@) == seq![e@]);
        } else {
            assert(t.last() == full[idx - 1]);
            assert(spec_insert_by_pointer(t, e@) == t.push(e@));
        }
        assert(spec_insert_by_pointer(full.take(idx as int), e@) + full.skip(idx as int)
            =~= full.take(idx as int).push(e@) + full.skip(idx as int));
    }
    out.insert(idx, e);
    proof {
        assert(out@.map_values(|x: PackFileEntry| x@) =~= full.take(idx as int).push(e@)
            + full.skip(idx as int));
    }
}

/// The directory records stored back to back at offset `p`, in stream
/// order, before sorting.
pub open spec fn spec_raw_entries(s: Seq<u8>, p: int, n: nat) -> Seq<PackFileEntryView> {
    Seq::new(
        n,
        |k: int|
            PackFileEntryView {
                filename_crc: le32_at(s, p + 12 * k),
                pointer: le32_at(s, p + 12 * k + 4),
                uncompressed_size: le32_at(s, p + 12 * k + 8),
                blocks: None,
            },
    )
}

/// The sorted entries with each one's blocks walked out of the
/// block-contents region `c`.
pub open spec fn spec_fill_blocks(
    c: Seq<u8>,
    entries: Seq<PackFileEntryView>,
    k: int,
) -> Result<Seq<PackFileEntryView>, EQFilesError>
    decreases entries.len() - k,
{
    if k < 0 || k >= entries.len() {
        Ok(Seq::empty())
    } else {
        let e = entries[k];
        if e.pointer < 12 {
            Err(EQFilesError::UnknownError)
        } else {
            match spec_block_walk(c, e.pointer - 12, e.uncompressed_size as int) {
                Err(err) => Err(err),
                Ok(bs) => match spec_fill_blocks(c, entries, k + 1) {
                    Err(err) => Err(err),
                    Ok(rest) => Ok(
                        seq![PackFileEntryView { blocks: Some(bs), ..e }] + rest,
                    ),
                },
            }
        }
    }
}

/// The block walk changes no directory fields: each filled entry keeps the
/// CRC, pointer and size of the sorted record it came from, so a decoded
/// archive's entries stay sorted by pointer.
pub proof fn lemma_fill_blocks_keeps_fields(c: Seq<u8>, entries: Seq<PackFileEntryView>, k: int)
    requires
        0 <= k <= entries.len(),
        spec_fill_blocks(c, entries, k) is Ok,
    ensures
        spec_fill_blocks(c, entries, k)->Ok_0.len() == entries.len() - k,
        forall|t: int|
            0 <= t < entries.len() - k ==> {
                let f = #[trigger] spec_fill_blocks(c, entries, k)->Ok_0[t];
                f.filename_crc == entries[k + t].filename_crc && f.pointer == entries[k
                    + t].pointer && f.uncompressed_size == entries[k + t].uncompressed_size
            },
    decreases entries.len() - k,
{
    if k < entries.len() {
        lemma_fill_blocks_keeps_fields(c, entries, k + 1);
        let e = entries[k];
        let bs = spec_block_walk(c, e.pointer - 12, e.uncompressed_size as int)->Ok_0;
        let rest = spec_fill_blocks(c, entries, k + 1)->Ok_0;
        let all = spec_fill_blocks(c, entries, k)->Ok_0;
        assert(all == seq![PackFileEntryView { blocks: Some(bs), ..e }] + rest);
        assert forall|t: int| 0 <= t < entries.len() - k implies {
            let f = #[trigger] all[t];
            f.filename_crc == entries[k + t].filename_crc && f.pointer == entries[k + t].pointer
                && f.uncompressed_size == entries[k + t].uncompressed_size
        } by {
            if t > 0 {
                assert(all[t] == rest[t - 1]);
            }
        }
    }
}

/// A decoded archive: header, entry count and the entries sorted by their
/// byte offset, each with its compression blocks attached.
#[derive(Debug)]
pub struct PackFile {
    pub header: PackFileHeader,
    pub entry_count: usize,
    pub entries: Vec<PackFileEntry>,
}

pub struct PackFileView {
    pub header: PackFileHeader,
    pub entry_count: usize,
    pub entries: Seq<PackFileEntryView>,
}

impl View for PackFile {
    type V = PackFileView;

    open spec fn view(&self) -> PackFileView {
        PackFileView {
            header: self.header,
            entry_count: self.entry_count,
            entries: self.entries@.map_values(|e: PackFileEntry| e@),
        }
    }
}

/// What decoding a whole archive from offset `p` of `s` yields: header,
/// block-contents region, directory records sorted by pointer, and each
/// entry's block walk.
pub open spec fn spec_pack_decode(s: Seq<u8>, p: int) -> Result<(PackFileView, int), EQFilesError> {
    match spec_pack_header_decode(s, p) {
        Err(e) => Err(e),
        Ok((h, p1)) => {
            if h.directory_offset < 12 {
                Err(EQFilesError::UnknownError)
            } else if p + h.directory_offset > s.len() {
                Err(EQFilesError::UnknownError)
            } else {
                let contents = s.subrange(p1, p + h.directory_offset);
                let pe = p + h.directory_offset;
                if pe + 4 > s.len() {
                    Err(EQFilesError::UnknownError)
                } else {
                    let n = le32_at(s, pe);
                    if pe + 4 + 12 * n > s.len() {
                        Err(EQFilesError::UnknownError)
                    } else {
                        let sorted = spec_sort_entries(spec_raw_entries(s, pe + 4, n as nat));
                        match spec_fill_blocks(contents, sorted, 0) {
                            Err(e) => Err(e),
                            Ok(filled) => Ok(
                                (
                                    PackFileView {
                                        header: h,
                                        entry_count: n as usize,
                                        entries: filled,
                                    },
                                    pe + 4 + 12 * n,
                                ),
                            ),
                        }
                    }
                }
            }
        },
    }
}

impl PackFile {
    /// Decodes a whole archive: header, block-contents region, directory
    /// records (sorted by pointer ascending, stably), and each entry's
    /// block walk.
    #[verifier::loop_isolation(false)]
    #[verifier::rlimit(60)]
    pub fn new(input: &mut ByteCursor) -> (r: Result<PackFile, EQFilesError>)
        requires
            old(input).wf(),
        ensures
            final(input).wf(),
            final(input).bytes() == old(input).bytes(),
            match spec_pack_decode(old(input).bytes(), old(input).position()) {
                Ok((v, q)) => (r matches Ok(pf) && pf@ == v) && final(input).position() == q,
                Err(e) => r == Err::<PackFile, EQFilesError>(e),
            },
    {
        let ghost p = input.position();
        let header = match PackFileHeader::new(input) {
            Ok(h) => h,
            Err(e) => { return Err(e) },
        };
        if header.directory_offset < 12 {
            return Err(EQFilesError::UnknownError);
        }
        let contents = match input.take((header.directory_offset - 12) as usize) {
            Ok(v) => v,
            Err(e) => { return Err(e) },
        };
        let n = match input.u32le() {
            Ok(v) => v,
            Err(e) => { return Err(e) },
        };
        if (n as u64) * 12 > input.remaining() as u64 {
            return Err(EQFilesError::UnknownError);
        }
        let ghost pe4 = input.position();
        let ghost raw = spec_raw_entries(input.bytes(), pe4, n as nat);
        let mut sorted: Vec<PackFileEntry> = Vec::new();
        let mut i: u32 = 0;
        proof {
            assert(raw.take(0) =~= Seq::<PackFileEntryView>::empty());
        }
        while i < n
            invariant
                input.wf(),
                input.bytes() == old(input).bytes(),
                input.position() == pe4 + 12 * i,
                0 <= i <= n,
                pe4 + 12 * n <= input.bytes().len(),
                raw == spec_raw_entries(input.bytes(), pe4, n as nat),
                sorted@.map_values(|x: PackFileEntry| x@) == spec_sort_entries(raw.take(i as int)),
            decreases n - i,
        {
            let e = match PackFileEntry::new(input) {
                Ok(e) => e,
                Err(err) => {
                    proof {
                        assert(false);
                    }
                    return Err(err);
                },
            };
            proof {
                assert(e@ == raw[i as int]);
                assert(raw.take(i as int + 1).drop_last() =~= raw.take(i as int));
                assert(raw.take(i as int + 1).last() == raw[i as int]);
            }
            insert_by_pointer(&mut sorted, e);
            i = i + 1;
        }
        proof {
            assert(raw.take(n as int) =~= raw);
        }
        let mut cc = ByteCursor::new(contents);
        let ghost sorted_views = sorted@.map_values(|x: PackFileEntry| x@);
        let mut filled: Vec<PackFileEntry> = Vec::new();
        let mut k: usize = 0;
        let total = sorted.len();
        while k < total
            invariant
                cc.wf(),
                total == sorted.len(),
                sorted_views == sorted@.map_values(|x: PackFileEntry| x@),
                cc.bytes() == old(input).bytes().subrange(
                    p + 12,
                    p + spec_pack_header_decode(
                        old(input).bytes(),
                        p,
                    )->Ok_0.0.directory_offset,
                ),
                0 <= k <= total,
                match spec_fill_blocks(cc.bytes(), sorted_views, k as int) {
                    Ok(rest) => spec_fill_blocks(cc.bytes(), sorted_views, 0) == Ok::<
                        Seq<PackFileEntryView>,
                        EQFilesError,
                    >(filled@.map_values(|x: PackFileEntry| x@) + rest),
                    Err(e) => spec_fill_blocks(cc.bytes(), sorted_views, 0) == Err::<
                        Seq<PackFileEntryView>,
                        EQFilesError,
                    >(e),
                },
            decreases total - k,
        {
            let e = &sorted[k];
            if e.pointer < 12 {
                return Err(EQFilesError::UnknownError);
            }
            let blocks = match walk_blocks(&mut cc, (e.pointer - 12) as usize, e.uncompressed_size)
                {
                Ok(b) => b,
                Err(err) => { return Err(err) },
            };
            let ne = PackFileEntry {
                filename_crc: e.filename_crc,
                pointer: e.pointer,
                uncompressed_size: e.uncompressed_size,
                blocks: Some(blocks),
            };
            proof {
                assert(ne@ == PackFileEntryView {
                    blocks: Some(
                        spec_block_walk(
                            cc.bytes(),
                            sorted_views[k as int].pointer - 12,
                            sorted_views[k as int].uncompressed_size as int,
                        )->Ok_0,
                    ),
                    ..sorted_views[k as int]
                });
                let rest = spec_fill_blocks(cc.bytes(), sorted_views, k as int + 1);
                if rest is Ok {
                    assert(filled@.push(ne).map_values(|x: PackFileEntry| x@) + rest->Ok_0
                        =~= filled@.map_values(|x: PackFileEntry| x@) + (seq![ne@]
                        + rest->Ok_0));
                }
            }
            filled.push(ne);
            k = k + 1;
        }
        proof {
            assert(filled@.map_values(|x: PackFileEntry| x@) + Seq::<PackFileEntryView>::empty()
                =~= filled@.map_values(|x: PackFileEntry| x@));
        }
        Ok(PackFile { header, entry_count: n as usize, entries: filled })
    }
}

/// What reading `n` directory filenames back to back from offset `p`
/// yields: each is a 32-bit length followed by that many obfuscated bytes.
pub open spec fn spec_dir_strings(s: Seq<u8>, p: int, n: nat) -> Result<
    (Seq<Seq<char>>, int),
    EQFilesError,
>
    decreases n,
{
    if n == 0 {
        Ok((Seq::empty(), p))
    } else if p + 4 > s.len() {
        Err(EQFilesError::UnknownError)
    } else {
        let len = le32_at(s, p) as int;
        if p + 4 + len > s.len() {
            Err(EQFilesError::UnknownError)
        } else {
            match spec_decoded_string(s.subrange(p + 4, p + 4 + len)) {
                None => Err(EQFilesError::ErrorDecodingString),
                Some(cs) => match spec_dir_strings(s, p + 4 + len, (n - 1) as nat) {
                    Err(e) => Err(e),
                    Ok((rest, q)) => Ok((seq![cs] + rest, q)),
                },
            }
        }
    }
}

/// What parsing a directory block at offset `p` yields: a 32-bit count and
/// that many obfuscated filenames.
pub open spec fn spec_directory(s: Seq<u8>, p: int) -> Result<(Seq<Seq<char>>, int), EQFilesError> {
    if p + 4 > s.len() {
        Err(EQFilesError::UnknownError)
    } else {
        spec_dir_strings(s, p + 4, le32_at(s, p) as nat)
    }
}

/// Parses a decompressed directory block: a count, then that many
/// length-prefixed obfuscated filenames.
#[verifier::loop_isolation(false)]
pub fn directory(input: &mut ByteCursor) -> (r: Result<Vec<String>, EQFilesError>)
    requires
        old(input).wf(),
    ensures
        final(input).wf(),
        final(input).bytes() == old(input).bytes(),
        match spec_directory(old(input).bytes(), old(input).position()) {
            Ok((cs, q)) => (r matches Ok(v) && string_views(v@) == cs) && final(input).position()
                == q,
            Err(e) => r == Err::<Vec<String>, EQFilesError>(e),
        },
{
    let n = match input.u32le() {
        Ok(v) => v,
        Err(e) => { return Err(e) },
    };
    let ghost p0 = input.position();
    let mut v: Vec<String> = Vec::new();
    let mut i: u32 = 0;
    while i < n
        invariant
            input.wf(),
            input.bytes() == old(input).bytes(),
            0 <= i <= n,
            match spec_dir_strings(input.bytes(), input.position(), (n - i) as nat) {
                Ok((cs, q)) => spec_dir_strings(input.bytes(), p0, n as nat) == Ok::<
                    (Seq<Seq<char>>, int),
                    EQFilesError,
                >((string_views(v@) + cs, q)),
                Err(e) => spec_dir_strings(input.bytes(), p0, n as nat) == Err::<
                    (Seq<Seq<char>>, int),
                    EQFilesError,
                >(e),
            },
        decreases n - i,
    {
        let len = match input.u32le() {
            Ok(x) => x,
            Err(e) => { return Err(e) },
        };
        let sname = match decode_string(input, len as usize) {
            Ok(s) => s,
            Err(e) => { return Err(e) },
        };
        let ghost prev_views = string_views(v@);
        v.push(sname);
        i = i + 1;
        proof {
            assert(string_views(v@) =~= prev_views.push(sname@));
            let rest = spec_dir_strings(input.bytes(), input.position(), (n - i) as nat);
            if rest is Ok {
                let (restcs, q) = rest->Ok_0;
                assert(prev_views.push(sname@) + restcs =~= prev_views + (seq![sname@] + restcs));
            }
        }
    }
    proof {
        assert(string_views(v@) + Seq::<Seq<char>>::empty() =~= string_views(v@));
    }
    Ok(v)
}

/// What the archive's filename list is: the last entry's decompressed
/// contents parsed as a directory block.  Fails when there is no entry,
/// the last entry has no blocks or one of them is rejected by the
/// inflater, or the directory block itself is malformed.
pub open spec fn spec_filenames(pf: PackFileView) -> Result<Seq<Seq<char>>, EQFilesError> {
    if pf.entries.len() == 0 {
        Err(EQFilesError::UnknownError)
    } else {
        match pf.entries.last().blocks {
            None => Err(EQFilesError::UnknownError),
            Some(bs) => {
                if !spec_blocks_inflatable(bs) {
                    Err(EQFilesError::UnknownError)
                } else {
                    match spec_directory(spec_decompressed(bs), 0) {
                        Err(e) => Err(e),
                        Ok((cs, q)) => Ok(cs),
                    }
                }
            },
        }
    }
}

/// The first position at `k` or later whose filename equals `q` up to
/// ASCII case, comparing the names' UTF-8 bytes.
pub open spec fn spec_position_icase(fs: Seq<Seq<char>>, q: Seq<char>, k: int) -> Option<int>
    decreases fs.len() - k,
{
    if k < 0 || k >= fs.len() {
        None
    } else if spec_eq_ignore_ascii_case(encode_utf8(fs[k]), encode_utf8(q)) {
        Some(k)
    } else {
        spec_position_icase(fs, q, k + 1)
    }
}

/// The lookup law: two queries whose UTF-8 bytes agree up to ASCII case
/// resolve to the same directory position.
pub proof fn lemma_lookup_case_insensitive(fs: Seq<Seq<char>>, q1: Seq<char>, q2: Seq<char>, k: int)
    requires
        spec_eq_ignore_ascii_case(encode_utf8(q1), encode_utf8(q2)),
    ensures
        spec_position_icase(fs, q1, k) == spec_position_icase(fs, q2, k),
    decreases fs.len() - k,
{
    if 0 <= k < fs.len() {
        lemma_lookup_case_insensitive(fs, q1, q2, k + 1);
    }
}

/// What a lookup by filename returns: the decompressed contents of the
/// entry at the first case-insensitive match, or nothing when the filename
/// list cannot be parsed, no name matches, the matched position has no
/// entry, or that entry cannot be decompressed.
pub open spec fn spec_get(pf: PackFileView, q: Seq<char>) -> Option<Seq<u8>> {
    match spec_filenames(pf) {
        Err(_) => None,
        Ok(fs) => match spec_position_icase(fs, q, 0) {
            None => None,
            Some(i) => {
                if i >= pf.entries.len() {
                    None
                } else {
                    match pf.entries[i].blocks {
                        None => None,
                        Some(bs) => {
                            if spec_blocks_inflatable(bs) {
                                Some(spec_decompressed(bs))
                            } else {
                                None
                            }
                        },
                    }
                }
            },
        },
    }
}

/// The lookup law at result level: two queries whose UTF-8 bytes agree up
/// to ASCII case return the same decompressed contents.
pub proof fn lemma_get_case_insensitive(pf: PackFileView, q1: Seq<char>, q2: Seq<char>)
    requires
        spec_eq_ignore_ascii_case(encode_utf8(q1), encode_utf8(q2)),
    ensures
        spec_get(pf, q1) == spec_get(pf, q2),
{
    match spec_filenames(pf) {
        Ok(fs) => {
            lemma_lookup_case_insensitive(fs, q1, q2, 0);
        },
        Err(_) => {},
    }
}

/// Whether an entry holds blocks and every one of them inflates.
pub open spec fn spec_entry_inflatable(e: PackFileEntryView) -> bool {
    match e.blocks {
        Some(bs) => spec_blocks_inflatable(bs),
        None => false,
    }
}

/// An entry's decompressed contents, when it holds blocks.
pub open spec fn spec_entry_contents(e: PackFileEntryView) -> Seq<u8> {
    match e.blocks {
        Some(bs) => spec_decompressed(bs),
        None => Seq::empty(),
    }
}

/// What pairing every filename with its entry's decompressed contents
/// yields: the filename list must parse and every paired entry must
/// decompress; the shorter of the two lists bounds the result.
pub open spec fn spec_files(pf: PackFileView) -> Result<
    Seq<(Seq<char>, Seq<u8>)>,
    EQFilesError,
> {
    match spec_filenames(pf) {
        Err(e) => Err(e),
        Ok(fs) => {
            let m = if fs.len() <= pf.entries.len() {
                fs.len() as int
            } else {
                pf.entries.len() as int
            };
            if forall|k: int| 0 <= k < m ==> spec_entry_inflatable(#[trigger] pf.entries[k]) {
                Ok(Seq::new(m as nat, |k: int| (fs[k], spec_entry_contents(pf.entries[k]))))
            } else {
                Err(EQFilesError::UnknownError)
            }
        },
    }
}

impl PackFile {
    /// Parses the filename list held by the archive's trailing directory
    /// entry.
    pub fn filenames(&self) -> (r: Result<Vec<String>, EQFilesError>)
        ensures
            match spec_filenames(self@) {
                Ok(fs) => r matches Ok(v) && string_views(v@) == fs,
                Err(e) => r == Err::<Vec<String>, EQFilesError>(e),
            },
    {
        if self.entries.len() == 0 {
            return Err(EQFilesError::UnknownError);
        }
        let last = &self.entries[self.entries.len() - 1];
        proof {
            assert(last@ == self@.entries.last());
        }
        let data = match last.decompress() {
            Ok(v) => v,
            Err(e) => { return Err(e) },
        };
        let mut cursor = ByteCursor::new(data);
        directory(&mut cursor)
    }

    /// Looks an entry up by filename, ignoring ASCII letter case, and
    /// decompresses it.
    #[verifier::loop_isolation(false)]
    pub fn get(&self, filename: &str) -> (r: Option<Vec<u8>>)
        ensures
            match spec_get(self@, filename@) {
                Some(d) => r matches Some(v) && v@ == d,
                None => r is None,
            },
    {
        let names = match self.filenames() {
            Ok(v) => v,
            Err(_) => { return None },
        };
        let ghost fs = string_views(names@);
        let n = names.len();
        let mut i: usize = 0;
        while i < n
            invariant
                n == names@.len(),
                fs == string_views(names@),
                0 <= i <= n,
                spec_position_icase(fs, filename@, 0) == spec_position_icase(fs, filename@, i as int),
            decreases n - i,
        {
            proof {
                assert(fs[i as int] == names@[i as int]@);
            }
            if eq_ignore_case(names[i].as_str().as_bytes(), filename.as_bytes()) {
                proof {
                    assert(spec_position_icase(fs, filename@, i as int) == Some(i as int));
                }
                if i < self.entries.len() {
                    proof {
                        assert(self@.entries[i as int] == self.entries@[i as int]@);
                    }
                    match self.entries[i].decompress() {
                        Ok(v) => { return Some(v) },
                        Err(_) => { return None },
                    }
                } else {
                    return None;
                }
            }
            i = i + 1;
        }
        None
    }

    /// Pairs every filename with its entry's decompressed contents, in
    /// entry order; the shorter of the two lists bounds the result.  Fails
    /// when the filename list cannot be parsed or some paired entry cannot
    /// be decompressed.
    #[verifier::loop_isolation(false)]
    pub fn files(&self) -> (r: Result<Vec<(String, Vec<u8>)>, EQFilesError>)
        ensures
            match spec_files(self@) {
                Ok(ps) => (r matches Ok(v) && v@.len() == ps.len() && (forall|k: int|
                    0 <= k < ps.len() ==> (#[trigger] v@[k].0@ == ps[k].0 && v@[k].1@
                        == ps[k].1))),
                Err(e) => r == Err::<Vec<(String, Vec<u8>)>, EQFilesError>(e),
            },
    {
        let names = match self.filenames() {
            Ok(v) => v,
            Err(e) => { return Err(e) },
        };
        let ghost fs = string_views(names@);
        let m = if names.len() <= self.entries.len() {
            names.len()
        } else {
            self.entries.len()
        };
        let mut out: Vec<(String, Vec<u8>)> = Vec::new();
        let mut k: usize = 0;
        while k < m
            invariant
                fs == string_views(names@),
                m <= names@.len(),
                m <= self.entries.len(),
                m == if fs.len() <= self@.entries.len() {
                    fs.len() as int
                } else {
                    self@.entries.len() as int
                },
                0 <= k <= m,
                out@.len() == k as int,
                forall|t: int| 0 <= t < k ==> spec_entry_inflatable(#[trigger] self@.entries[t]),
                forall|t: int| 0 <= t < k ==> (#[trigger] out@[t]).0@ == fs[t],
                forall|t: int|
                    0 <= t < k ==> (#[trigger] out@[t]).1@ == spec_entry_contents(
                        self@.entries[t],
                    ),
            decreases m - k,
        {
            proof {
                assert(self@.entries[k as int] == self.entries@[k as int]@);
            }
            let data = match self.entries[k].decompress() {
                Ok(v) => v,
                Err(e) => {
                    proof {
                        assert(!spec_entry_inflatable(self@.entries[k as int]));
                    }
                    return Err(e);
                },
            };
            proof {
                assert(spec_entry_inflatable(self@.entries[k as int]));
                assert(data@ == spec_entry_contents(self@.entries[k as int]));
            }
            let ghost old_out = out@;
            let name = names[k].clone();
            proof {
                assert(fs[k as int] == names@[k as int]@);
            }
            out.push((name, data));
            k = k + 1;
            proof {
                assert forall|t: int|
                    0 <= t < k implies (#[trigger] out@[t]).0@ == fs[t] && (out@[t]).1@
                        == spec_entry_contents(self@.entries[t]) by {
                    if t < k - 1 {
                        assert((old_out[t]).0@ == fs[t]);
                        assert((old_out[t]).1@ == spec_entry_contents(self@.entries[t]));
                        assert(out@[t] == old_out[t]);
                    } else {
                        assert(out@[t] == out@.last());
                    }
                }
            }
        }
        proof {
            let ps = spec_files(self@)->Ok_0;
            assert(ps.len() == m);
        }
        Ok(out)
    }
}

} // verus!
