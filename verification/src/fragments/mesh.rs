//! Mesh fragments: a large fixed preamble followed by nine variable-length
//! sections consumed strictly in order.  Stored floating-point words are
//! kept as raw 32-bit patterns, and fixed-point vertex data is kept as the
//! stored integers together with the power-of-two scale shift.

use vstd::prelude::*;

use crate::cursor::{
    as_signed16, as_signed32, as_signed8, le16_at, le32_at, ByteCursor,
};
use crate::fragments::{Settings, SettingsView, WldFragment};
use crate::strings::opt_string_view;
use crate::EQFilesError;

verus! {

/// One mesh-op instruction.  Its first four bytes are two vertex indices,
/// except when the type tag is 4, where they are one float offset (kept as
/// its raw bit pattern) instead.
#[derive(Clone, Copy, Debug, PartialEq, Eq, Structural)]
pub struct MeshOp {
    pub type_field: u8,
    pub index1: Option<u16>,
    pub index2: Option<u16>,
    pub offset_bits: Option<u32>,
    pub param1: u8,
}

/// The signed 16-bit triples stored at stride 6 from offset `p`.
pub open spec fn spec_i16_triples(s: Seq<u8>, p: int, n: nat) -> Seq<(i16, i16, i16)> {
    Seq::new(
        n,
        |k: int|
            (
                as_signed16(le16_at(s, p + 6 * k)),
                as_signed16(le16_at(s, p + 6 * k + 2)),
                as_signed16(le16_at(s, p + 6 * k + 4)),
            ),
    )
}

/// The older-revision texture coordinates: signed 16-bit pairs, widened.
pub open spec fn spec_uv_old(s: Seq<u8>, p: int, n: nat) -> Seq<(i32, i32)> {
    Seq::new(
        n,
        |k: int|
            (
                as_signed16(le16_at(s, p + 4 * k)) as i32,
                as_signed16(le16_at(s, p + 4 * k + 2)) as i32,
            ),
    )
}

/// The newer-revision texture coordinates: signed 32-bit pairs.
pub open spec fn spec_uv_new(s: Seq<u8>, p: int, n: nat) -> Seq<(i32, i32)> {
    Seq::new(
        n,
        |k: int| (as_signed32(le32_at(s, p + 8 * k)), as_signed32(le32_at(s, p + 8 * k + 4))),
    )
}

/// The signed byte triples stored at stride 3 from offset `p`.
pub open spec fn spec_i8_triples(s: Seq<u8>, p: int, n: nat) -> Seq<(i8, i8, i8)> {
    Seq::new(
        n,
        |k: int|
            (
                as_signed8(s[p + 3 * k]),
                as_signed8(s[p + 3 * k + 1]),
                as_signed8(s[p + 3 * k + 2]),
            ),
    )
}

/// The byte quadruples stored at stride 4 from offset `p`.
pub open spec fn spec_u8_quads(s: Seq<u8>, p: int, n: nat) -> Seq<(u8, u8, u8, u8)> {
    Seq::new(
        n,
        |k: int| (s[p + 4 * k], s[p + 4 * k + 1], s[p + 4 * k + 2], s[p + 4 * k + 3]),
    )
}

/// The 16-bit quadruples stored at stride 8 from offset `p`.
pub open spec fn spec_u16_quads(s: Seq<u8>, p: int, n: nat) -> Seq<(u16, u16, u16, u16)> {
    Seq::new(
        n,
        |k: int|
            (
                le16_at(s, p + 8 * k),
                le16_at(s, p + 8 * k + 2),
                le16_at(s, p + 8 * k + 4),
                le16_at(s, p + 8 * k + 6),
            ),
    )
}

/// The run-length group records stored at stride 4 from offset `p`,
/// rebuilt into `(start, count, target)` triples by accumulating a running
/// start offset; a running offset that would leave 16 bits is a decode
/// error.
pub open spec fn spec_groups(s: Seq<u8>, p: int, n: nat, acc: int) -> Result<
    Seq<(u16, u16, u16)>,
    EQFilesError,
>
    decreases n,
{
    if n == 0 {
        Ok(Seq::empty())
    } else {
        let count = le16_at(s, p);
        let target = le16_at(s, p + 2);
        if acc + count > 0xFFFF {
            Err(EQFilesError::UnknownError)
        } else {
            match spec_groups(s, p + 4, (n - 1) as nat, acc + count) {
                Err(e) => Err(e),
                Ok(rest) => Ok(seq![(acc as u16, count, target)] + rest),
            }
        }
    }
}

/// The mesh-op record stored at offset `p`.
pub open spec fn spec_mesh_op_at(s: Seq<u8>, p: int) -> MeshOp {
    let type_field = s[p + 5];
    MeshOp {
        type_field,
        index1: if type_field == 4 {
            None
        } else {
            Some(le16_at(s, p))
        },
        index2: if type_field == 4 {
            None
        } else {
            Some(le16_at(s, p + 2))
        },
        offset_bits: if type_field == 4 {
            Some(le32_at(s, p))
        } else {
            None
        },
        param1: s[p + 4],
    }
}

/// The `n` mesh-op records stored at stride 6 from offset `p`.
pub open spec fn spec_mesh_ops(s: Seq<u8>, p: int, n: nat) -> Seq<MeshOp> {
    Seq::new(n, |k: int| spec_mesh_op_at(s, p + 6 * k))
}

#[verifier::loop_isolation(false)]
fn read_i16_triples(input: &mut ByteCursor, n: u16) -> (r: Result<
    Vec<(i16, i16, i16)>,
    EQFilesError,
>)
    requires
        old(input).wf(),
    ensures
        final(input).wf(),
        final(input).bytes() == old(input).bytes(),
        !old(input).can_read(6 * n as int) ==> r == Err::<Vec<(i16, i16, i16)>, EQFilesError>(
            EQFilesError::UnknownError,
        ),
        old(input).can_read(6 * n as int) ==> (match r {
            Ok(v) => v@ == spec_i16_triples(old(input).bytes(), old(input).position(), n as nat)
                && final(input).position() == old(input).position() + 6 * n,
            Err(_) => false,
        }),
{
    if (n as u64) * 6 > input.remaining() as u64 {
        return Err(EQFilesError::UnknownError);
    }
    let ghost p0 = input.position();
    let mut v: Vec<(i16, i16, i16)> = Vec::new();
    let mut i: u16 = 0;
    while i < n
        invariant
            input.wf(),
            input.bytes() == old(input).bytes(),
            input.position() == p0 + 6 * i,
            0 <= i <= n,
            p0 + 6 * n <= input.bytes().len(),
            v@ == spec_i16_triples(input.bytes(), p0, i as nat),
        decreases n - i,
    {
        let a = match input.i16le() {
            Ok(x) => x,
            Err(e) => { return Err(e) },
        };
        let b = match input.i16le() {
            Ok(x) => x,
            Err(e) => { return Err(e) },
        };
        let c = match input.i16le() {
            Ok(x) => x,
            Err(e) => { return Err(e) },
        };
        v.push((a, b, c));
        i = i + 1;
        proof {
            assert(v@ =~= spec_i16_triples(input.bytes(), p0, i as nat));
        }
    }
    Ok(v)
}

#[verifier::loop_isolation(false)]
fn read_uv_old(input: &mut ByteCursor, n: u16) -> (r: Result<Vec<(i32, i32)>, EQFilesError>)
    requires
        old(input).wf(),
    ensures
        final(input).wf(),
        final(input).bytes() == old(input).bytes(),
        !old(input).can_read(4 * n as int) ==> r == Err::<Vec<(i32, i32)>, EQFilesError>(
            EQFilesError::UnknownError,
        ),
        old(input).can_read(4 * n as int) ==> (match r {
            Ok(v) => v@ == spec_uv_old(old(input).bytes(), old(input).position(), n as nat)
                && final(input).position() == old(input).position() + 4 * n,
            Err(_) => false,
        }),
{
    if (n as u64) * 4 > input.remaining() as u64 {
        return Err(EQFilesError::UnknownError);
    }
    let ghost p0 = input.position();
    let mut v: Vec<(i32, i32)> = Vec::new();
    let mut i: u16 = 0;
    while i < n
        invariant
            input.wf(),
            input.bytes() == old(input).bytes(),
            input.position() == p0 + 4 * i,
            0 <= i <= n,
            p0 + 4 * n <= input.bytes().len(),
            v@ == spec_uv_old(input.bytes(), p0, i as nat),
        decreases n - i,
    {
        let a = match input.i16le() {
            Ok(x) => x,
            Err(e) => { return Err(e) },
        };
        let b = match input.i16le() {
            Ok(x) => x,
            Err(e) => { return Err(e) },
        };
        v.push((a as i32, b as i32));
        i = i + 1;
        proof {
            assert(v@ =~= spec_uv_old(input.bytes(), p0, i as nat));
        }
    }
    Ok(v)
}

#[verifier::loop_isolation(false)]
fn read_uv_new(input: &mut ByteCursor, n: u16) -> (r: Result<Vec<(i32, i32)>, EQFilesError>)
    requires
        old(input).wf(),
    ensures
        final(input).wf(),
        final(input).bytes() == old(input).bytes(),
        !old(input).can_read(8 * n as int) ==> r == Err::<Vec<(i32, i32)>, EQFilesError>(
            EQFilesError::UnknownError,
        ),
        old(input).can_read(8 * n as int) ==> (match r {
            Ok(v) => v@ == spec_uv_new(old(input).bytes(), old(input).position(), n as nat)
                && final(input).position() == old(input).position() + 8 * n,
            Err(_) => false,
        }),
{
    if (n as u64) * 8 > input.remaining() as u64 {
        return Err(EQFilesError::UnknownError);
    }
    let ghost p0 = input.position();
    let mut v: Vec<(i32, i32)> = Vec::new();
    let mut i: u16 = 0;
    while i < n
        invariant
            input.wf(),
            input.bytes() == old(input).bytes(),
            input.position() == p0 + 8 * i,
            0 <= i <= n,
            p0 + 8 * n <= input.bytes().len(),
            v@ == spec_uv_new(input.bytes(), p0, i as nat),
        decreases n - i,
    {
        let a = match input.i32le() {
            Ok(x) => x,
            Err(e) => { return Err(e) },
        };
        let b = match input.i32le() {
            Ok(x) => x,
            Err(e) => { return Err(e) },
        };
        v.push((a, b));
        i = i + 1;
        proof {
            assert(v@ =~= spec_uv_new(input.bytes(), p0, i as nat));
        }
    }
    Ok(v)
}

#[verifier::loop_isolation(false)]
fn read_i8_triples(input: &mut ByteCursor, n: u16) -> (r: Result<Vec<(i8, i8, i8)>, EQFilesError>)
    requires
        old(input).wf(),
    ensures
        final(input).wf(),
        final(input).bytes() == old(input).bytes(),
        !old(input).can_read(3 * n as int) ==> r == Err::<Vec<(i8, i8, i8)>, EQFilesError>(
            EQFilesError::UnknownError,
        ),
        old(input).can_read(3 * n as int) ==> (match r {
            Ok(v) => v@ == spec_i8_triples(old(input).bytes(), old(input).position(), n as nat)
                && final(input).position() == old(input).position() + 3 * n,
            Err(_) => false,
        }),
{
    if (n as u64) * 3 > input.remaining() as u64 {
        return Err(EQFilesError::UnknownError);
    }
    let ghost p0 = input.position();
    let mut v: Vec<(i8, i8, i8)> = Vec::new();
    let mut i: u16 = 0;
    while i < n
        invariant
            input.wf(),
            input.bytes() == old(input).bytes(),
            input.position() == p0 + 3 * i,
            0 <= i <= n,
            p0 + 3 * n <= input.bytes().len(),
            v@ == spec_i8_triples(input.bytes(), p0, i as nat),
        decreases n - i,
    {
        let a = match input.i8() {
            Ok(x) => x,
            Err(e) => { return Err(e) },
        };
        let b = match input.i8() {
            Ok(x) => x,
            Err(e) => { return Err(e) },
        };
        let c = match input.i8() {
            Ok(x) => x,
            Err(e) => { return Err(e) },
        };
        v.push((a, b, c));
        i = i + 1;
        proof {
            assert(v@ =~= spec_i8_triples(input.bytes(), p0, i as nat));
        }
    }
    Ok(v)
}

#[verifier::loop_isolation(false)]
fn read_u8_quads(input: &mut ByteCursor, n: u16) -> (r: Result<
    Vec<(u8, u8, u8, u8)>,
    EQFilesError,
>)
    requires
        old(input).wf(),
    ensures
        final(input).wf(),
        final(input).bytes() == old(input).bytes(),
        !old(input).can_read(4 * n as int) ==> r == Err::<Vec<(u8, u8, u8, u8)>, EQFilesError>(
            EQFilesError::UnknownError,
        ),
        old(input).can_read(4 * n as int) ==> (match r {
            Ok(v) => v@ == spec_u8_quads(old(input).bytes(), old(input).position(), n as nat)
                && final(input).position() == old(input).position() + 4 * n,
            Err(_) => false,
        }),
{
    if (n as u64) * 4 > input.remaining() as u64 {
        return Err(EQFilesError::UnknownError);
    }
    let ghost p0 = input.position();
    let mut v: Vec<(u8, u8, u8, u8)> = Vec::new();
    let mut i: u16 = 0;
    while i < n
        invariant
            input.wf(),
            input.bytes() == old(input).bytes(),
            input.position() == p0 + 4 * i,
            0 <= i <= n,
            p0 + 4 * n <= input.bytes().len(),
            v@ == spec_u8_quads(input.bytes(), p0, i as nat),
        decreases n - i,
    {
        let a = match input.u8() {
            Ok(x) => x,
            Err(e) => { return Err(e) },
        };
        let b = match input.u8() {
            Ok(x) => x,
            Err(e) => { return Err(e) },
        };
        let c = match input.u8() {
            Ok(x) => x,
            Err(e) => { return Err(e) },
        };
        let d = match input.u8() {
            Ok(x) => x,
            Err(e) => { return Err(e) },
        };
        v.push((a, b, c, d));
        i = i + 1;
        proof {
            assert(v@ =~= spec_u8_quads(input.bytes(), p0, i as nat));
        }
    }
    Ok(v)
}

#[verifier::loop_isolation(false)]
fn read_u16_quads(input: &mut ByteCursor, n: u16) -> (r: Result<
    Vec<(u16, u16, u16, u16)>,
    EQFilesError,
>)
    requires
        old(input).wf(),
    ensures
        final(input).wf(),
        final(input).bytes() == old(input).bytes(),
        !old(input).can_read(8 * n as int) ==> r == Err::<Vec<(u16, u16, u16, u16)>, EQFilesError>(
            EQFilesError::UnknownError,
        ),
        old(input).can_read(8 * n as int) ==> (match r {
            Ok(v) => v@ == spec_u16_quads(old(input).bytes(), old(input).position(), n as nat)
                && final(input).position() == old(input).position() + 8 * n,
            Err(_) => false,
        }),
{
    if (n as u64) * 8 > input.remaining() as u64 {
        return Err(EQFilesError::UnknownError);
    }
    let ghost p0 = input.position();
    let mut v: Vec<(u16, u16, u16, u16)> = Vec::new();
    let mut i: u16 = 0;
    while i < n
        invariant
            input.wf(),
            input.bytes() == old(input).bytes(),
            input.position() == p0 + 8 * i,
            0 <= i <= n,
            p0 + 8 * n <= input.bytes().len(),
            v@ == spec_u16_quads(input.bytes(), p0, i as nat),
        decreases n - i,
    {
        let a = match input.u16le() {
            Ok(x) => x,
            Err(e) => { return Err(e) },
        };
        let b = match input.u16le() {
            Ok(x) => x,
            Err(e) => { return Err(e) },
        };
        let c = match input.u16le() {
            Ok(x) => x,
            Err(e) => { return Err(e) },
        };
        let d = match input.u16le() {
            Ok(x) => x,
            Err(e) => { return Err(e) },
        };
        v.push((a, b, c, d));
        i = i + 1;
        proof {
            assert(v@ =~= spec_u16_quads(input.bytes(), p0, i as nat));
        }
    }
    Ok(v)
}

#[verifier::loop_isolation(false)]
fn read_groups(input: &mut ByteCursor, n: u16) -> (r: Result<Vec<(u16, u16, u16)>, EQFilesError>)
    requires
        old(input).wf(),
    ensures
        final(input).wf(),
        final(input).bytes() == old(input).bytes(),
        !old(input).can_read(4 * n as int) ==> r == Err::<Vec<(u16, u16, u16)>, EQFilesError>(
            EQFilesError::UnknownError,
        ),
        old(input).can_read(4 * n as int) ==> (match spec_groups(
            old(input).bytes(),
            old(input).position(),
            n as nat,
            0,
        ) {
            Ok(g) => (r matches Ok(v) && v@ == g) && final(input).position() == old(
                input,
            ).position() + 4 * n,
            Err(e) => r == Err::<Vec<(u16, u16, u16)>, EQFilesError>(e),
        }),
{
    if (n as u64) * 4 > input.remaining() as u64 {
        return Err(EQFilesError::UnknownError);
    }
    let ghost p0 = input.position();
    let mut v: Vec<(u16, u16, u16)> = Vec::new();
    let mut idx: u16 = 0;
    let mut i: u16 = 0;
    while i < n
        invariant
            input.wf(),
            input.bytes() == old(input).bytes(),
            input.position() == p0 + 4 * i,
            0 <= i <= n,
            p0 + 4 * n <= input.bytes().len(),
            match spec_groups(input.bytes(), p0 + 4 * i, (n - i) as nat, idx as int) {
                Ok(g) => spec_groups(input.bytes(), p0, n as nat, 0) == Ok::<
                    Seq<(u16, u16, u16)>,
                    EQFilesError,
                >(v@ + g),
                Err(e) => spec_groups(input.bytes(), p0, n as nat, 0) == Err::<
                    Seq<(u16, u16, u16)>,
                    EQFilesError,
                >(e),
            },
        decreases n - i,
    {
        let count = match input.u16le() {
            Ok(x) => x,
            Err(e) => { return Err(e) },
        };
        let target = match input.u16le() {
            Ok(x) => x,
            Err(e) => { return Err(e) },
        };
        if count > 0xFFFF - idx {
            return Err(EQFilesError::UnknownError);
        }
        let ghost prev = v@;
        v.push((idx, count, target));
        idx = idx + count;
        i = i + 1;
        proof {
            let rest = spec_groups(input.bytes(), p0 + 4 * i, (n - i) as nat, idx as int);
            if rest is Ok {
                assert(prev.push((v@[prev.len() as int].0, count, target)) + rest->Ok_0 =~= prev
                    + (seq![(v@[prev.len() as int].0, count, target)] + rest->Ok_0));
                assert(v@ + rest->Ok_0 =~= prev + (seq![v@[prev.len() as int]] + rest->Ok_0));
            }
        }
    }
    Ok(v)
}

#[verifier::loop_isolation(false)]
fn read_mesh_ops(input: &mut ByteCursor, n: u16) -> (r: Result<Vec<MeshOp>, EQFilesError>)
    requires
        old(input).wf(),
    ensures
        final(input).wf(),
        final(input).bytes() == old(input).bytes(),
        !old(input).can_read(6 * n as int) ==> r == Err::<Vec<MeshOp>, EQFilesError>(
            EQFilesError::UnknownError,
        ),
        old(input).can_read(6 * n as int) ==> (match r {
            Ok(v) => v@ == spec_mesh_ops(old(input).bytes(), old(input).position(), n as nat)
                && final(input).position() == old(input).position() + 6 * n,
            Err(_) => false,
        }),
{
    if (n as u64) * 6 > input.remaining() as u64 {
        return Err(EQFilesError::UnknownError);
    }
    let ghost p0 = input.position();
    let mut v: Vec<MeshOp> = Vec::new();
    let mut i: u16 = 0;
    while i < n
        invariant
            input.wf(),
            input.bytes() == old(input).bytes(),
            input.position() == p0 + 6 * i,
            0 <= i <= n,
            p0 + 6 * n <= input.bytes().len(),
            v@ == spec_mesh_ops(input.bytes(), p0, i as nat),
        decreases n - i,
    {
        let a = match input.u16le() {
            Ok(x) => x,
            Err(e) => { return Err(e) },
        };
        let b = match input.u16le() {
            Ok(x) => x,
            Err(e) => { return Err(e) },
        };
        let param1 = match input.u8() {
            Ok(x) => x,
            Err(e) => { return Err(e) },
        };
        let type_field = match input.u8() {
            Ok(x) => x,
            Err(e) => { return Err(e) },
        };
        let op = if type_field == 4 {
            MeshOp {
                type_field,
                index1: None,
                index2: None,
                offset_bits: Some(a as u32 + b as u32 * 0x10000),
                param1,
            }
        } else {
            MeshOp { type_field, index1: Some(a), index2: Some(b), offset_bits: None, param1 }
        };
        v.push(op);
        i = i + 1;
        proof {
            assert(v@ =~= spec_mesh_ops(input.bytes(), p0, i as nat));
        }
    }
    Ok(v)
}

/// A mesh: the fixed preamble fields, then positions, texture coordinates,
/// normals, colours, triangles, three run-length group tables and the
/// mesh-op list.  Positions are the stored fixed-point integers, scaled by
/// two to the negative `scale_shift`; texture coordinates are 256ths;
/// normals are 128ths; the `*_bits` fields keep stored floats verbatim.
#[derive(Debug, PartialEq)]
pub struct WldMesh {
    pub name: Option<String>,
    pub flags: u32,
    pub animation_ref: u32,
    pub centre_bits: (u32, u32, u32),
    pub color_count: u16,
    pub scale_shift: u16,
    pub face_material_group_count: u16,
    pub material_list_ref: u32,
    pub max_distance_bits: u32,
    pub max_bits: (u32, u32, u32),
    pub mesh_op_count: u16,
    pub min_bits: (u32, u32, u32),
    pub normal_count: u16,
    pub params2: (u32, u32, u32),
    pub triangle_count: u16,
    pub unk1_frag_ref: u32,
    pub unk2_frag_ref: u32,
    pub uv_count: u16,
    pub vertex_count: u16,
    pub vertex_bone_group_count: u16,
    pub vertex_material_group_count: u16,
    pub color: Vec<(u8, u8, u8, u8)>,
    pub mesh_op: Vec<MeshOp>,
    pub normal: Vec<(i8, i8, i8)>,
    pub position: Vec<(i16, i16, i16)>,
    pub triangle: Vec<(u16, u16, u16, u16)>,
    pub uv: Vec<(i32, i32)>,
    pub face_material_group: Vec<(u16, u16, u16)>,
    pub vertex_bone_group: Vec<(u16, u16, u16)>,
    pub vertex_material_group: Vec<(u16, u16, u16)>,
}

pub struct WldMeshView {
    pub name: Option<Seq<char>>,
    pub flags: u32,
    pub animation_ref: u32,
    pub centre_bits: (u32, u32, u32),
    pub color_count: u16,
    pub scale_shift: u16,
    pub face_material_group_count: u16,
    pub material_list_ref: u32,
    pub max_distance_bits: u32,
    pub max_bits: (u32, u32, u32),
    pub mesh_op_count: u16,
    pub min_bits: (u32, u32, u32),
    pub normal_count: u16,
    pub params2: (u32, u32, u32),
    pub triangle_count: u16,
    pub unk1_frag_ref: u32,
    pub unk2_frag_ref: u32,
    pub uv_count: u16,
    pub vertex_count: u16,
    pub vertex_bone_group_count: u16,
    pub vertex_material_group_count: u16,
    pub color: Seq<(u8, u8, u8, u8)>,
    pub mesh_op: Seq<MeshOp>,
    pub normal: Seq<(i8, i8, i8)>,
    pub position: Seq<(i16, i16, i16)>,
    pub triangle: Seq<(u16, u16, u16, u16)>,
    pub uv: Seq<(i32, i32)>,
    pub face_material_group: Seq<(u16, u16, u16)>,
    pub vertex_bone_group: Seq<(u16, u16, u16)>,
    pub vertex_material_group: Seq<(u16, u16, u16)>,
}

impl View for WldMesh {
    type V = WldMeshView;

    open spec fn view(&self) -> WldMeshView {
        WldMeshView {
            name: opt_string_view(self.name),
            flags: self.flags,
            animation_ref: self.animation_ref,
            centre_bits: self.centre_bits,
            color_count: self.color_count,
            scale_shift: self.scale_shift,
            face_material_group_count: self.face_material_group_count,
            material_list_ref: self.material_list_ref,
            max_distance_bits: self.max_distance_bits,
            max_bits: self.max_bits,
            mesh_op_count: self.mesh_op_count,
            min_bits: self.min_bits,
            normal_count: self.normal_count,
            params2: self.params2,
            triangle_count: self.triangle_count,
            unk1_frag_ref: self.unk1_frag_ref,
            unk2_frag_ref: self.unk2_frag_ref,
            uv_count: self.uv_count,
            vertex_count: self.vertex_count,
            vertex_bone_group_count: self.vertex_bone_group_count,
            vertex_material_group_count: self.vertex_material_group_count,
            color: self.color@,
            mesh_op: self.mesh_op@,
            normal: self.normal@,
            position: self.position@,
            triangle: self.triangle@,
            uv: self.uv@,
            face_material_group: self.face_material_group@,
            vertex_bone_group: self.vertex_bone_group@,
            vertex_material_group: self.vertex_material_group@,
        }
    }
}

impl WldFragment for WldMesh {
    open spec fn spec_type_tag() -> u32 {
        54
    }

    open spec fn spec_decode(s: Seq<u8>, p: int, ctx: SettingsView) -> Result<
        (WldMeshView, int),
        EQFilesError,
    > {
        if p + 92 > s.len() {
            Err(EQFilesError::UnknownError)
        } else {
            let vertex_count = le16_at(s, p + 72);
            let uv_count = le16_at(s, p + 74);
            let normal_count = le16_at(s, p + 76);
            let color_count = le16_at(s, p + 78);
            let triangle_count = le16_at(s, p + 80);
            let vertex_bone_group_count = le16_at(s, p + 82);
            let face_material_group_count = le16_at(s, p + 84);
            let vertex_material_group_count = le16_at(s, p + 86);
            let mesh_op_count = le16_at(s, p + 88);
            let scale_shift = le16_at(s, p + 90);
            let q0 = p + 92;
            if q0 + 6 * vertex_count > s.len() {
                Err(EQFilesError::UnknownError)
            } else {
                let q1 = q0 + 6 * vertex_count;
                let uv_size: int = if ctx.old_world {
                    4
                } else {
                    8
                };
                if q1 + uv_size * uv_count > s.len() {
                    Err(EQFilesError::UnknownError)
                } else {
                    let uv = if ctx.old_world {
                        spec_uv_old(s, q1, uv_count as nat)
                    } else {
                        spec_uv_new(s, q1, uv_count as nat)
                    };
                    let q2 = q1 + uv_size * uv_count;
                    if q2 + 3 * normal_count > s.len() {
                        Err(EQFilesError::UnknownError)
                    } else {
                        let q3 = q2 + 3 * normal_count;
                        if q3 + 4 * color_count > s.len() {
                            Err(EQFilesError::UnknownError)
                        } else {
                            let q4 = q3 + 4 * color_count;
                            if q4 + 8 * triangle_count > s.len() {
                                Err(EQFilesError::UnknownError)
                            } else {
                                let q5 = q4 + 8 * triangle_count;
                                if q5 + 4 * vertex_bone_group_count > s.len() {
                                    Err(EQFilesError::UnknownError)
                                } else {
                                    match spec_groups(s, q5, vertex_bone_group_count as nat, 0) {
                                        Err(e) => Err(e),
                                        Ok(vertex_bone_group) => {
                                            let q6 = q5 + 4 * vertex_bone_group_count;
                                            if q6 + 4 * face_material_group_count > s.len() {
                                                Err(EQFilesError::UnknownError)
                                            } else {
                                                match spec_groups(
                                                    s,
                                                    q6,
                                                    face_material_group_count as nat,
                                                    0,
                                                ) {
                                                    Err(e) => Err(e),
                                                    Ok(face_material_group) => {
                                                        let q7 = q6 + 4
                                                            * face_material_group_count;
                                                        if q7 + 4 * vertex_material_group_count
                                                            > s.len() {
                                                            Err(EQFilesError::UnknownError)
                                                        } else {
                                                            match spec_groups(
                                                                s,
                                                                q7,
                                                                vertex_material_group_count as nat,
                                                                0,
                                                            ) {
                                                                Err(e) => Err(e),
                                                                Ok(vertex_material_group) => {
                                                                    let q8 = q7 + 4
                                                                        * vertex_material_group_count;
                                                                    if q8 + 6 * mesh_op_count
                                                                        > s.len() {
                                                                        Err(
                                                                            EQFilesError::UnknownError,
                                                                        )
                                                                    } else {
                                                                        Ok(
                                                                            (
                                                                                WldMeshView {
                                                                                    name: ctx.name,
                                                                                    flags: le32_at(s, p),
                                                                                    material_list_ref: le32_at(s, p + 4),
                                                                                    animation_ref: le32_at(s, p + 8),
                                                                                    unk1_frag_ref: le32_at(s, p + 12),
                                                                                    unk2_frag_ref: le32_at(s, p + 16),
                                                                                    centre_bits: (
                                                                                        le32_at(s, p + 20),
                                                                                        le32_at(s, p + 24),
                                                                                        le32_at(s, p + 28),
                                                                                    ),
                                                                                    params2: (
                                                                                        le32_at(s, p + 32),
                                                                                        le32_at(s, p + 36),
                                                                                        le32_at(s, p + 40),
                                                                                    ),
                                                                                    max_distance_bits: le32_at(s, p + 44),
                                                                                    min_bits: (
                                                                                        le32_at(s, p + 48),
                                                                                        le32_at(s, p + 52),
                                                                                        le32_at(s, p + 56),
                                                                                    ),
                                                                                    max_bits: (
                                                                                        le32_at(s, p + 60),
                                                                                        le32_at(s, p + 64),
                                                                                        le32_at(s, p + 68),
                                                                                    ),
                                                                                    vertex_count,
                                                                                    uv_count,
                                                                                    normal_count,
                                                                                    color_count,
                                                                                    triangle_count,
                                                                                    vertex_bone_group_count,
                                                                                    face_material_group_count,
                                                                                    vertex_material_group_count,
                                                                                    mesh_op_count,
                                                                                    scale_shift,
                                                                                    position: spec_i16_triples(s, q0, vertex_count as nat),
                                                                                    uv,
                                                                                    normal: spec_i8_triples(s, q2, normal_count as nat),
                                                                                    color: spec_u8_quads(s, q3, color_count as nat),
                                                                                    triangle: spec_u16_quads(s, q4, triangle_count as nat),
                                                                                    vertex_bone_group,
                                                                                    face_material_group,
                                                                                    vertex_material_group,
                                                                                    mesh_op: spec_mesh_ops(s, q8, mesh_op_count as nat),
                                                                                },
                                                                                q8 + 6 * mesh_op_count,
                                                                            ),
                                                                        )
                                                                    }
                                                                },
                                                            }
                                                        }
                                                    },
                                                }
                                            }
                                        },
                                    }
                                }
                            }
                        }
                    }
                }
            }
        }
    }

    fn type_tag() -> u32 {
        54
    }

    #[verifier::rlimit(60)]
    fn new(input: &mut ByteCursor, settings: &Settings) -> Result<WldMesh, EQFilesError> {
        if input.remaining() < 92 {
            return Err(EQFilesError::UnknownError);
        }
        let flags = match input.u32le() {
            Ok(v) => v,
            Err(e) => { return Err(e) },
        };
        let material_list_ref = match input.u32le() {
            Ok(v) => v,
            Err(e) => { return Err(e) },
        };
        let animation_ref = match input.u32le() {
            Ok(v) => v,
            Err(e) => { return Err(e) },
        };
        let unk1_frag_ref = match input.u32le() {
            Ok(v) => v,
            Err(e) => { return Err(e) },
        };
        let unk2_frag_ref = match input.u32le() {
            Ok(v) => v,
            Err(e) => { return Err(e) },
        };
        let cx = match input.u32le() {
            Ok(v) => v,
            Err(e) => { return Err(e) },
        };
        let cy = match input.u32le() {
            Ok(v) => v,
            Err(e) => { return Err(e) },
        };
        let cz = match input.u32le() {
            Ok(v) => v,
            Err(e) => { return Err(e) },
        };
        let pa = match input.u32le() {
            Ok(v) => v,
            Err(e) => { return Err(e) },
        };
        let pb = match input.u32le() {
            Ok(v) => v,
            Err(e) => { return Err(e) },
        };
        let pc = match input.u32le() {
            Ok(v) => v,
            Err(e) => { return Err(e) },
        };
        let max_distance_bits = match input.u32le() {
            Ok(v) => v,
            Err(e) => { return Err(e) },
        };
        let mnx = match input.u32le() {
            Ok(v) => v,
            Err(e) => { return Err(e) },
        };
        let mny = match input.u32le() {
            Ok(v) => v,
            Err(e) => { return Err(e) },
        };
        let mnz = match input.u32le() {
            Ok(v) => v,
            Err(e) => { return Err(e) },
        };
        let mxx = match input.u32le() {
            Ok(v) => v,
            Err(e) => { return Err(e) },
        };
        let mxy = match input.u32le() {
            Ok(v) => v,
            Err(e) => { return Err(e) },
        };
        let mxz = match input.u32le() {
            Ok(v) => v,
            Err(e) => { return Err(e) },
        };
        let vertex_count = match input.u16le() {
            Ok(v) => v,
            Err(e) => { return Err(e) },
        };
        let uv_count = match input.u16le() {
            Ok(v) => v,
            Err(e) => { return Err(e) },
        };
        let normal_count = match input.u16le() {
            Ok(v) => v,
            Err(e) => { return Err(e) },
        };
        let color_count = match input.u16le() {
            Ok(v) => v,
            Err(e) => { return Err(e) },
        };
        let triangle_count = match input.u16le() {
            Ok(v) => v,
            Err(e) => { return Err(e) },
        };
        let vertex_bone_group_count = match input.u16le() {
            Ok(v) => v,
            Err(e) => { return Err(e) },
        };
        let face_material_group_count = match input.u16le() {
            Ok(v) => v,
            Err(e) => { return Err(e) },
        };
        let vertex_material_group_count = match input.u16le() {
            Ok(v) => v,
            Err(e) => { return Err(e) },
        };
        let mesh_op_count = match input.u16le() {
            Ok(v) => v,
            Err(e) => { return Err(e) },
        };
        let scale_shift = match input.u16le() {
            Ok(v) => v,
            Err(e) => { return Err(e) },
        };
        let position = match read_i16_triples(input, vertex_count) {
            Ok(v) => v,
            Err(e) => { return Err(e) },
        };
        let uv = if settings.is_old_world() {
            match read_uv_old(input, uv_count) {
                Ok(v) => v,
                Err(e) => { return Err(e) },
            }
        } else {
            match read_uv_new(input, uv_count) {
                Ok(v) => v,
                Err(e) => { return Err(e) },
            }
        };
        let normal = match read_i8_triples(input, normal_count) {
            Ok(v) => v,
            Err(e) => { return Err(e) },
        };
        let color = match read_u8_quads(input, color_count) {
            Ok(v) => v,
            Err(e) => { return Err(e) },
        };
        let triangle = match read_u16_quads(input, triangle_count) {
            Ok(v) => v,
            Err(e) => { return Err(e) },
        };
        let vertex_bone_group = match read_groups(input, vertex_bone_group_count) {
            Ok(v) => v,
            Err(e) => { return Err(e) },
        };
        let face_material_group = match read_groups(input, face_material_group_count) {
            Ok(v) => v,
            Err(e) => { return Err(e) },
        };
        let vertex_material_group = match read_groups(input, vertex_material_group_count) {
            Ok(v) => v,
            Err(e) => { return Err(e) },
        };
        let mesh_op = match read_mesh_ops(input, mesh_op_count) {
            Ok(v) => v,
            Err(e) => { return Err(e) },
        };
        Ok(
            WldMesh {
                name: settings.get_name(),
                flags,
                animation_ref,
                centre_bits: (cx, cy, cz),
                color_count,
                scale_shift,
                face_material_group_count,
                material_list_ref,
                max_distance_bits,
                max_bits: (mxx, mxy, mxz),
                mesh_op_count,
                min_bits: (mnx, mny, mnz),
                normal_count,
                params2: (pa, pb, pc),
                triangle_count,
                unk1_frag_ref,
                unk2_frag_ref,
                uv_count,
                vertex_count,
                vertex_bone_group_count,
                vertex_material_group_count,
                color,
                mesh_op,
                normal,
                position,
                triangle,
                uv,
                face_material_group,
                vertex_bone_group,
                vertex_material_group,
            },
        )
    }
}

} // verus!
