//! Track definition fragments: per-frame transform records of signed 16-bit
//! rotation and translation components.

use vstd::prelude::*;

use crate::cursor::{as_signed16, le16_at, le32_at, ByteCursor};
use crate::fragments::{Settings, SettingsView, WldFragment};
use crate::strings::opt_string_view;
use crate::EQFilesError;

verus! {

/// One frame transform, kept as the raw stored components: the rotation is
/// a denominator plus three axis components forming an unnormalised
/// quaternion, and the translation components are 256ths gated by a nonzero
/// shift denominator (a zero denominator means no translation and identity
/// scale).
#[derive(Clone, Copy, Debug, PartialEq, Eq, Structural)]
pub struct WldSkeletonPieceTrackFrameTransform {
    pub rotation_denominator: i16,
    pub rotation_x: i16,
    pub rotation_y: i16,
    pub rotation_z: i16,
    pub shift_x: i16,
    pub shift_y: i16,
    pub shift_z: i16,
    pub shift_denominator: i16,
}

/// The frame transform stored at offset `p`: eight consecutive signed
/// 16-bit fields.
pub open spec fn spec_frame_at(s: Seq<u8>, p: int) -> WldSkeletonPieceTrackFrameTransform {
    WldSkeletonPieceTrackFrameTransform {
        rotation_denominator: as_signed16(le16_at(s, p)),
        rotation_x: as_signed16(le16_at(s, p + 2)),
        rotation_y: as_signed16(le16_at(s, p + 4)),
        rotation_z: as_signed16(le16_at(s, p + 6)),
        shift_x: as_signed16(le16_at(s, p + 8)),
        shift_y: as_signed16(le16_at(s, p + 10)),
        shift_z: as_signed16(le16_at(s, p + 12)),
        shift_denominator: as_signed16(le16_at(s, p + 14)),
    }
}

/// The `n` 16-byte frame transforms stored back to back at offset `p`.
pub open spec fn spec_frames(s: Seq<u8>, p: int, n: nat) -> Seq<
    WldSkeletonPieceTrackFrameTransform,
> {
    Seq::new(n, |k: int| spec_frame_at(s, p + 16 * k))
}

/// A track definition: flags, a frame count, that many frame transforms,
/// and whatever trails them kept verbatim.
#[derive(Clone, Debug)]
pub struct WldSkeletonPieceTrackDef {
    pub name_ref: i32,
    pub name: Option<String>,
    pub flags: u32,
    pub frames: Vec<WldSkeletonPieceTrackFrameTransform>,
    pub remainder: Vec<u8>,
}

pub struct WldSkeletonPieceTrackDefView {
    pub name_ref: i32,
    pub name: Option<Seq<char>>,
    pub flags: u32,
    pub frames: Seq<WldSkeletonPieceTrackFrameTransform>,
    pub remainder: Seq<u8>,
}

impl View for WldSkeletonPieceTrackDef {
    type V = WldSkeletonPieceTrackDefView;

    open spec fn view(&self) -> WldSkeletonPieceTrackDefView {
        WldSkeletonPieceTrackDefView {
            name_ref: self.name_ref,
            name: opt_string_view(self.name),
            flags: self.flags,
            frames: self.frames@,
            remainder: self.remainder@,
        }
    }
}

impl WldFragment for WldSkeletonPieceTrackDef {
    open spec fn spec_type_tag() -> u32 {
        18
    }

    open spec fn spec_decode(s: Seq<u8>, p: int, ctx: SettingsView) -> Result<
        (WldSkeletonPieceTrackDefView, int),
        EQFilesError,
    > {
        if p + 8 > s.len() {
            Err(EQFilesError::UnknownError)
        } else {
            let flags = le32_at(s, p);
            let frame_count = le32_at(s, p + 4);
            if p + 8 + 16 * frame_count > s.len() {
                Err(EQFilesError::UnknownError)
            } else {
                Ok(
                    (
                        WldSkeletonPieceTrackDefView {
                            name_ref: ctx.name_ref,
                            name: ctx.name,
                            flags,
                            frames: spec_frames(s, p + 8, frame_count as nat),
                            remainder: s.subrange(p + 8 + 16 * frame_count, s.len() as int),
                        },
                        s.len() as int,
                    ),
                )
            }
        }
    }

    fn type_tag() -> u32 {
        18
    }

    #[verifier::loop_isolation(false)]
    fn new(input: &mut ByteCursor, settings: &Settings) -> Result<
        WldSkeletonPieceTrackDef,
        EQFilesError,
    > {
        let flags = match input.u32le() {
            Ok(v) => v,
            Err(e) => { return Err(e) },
        };
        let frame_count = match input.u32le() {
            Ok(v) => v,
            Err(e) => { return Err(e) },
        };
        if (frame_count as u64) * 16 > input.remaining() as u64 {
            return Err(EQFilesError::UnknownError);
        }
        let ghost p0 = input.position();
        let mut frames: Vec<WldSkeletonPieceTrackFrameTransform> = Vec::new();
        let mut i: u32 = 0;
        while i < frame_count
            invariant
                input.wf(),
                input.bytes() == old(input).bytes(),
                input.position() == p0 + 16 * i,
                0 <= i <= frame_count,
                p0 + 16 * frame_count <= input.bytes().len(),
                frames@ == spec_frames(input.bytes(), p0, i as nat),
            decreases frame_count - i,
        {
            let rotation_denominator = match input.i16le() {
                Ok(v) => v,
                Err(e) => { return Err(e) },
            };
            let rotation_x = match input.i16le() {
                Ok(v) => v,
                Err(e) => { return Err(e) },
            };
            let rotation_y = match input.i16le() {
                Ok(v) => v,
                Err(e) => { return Err(e) },
            };
            let rotation_z = match input.i16le() {
                Ok(v) => v,
                Err(e) => { return Err(e) },
            };
            let shift_x = match input.i16le() {
                Ok(v) => v,
                Err(e) => { return Err(e) },
            };
            let shift_y = match input.i16le() {
                Ok(v) => v,
                Err(e) => { return Err(e) },
            };
            let shift_z = match input.i16le() {
                Ok(v) => v,
                Err(e) => { return Err(e) },
            };
            let shift_denominator = match input.i16le() {
                Ok(v) => v,
                Err(e) => { return Err(e) },
            };
            frames.push(
                WldSkeletonPieceTrackFrameTransform {
                    rotation_denominator,
                    rotation_x,
                    rotation_y,
                    rotation_z,
                    shift_x,
                    shift_y,
                    shift_z,
                    shift_denominator,
                },
            );
            i = i + 1;
            proof {
                assert(frames@ =~= spec_frames(input.bytes(), p0, i as nat));
            }
        }
        let rest = input.remaining();
        let remainder = match input.take(rest) {
            Ok(v) => v,
            Err(e) => { return Err(e) },
        };
        Ok(
            WldSkeletonPieceTrackDef {
                name_ref: settings.get_name_ref(),
                name: settings.get_name(),
                flags,
                frames,
                remainder,
            },
        )
    }
}

/// A track definition under its legacy name: flags only, the rest of the
/// span kept verbatim.
#[derive(Clone, Debug)]
pub struct WldTrackDef {
    pub name_ref: i32,
    pub name: Option<String>,
    pub flags: u32,
    pub remainder: Vec<u8>,
}

pub struct WldTrackDefView {
    pub name_ref: i32,
    pub name: Option<Seq<char>>,
    pub flags: u32,
    pub remainder: Seq<u8>,
}

impl View for WldTrackDef {
    type V = WldTrackDefView;

    open spec fn view(&self) -> WldTrackDefView {
        WldTrackDefView {
            name_ref: self.name_ref,
            name: opt_string_view(self.name),
            flags: self.flags,
            remainder: self.remainder@,
        }
    }
}

impl WldFragment for WldTrackDef {
    open spec fn spec_type_tag() -> u32 {
        18
    }

    open spec fn spec_decode(s: Seq<u8>, p: int, ctx: SettingsView) -> Result<
        (WldTrackDefView, int),
        EQFilesError,
    > {
        if p + 4 > s.len() {
            Err(EQFilesError::UnknownError)
        } else {
            Ok(
                (
                    WldTrackDefView {
                        name_ref: ctx.name_ref,
                        name: ctx.name,
                        flags: le32_at(s, p),
                        remainder: s.subrange(p + 4, s.len() as int),
                    },
                    s.len() as int,
                ),
            )
        }
    }

    fn type_tag() -> u32 {
        18
    }

    fn new(input: &mut ByteCursor, settings: &Settings) -> Result<WldTrackDef, EQFilesError> {
        let flags = match input.u32le() {
            Ok(v) => v,
            Err(e) => { return Err(e) },
        };
        let rest = input.remaining();
        let remainder = match input.take(rest) {
            Ok(v) => v,
            Err(e) => { return Err(e) },
        };
        Ok(
            WldTrackDef {
                name_ref: settings.get_name_ref(),
                name: settings.get_name(),
                flags,
                remainder,
            },
        )
    }
}

} // verus!
