//! Typed fragment decoders: each one is a pure function from a raw
//! fragment's byte span and the shared per-file context to a typed record.

use vstd::prelude::*;

pub mod mesh;
pub mod model;
pub mod skeleton;
pub mod trackdef;

use crate::cursor::{as_signed32, le16_at, le32_at, ByteCursor};
use crate::strings::{decode_string, opt_string_view, spec_decoded_string, string_views};
use crate::wld::{spec_opt_name, WldHeader, WldNames, WldRawFragment};
use crate::EQFilesError;

verus! {

/// The ghost value of the context a fragment decoder sees.
pub struct SettingsView {
    pub old_world: bool,
    pub names: Seq<(u32, Seq<char>)>,
    pub name_ref: i32,
    pub name: Option<Seq<char>>,
}

/// The context handed to one fragment decode: the world-file header, the
/// shared name table, and the raw fragment's own name reference and name.
/// The fragment's own name and the table used for cross-references are kept
/// separate on purpose: some fields resolve through references to *other*
/// fragments' names.
pub struct Settings<'a> {
    pub header: WldHeader,
    pub names: &'a WldNames,
    pub name_ref: i32,
    pub name: Option<String>,
}

impl<'a> View for Settings<'a> {
    type V = SettingsView;

    open spec fn view(&self) -> SettingsView {
        SettingsView {
            old_world: self.header.is_old_world,
            names: self.names@,
            name_ref: self.name_ref,
            name: opt_string_view(self.name),
        }
    }
}

impl<'a> Settings<'a> {
    /// The raw fragment's own name reference.
    pub fn get_name_ref(&self) -> (r: i32)
        ensures
            r == self@.name_ref,
    {
        self.name_ref
    }

    /// The raw fragment's own resolved name.
    pub fn get_name(&self) -> (r: Option<String>)
        ensures
            opt_string_view(r) == self@.name,
    {
        match &self.name {
            Some(s) => Some(s.clone()),
            None => None,
        }
    }

    /// Resolves an embedded name reference through the shared name table.
    pub fn get_from_name_ref(&self, index: i32) -> (r: Option<String>)
        ensures
            opt_string_view(r) == spec_opt_name(self@.names, index),
    {
        self.names.get_name(index)
    }

    /// Whether the file is the older world-file revision.
    pub fn is_old_world(&self) -> (r: bool)
        ensures
            r == self@.old_world,
    {
        self.header.is_old_world
    }
}

/// The per-file half of the decode context, fixed once a world file is
/// loaded.
pub struct BaseSettings {
    pub header: WldHeader,
    pub names: WldNames,
}

impl BaseSettings {
    pub fn new(header: WldHeader, names: WldNames) -> (r: BaseSettings)
        ensures
            r.header == header,
            r.names@ == names@,
    {
        BaseSettings { header, names }
    }

    /// Builds the full decode context for one raw fragment.
    pub fn make_settings<'a>(&'a self, fragment: &WldRawFragment) -> (r: Settings<'a>)
        ensures
            r@.old_world == self.header.is_old_world,
            r@.names == self.names@,
            r@.name_ref == fragment.name_ref,
            r@.name == fragment@.name,
    {
        Settings {
            header: self.header,
            names: &self.names,
            name_ref: fragment.name_ref,
            name: match &fragment.name {
                Some(s) => Some(s.clone()),
                None => None,
            },
        }
    }
}

/// A typed fragment kind: a type tag and a decoder whose result is pinned,
/// byte for byte, by its `spec_decode` function.
pub trait WldFragment: View + Sized {
    /// The type tag this fragment kind carries in the raw stream.
    spec fn spec_type_tag() -> u32;

    /// What decoding from offset `p` of `s` under `ctx` yields: the decoded
    /// value and the offset just past what was consumed, or the error the
    /// bytes force.
    spec fn spec_decode(s: Seq<u8>, p: int, ctx: SettingsView) -> Result<
        (Self::V, int),
        EQFilesError,
    >;

    fn type_tag() -> (r: u32)
        ensures
            r == Self::spec_type_tag(),
    ;

    fn new(input: &mut ByteCursor, settings: &Settings) -> (r: Result<Self, EQFilesError>)
        requires
            old(input).wf(),
        ensures
            final(input).wf(),
            final(input).bytes() == old(input).bytes(),
            match Self::spec_decode(old(input).bytes(), old(input).position(), settings@) {
                Ok((v, q)) => (r matches Ok(x) && x@ == v) && final(input).position() == q,
                Err(e) => r == Err::<Self, EQFilesError>(e),
            },
    ;
}

/// The decode-purity law: what a fragment decodes to is a function of the
/// byte span and the shared context alone, so decoding the same span twice
/// under the same context yields structurally equal results.
pub proof fn lemma_decode_pure<T: WldFragment>(
    s: Seq<u8>,
    p: int,
    ctx: SettingsView,
    r1: Result<(T::V, int), EQFilesError>,
    r2: Result<(T::V, int), EQFilesError>,
)
    requires
        r1 == T::spec_decode(s, p, ctx),
        r2 == T::spec_decode(s, p, ctx),
    ensures
        r1 == r2,
{
}

/// The `n` little-endian 32-bit values stored back to back at offset `p`.
pub open spec fn spec_u32_list(s: Seq<u8>, p: int, n: nat) -> Seq<u32> {
    Seq::new(n, |k: int| le32_at(s, p + 4 * k))
}

/// Reads `n` consecutive 32-bit values.
#[verifier::loop_isolation(false)]
pub fn read_u32_list(input: &mut ByteCursor, n: u32) -> (r: Result<Vec<u32>, EQFilesError>)
    requires
        old(input).wf(),
    ensures
        final(input).wf(),
        final(input).bytes() == old(input).bytes(),
        old(input).can_read(4 * n as int) ==> (match r {
            Ok(v) => v@ == spec_u32_list(old(input).bytes(), old(input).position(), n as nat)
                && final(input).position() == old(input).position() + 4 * n,
            Err(_) => false,
        }),
        !old(input).can_read(4 * n as int) ==> r == Err::<Vec<u32>, EQFilesError>(
            EQFilesError::UnknownError,
        ),
{
    if (n as u64) * 4 > input.remaining() as u64 {
        return Err(EQFilesError::UnknownError);
    }
    let ghost p0 = input.position();
    let mut v: Vec<u32> = Vec::new();
    let mut i: u32 = 0;
    while i < n
        invariant
            input.wf(),
            input.bytes() == old(input).bytes(),
            input.position() == p0 + 4 * i,
            0 <= i <= n,
            p0 + 4 * n <= input.bytes().len(),
            v@ == spec_u32_list(input.bytes(), p0, i as nat),
        decreases n - i,
    {
        let x = match input.u32le() {
            Ok(x) => x,
            Err(_) => {
                proof {
                    assert(false);
                }
                return Err(EQFilesError::UnknownError);
            },
        };
        v.push(x);
        i = i + 1;
        proof {
            assert(v@ =~= spec_u32_list(input.bytes(), p0, i as nat));
        }
    }
    Ok(v)
}

/// A placeholder fragment kind: known to exist, contents intentionally left
/// unparsed.
#[derive(Clone, Debug)]
pub struct WldFragment6 {
    pub name: Option<String>,
}

pub struct WldFragment6View {
    pub name: Option<Seq<char>>,
}

impl View for WldFragment6 {
    type V = WldFragment6View;

    open spec fn view(&self) -> WldFragment6View {
        WldFragment6View { name: opt_string_view(self.name) }
    }
}

impl WldFragment for WldFragment6 {
    open spec fn spec_type_tag() -> u32 {
        6
    }

    open spec fn spec_decode(s: Seq<u8>, p: int, ctx: SettingsView) -> Result<
        (WldFragment6View, int),
        EQFilesError,
    > {
        Ok((WldFragment6View { name: ctx.name }, p))
    }

    fn type_tag() -> u32 {
        6
    }

    fn new(input: &mut ByteCursor, settings: &Settings) -> Result<WldFragment6, EQFilesError> {
        Ok(WldFragment6 { name: settings.get_name() })
    }
}

/// A placeholder fragment kind: known to exist, contents intentionally left
/// unparsed.
#[derive(Clone, Debug)]
pub struct WldFragment23 {
    pub name: Option<String>,
}

pub struct WldFragment23View {
    pub name: Option<Seq<char>>,
}

impl View for WldFragment23 {
    type V = WldFragment23View;

    open spec fn view(&self) -> WldFragment23View {
        WldFragment23View { name: opt_string_view(self.name) }
    }
}

impl WldFragment for WldFragment23 {
    open spec fn spec_type_tag() -> u32 {
        23
    }

    open spec fn spec_decode(s: Seq<u8>, p: int, ctx: SettingsView) -> Result<
        (WldFragment23View, int),
        EQFilesError,
    > {
        Ok((WldFragment23View { name: ctx.name }, p))
    }

    fn type_tag() -> u32 {
        23
    }

    fn new(input: &mut ByteCursor, settings: &Settings) -> Result<WldFragment23, EQFilesError> {
        Ok(WldFragment23 { name: settings.get_name() })
    }
}

/// A placeholder fragment kind: known to exist, contents intentionally left
/// unparsed.
#[derive(Clone, Debug)]
pub struct WldFragment24 {
    pub name: Option<String>,
}

pub struct WldFragment24View {
    pub name: Option<Seq<char>>,
}

impl View for WldFragment24 {
    type V = WldFragment24View;

    open spec fn view(&self) -> WldFragment24View {
        WldFragment24View { name: opt_string_view(self.name) }
    }
}

impl WldFragment for WldFragment24 {
    open spec fn spec_type_tag() -> u32 {
        24
    }

    open spec fn spec_decode(s: Seq<u8>, p: int, ctx: SettingsView) -> Result<
        (WldFragment24View, int),
        EQFilesError,
    > {
        Ok((WldFragment24View { name: ctx.name }, p))
    }

    fn type_tag() -> u32 {
        24
    }

    fn new(input: &mut ByteCursor, settings: &Settings) -> Result<WldFragment24, EQFilesError> {
        Ok(WldFragment24 { name: settings.get_name() })
    }
}

/// A placeholder fragment kind: known to exist, contents intentionally left
/// unparsed.
#[derive(Clone, Debug)]
pub struct WldFragment44 {
    pub name: Option<String>,
}

pub struct WldFragment44View {
    pub name: Option<Seq<char>>,
}

impl View for WldFragment44 {
    type V = WldFragment44View;

    open spec fn view(&self) -> WldFragment44View {
        WldFragment44View { name: opt_string_view(self.name) }
    }
}

impl WldFragment for WldFragment44 {
    open spec fn spec_type_tag() -> u32 {
        44
    }

    open spec fn spec_decode(s: Seq<u8>, p: int, ctx: SettingsView) -> Result<
        (WldFragment44View, int),
        EQFilesError,
    > {
        Ok((WldFragment44View { name: ctx.name }, p))
    }

    fn type_tag() -> u32 {
        44
    }

    fn new(input: &mut ByteCursor, settings: &Settings) -> Result<WldFragment44, EQFilesError> {
        Ok(WldFragment44 { name: settings.get_name() })
    }
}

/// A particle cloud: stored name-only, its payload is not interpreted.
#[derive(Clone, Debug)]
pub struct WldParticleCloud {
    pub name: Option<String>,
}

pub struct WldParticleCloudView {
    pub name: Option<Seq<char>>,
}

impl View for WldParticleCloud {
    type V = WldParticleCloudView;

    open spec fn view(&self) -> WldParticleCloudView {
        WldParticleCloudView { name: opt_string_view(self.name) }
    }
}

impl WldFragment for WldParticleCloud {
    open spec fn spec_type_tag() -> u32 {
        52
    }

    open spec fn spec_decode(s: Seq<u8>, p: int, ctx: SettingsView) -> Result<
        (WldParticleCloudView, int),
        EQFilesError,
    > {
        Ok((WldParticleCloudView { name: ctx.name }, p))
    }

    fn type_tag() -> u32 {
        52
    }

    fn new(input: &mut ByteCursor, settings: &Settings) -> Result<WldParticleCloud, EQFilesError> {
        Ok(WldParticleCloud { name: settings.get_name() })
    }
}

/// A mesh reference: one fragment index plus a parameter word.
#[derive(Clone, Debug)]
pub struct WldMeshRef {
    pub name: Option<String>,
    pub reference: u32,
    pub params: u32,
}

pub struct WldMeshRefView {
    pub name: Option<Seq<char>>,
    pub reference: u32,
    pub params: u32,
}

impl View for WldMeshRef {
    type V = WldMeshRefView;

    open spec fn view(&self) -> WldMeshRefView {
        WldMeshRefView {
            name: opt_string_view(self.name),
            reference: self.reference,
            params: self.params,
        }
    }
}

impl WldFragment for WldMeshRef {
    open spec fn spec_type_tag() -> u32 {
        45
    }

    open spec fn spec_decode(s: Seq<u8>, p: int, ctx: SettingsView) -> Result<
        (WldMeshRefView, int),
        EQFilesError,
    > {
        if p + 8 > s.len() {
            Err(EQFilesError::UnknownError)
        } else {
            Ok(
                (
                    WldMeshRefView {
                        name: ctx.name,
                        reference: le32_at(s, p),
                        params: le32_at(s, p + 4),
                    },
                    p + 8,
                ),
            )
        }
    }

    fn type_tag() -> u32 {
        45
    }

    fn new(input: &mut ByteCursor, settings: &Settings) -> Result<WldMeshRef, EQFilesError> {
        let reference = match input.u32le() {
            Ok(v) => v,
            Err(e) => { return Err(e) },
        };
        let params = match input.u32le() {
            Ok(v) => v,
            Err(e) => { return Err(e) },
        };
        Ok(WldMeshRef { name: settings.get_name(), reference, params })
    }
}

/// A mesh ("DM sprite") reference under its legacy name.
#[derive(Clone, Debug)]
pub struct WldDmSpriteRef {
    pub name: Option<String>,
    pub reference: u32,
    pub params: u32,
}

pub struct WldDmSpriteRefView {
    pub name: Option<Seq<char>>,
    pub reference: u32,
    pub params: u32,
}

impl View for WldDmSpriteRef {
    type V = WldDmSpriteRefView;

    open spec fn view(&self) -> WldDmSpriteRefView {
        WldDmSpriteRefView {
            name: opt_string_view(self.name),
            reference: self.reference,
            params: self.params,
        }
    }
}

impl WldFragment for WldDmSpriteRef {
    open spec fn spec_type_tag() -> u32 {
        45
    }

    open spec fn spec_decode(s: Seq<u8>, p: int, ctx: SettingsView) -> Result<
        (WldDmSpriteRefView, int),
        EQFilesError,
    > {
        if p + 8 > s.len() {
            Err(EQFilesError::UnknownError)
        } else {
            Ok(
                (
                    WldDmSpriteRefView {
                        name: ctx.name,
                        reference: le32_at(s, p),
                        params: le32_at(s, p + 4),
                    },
                    p + 8,
                ),
            )
        }
    }

    fn type_tag() -> u32 {
        45
    }

    fn new(input: &mut ByteCursor, settings: &Settings) -> Result<WldDmSpriteRef, EQFilesError> {
        let reference = match input.u32le() {
            Ok(v) => v,
            Err(e) => { return Err(e) },
        };
        let params = match input.u32le() {
            Ok(v) => v,
            Err(e) => { return Err(e) },
        };
        Ok(WldDmSpriteRef { name: settings.get_name(), reference, params })
    }
}

/// A skeleton track set reference.
#[derive(Clone, Debug)]
pub struct WldSkeletonTrackSetRef {
    pub name_ref: i32,
    pub name: Option<String>,
    pub reference: u32,
    pub params1: u32,
}

pub struct WldSkeletonTrackSetRefView {
    pub name_ref: i32,
    pub name: Option<Seq<char>>,
    pub reference: u32,
    pub params1: u32,
}

impl View for WldSkeletonTrackSetRef {
    type V = WldSkeletonTrackSetRefView;

    open spec fn view(&self) -> WldSkeletonTrackSetRefView {
        WldSkeletonTrackSetRefView {
            name_ref: self.name_ref,
            name: opt_string_view(self.name),
            reference: self.reference,
            params1: self.params1,
        }
    }
}

impl WldFragment for WldSkeletonTrackSetRef {
    open spec fn spec_type_tag() -> u32 {
        17
    }

    open spec fn spec_decode(s: Seq<u8>, p: int, ctx: SettingsView) -> Result<
        (WldSkeletonTrackSetRefView, int),
        EQFilesError,
    > {
        if p + 8 > s.len() {
            Err(EQFilesError::UnknownError)
        } else {
            Ok(
                (
                    WldSkeletonTrackSetRefView {
                        name_ref: ctx.name_ref,
                        name: ctx.name,
                        reference: le32_at(s, p),
                        params1: le32_at(s, p + 4),
                    },
                    p + 8,
                ),
            )
        }
    }

    fn type_tag() -> u32 {
        17
    }

    fn new(input: &mut ByteCursor, settings: &Settings) -> Result<
        WldSkeletonTrackSetRef,
        EQFilesError,
    > {
        let reference = match input.u32le() {
            Ok(v) => v,
            Err(e) => { return Err(e) },
        };
        let params1 = match input.u32le() {
            Ok(v) => v,
            Err(e) => { return Err(e) },
        };
        Ok(
            WldSkeletonTrackSetRef {
                name_ref: settings.get_name_ref(),
                name: settings.get_name(),
                reference,
                params1,
            },
        )
    }
}

/// A skeleton reference, the same frame shape as the track set reference.
#[derive(Clone, Debug)]
pub struct WldSkeletonRef {
    pub name_ref: i32,
    pub name: Option<String>,
    pub reference: u32,
    pub params1: u32,
}

pub struct WldSkeletonRefView {
    pub name_ref: i32,
    pub name: Option<Seq<char>>,
    pub reference: u32,
    pub params1: u32,
}

impl View for WldSkeletonRef {
    type V = WldSkeletonRefView;

    open spec fn view(&self) -> WldSkeletonRefView {
        WldSkeletonRefView {
            name_ref: self.name_ref,
            name: opt_string_view(self.name),
            reference: self.reference,
            params1: self.params1,
        }
    }
}

impl WldFragment for WldSkeletonRef {
    open spec fn spec_type_tag() -> u32 {
        17
    }

    open spec fn spec_decode(s: Seq<u8>, p: int, ctx: SettingsView) -> Result<
        (WldSkeletonRefView, int),
        EQFilesError,
    > {
        if p + 8 > s.len() {
            Err(EQFilesError::UnknownError)
        } else {
            Ok(
                (
                    WldSkeletonRefView {
                        name_ref: ctx.name_ref,
                        name: ctx.name,
                        reference: le32_at(s, p),
                        params1: le32_at(s, p + 4),
                    },
                    p + 8,
                ),
            )
        }
    }

    fn type_tag() -> u32 {
        17
    }

    fn new(input: &mut ByteCursor, settings: &Settings) -> Result<WldSkeletonRef, EQFilesError> {
        let reference = match input.u32le() {
            Ok(v) => v,
            Err(e) => { return Err(e) },
        };
        let params1 = match input.u32le() {
            Ok(v) => v,
            Err(e) => { return Err(e) },
        };
        Ok(
            WldSkeletonRef {
                name_ref: settings.get_name_ref(),
                name: settings.get_name(),
                reference,
                params1,
            },
        )
    }
}

/// A particle sprite: flags, a bitmap reference and one unknown word.
#[derive(Clone, Debug)]
pub struct WldParticleSprite {
    pub name: Option<String>,
    flags: u32,
    bitmap_ref: u32,
    unk: u32,
}

pub struct WldParticleSpriteView {
    pub name: Option<Seq<char>>,
    pub flags: u32,
    pub bitmap_ref: u32,
    pub unk: u32,
}

impl View for WldParticleSprite {
    type V = WldParticleSpriteView;

    closed spec fn view(&self) -> WldParticleSpriteView {
        WldParticleSpriteView {
            name: opt_string_view(self.name),
            flags: self.flags,
            bitmap_ref: self.bitmap_ref,
            unk: self.unk,
        }
    }
}

impl WldFragment for WldParticleSprite {
    open spec fn spec_type_tag() -> u32 {
        38
    }

    open spec fn spec_decode(s: Seq<u8>, p: int, ctx: SettingsView) -> Result<
        (WldParticleSpriteView, int),
        EQFilesError,
    > {
        if p + 12 > s.len() {
            Err(EQFilesError::UnknownError)
        } else {
            Ok(
                (
                    WldParticleSpriteView {
                        name: ctx.name,
                        flags: le32_at(s, p),
                        bitmap_ref: le32_at(s, p + 4),
                        unk: le32_at(s, p + 8),
                    },
                    p + 12,
                ),
            )
        }
    }

    fn type_tag() -> u32 {
        38
    }

    fn new(input: &mut ByteCursor, settings: &Settings) -> Result<WldParticleSprite, EQFilesError> {
        let flags = match input.u32le() {
            Ok(v) => v,
            Err(e) => { return Err(e) },
        };
        let bitmap_ref = match input.u32le() {
            Ok(v) => v,
            Err(e) => { return Err(e) },
        };
        let unk = match input.u32le() {
            Ok(v) => v,
            Err(e) => { return Err(e) },
        };
        Ok(WldParticleSprite { name: settings.get_name(), flags, bitmap_ref, unk })
    }
}

/// A particle sprite reference.
#[derive(Clone, Debug)]
pub struct WldParticleSpriteRef {
    pub name: Option<String>,
    reference: u32,
    unknown: u32,
}

pub struct WldParticleSpriteRefView {
    pub name: Option<Seq<char>>,
    pub reference: u32,
    pub unknown: u32,
}

impl View for WldParticleSpriteRef {
    type V = WldParticleSpriteRefView;

    closed spec fn view(&self) -> WldParticleSpriteRefView {
        WldParticleSpriteRefView {
            name: opt_string_view(self.name),
            reference: self.reference,
            unknown: self.unknown,
        }
    }
}

impl WldFragment for WldParticleSpriteRef {
    open spec fn spec_type_tag() -> u32 {
        39
    }

    open spec fn spec_decode(s: Seq<u8>, p: int, ctx: SettingsView) -> Result<
        (WldParticleSpriteRefView, int),
        EQFilesError,
    > {
        if p + 8 > s.len() {
            Err(EQFilesError::UnknownError)
        } else {
            Ok(
                (
                    WldParticleSpriteRefView {
                        name: ctx.name,
                        reference: le32_at(s, p),
                        unknown: le32_at(s, p + 4),
                    },
                    p + 8,
                ),
            )
        }
    }

    fn type_tag() -> u32 {
        39
    }

    fn new(input: &mut ByteCursor, settings: &Settings) -> Result<
        WldParticleSpriteRef,
        EQFilesError,
    > {
        let reference = match input.u32le() {
            Ok(v) => v,
            Err(e) => { return Err(e) },
        };
        let unknown = match input.u32le() {
            Ok(v) => v,
            Err(e) => { return Err(e) },
        };
        Ok(WldParticleSpriteRef { name: settings.get_name(), reference, unknown })
    }
}

/// The flag word of an animation track fragment.
#[derive(Clone, Copy, Debug, PartialEq, Eq, Structural)]
pub struct WldSkeletonPieceTrackFlags {
    pub raw: u32,
}

impl WldSkeletonPieceTrackFlags {
    pub open spec fn spec_has_sleep(self) -> bool {
        self.raw & 0x01 != 0
    }

    pub open spec fn spec_reverse(self) -> bool {
        self.raw & 0x02 != 0
    }

    pub open spec fn spec_interpolate(self) -> bool {
        self.raw & 0x04 != 0
    }

    pub fn has_sleep(&self) -> (r: bool)
        ensures
            r == self.spec_has_sleep(),
    {
        self.raw & 0x01 != 0
    }

    pub fn reverse(&self) -> (r: bool)
        ensures
            r == self.spec_reverse(),
    {
        self.raw & 0x02 != 0
    }

    pub fn interpolate(&self) -> (r: bool)
        ensures
            r == self.spec_interpolate(),
    {
        self.raw & 0x04 != 0
    }
}

/// An animation track: a reference to its definition plus an optional sleep
/// interval gated by the flag word.
#[derive(Clone, Debug)]
pub struct WldSkeletonPieceTrack {
    pub name: Option<String>,
    pub reference: u32,
    pub flags: WldSkeletonPieceTrackFlags,
    pub sleep: Option<u32>,
}

pub struct WldSkeletonPieceTrackView {
    pub name: Option<Seq<char>>,
    pub reference: u32,
    pub flags: WldSkeletonPieceTrackFlags,
    pub sleep: Option<u32>,
}

impl View for WldSkeletonPieceTrack {
    type V = WldSkeletonPieceTrackView;

    open spec fn view(&self) -> WldSkeletonPieceTrackView {
        WldSkeletonPieceTrackView {
            name: opt_string_view(self.name),
            reference: self.reference,
            flags: self.flags,
            sleep: self.sleep,
        }
    }
}

impl WldFragment for WldSkeletonPieceTrack {
    open spec fn spec_type_tag() -> u32 {
        19
    }

    open spec fn spec_decode(s: Seq<u8>, p: int, ctx: SettingsView) -> Result<
        (WldSkeletonPieceTrackView, int),
        EQFilesError,
    > {
        if p + 8 > s.len() {
            Err(EQFilesError::UnknownError)
        } else {
            let reference = le32_at(s, p);
            let flags = WldSkeletonPieceTrackFlags { raw: le32_at(s, p + 4) };
            if flags.spec_has_sleep() {
                if p + 12 > s.len() {
                    Err(EQFilesError::UnknownError)
                } else {
                    Ok(
                        (
                            WldSkeletonPieceTrackView {
                                name: ctx.name,
                                reference,
                                flags,
                                sleep: Some(le32_at(s, p + 8)),
                            },
                            p + 12,
                        ),
                    )
                }
            } else {
                Ok(
                    (
                        WldSkeletonPieceTrackView { name: ctx.name, reference, flags, sleep: None },
                        p + 8,
                    ),
                )
            }
        }
    }

    fn type_tag() -> u32 {
        19
    }

    fn new(input: &mut ByteCursor, settings: &Settings) -> Result<
        WldSkeletonPieceTrack,
        EQFilesError,
    > {
        let reference = match input.u32le() {
            Ok(v) => v,
            Err(e) => { return Err(e) },
        };
        let raw = match input.u32le() {
            Ok(v) => v,
            Err(e) => { return Err(e) },
        };
        let flags = WldSkeletonPieceTrackFlags { raw };
        let sleep = if flags.has_sleep() {
            match input.u32le() {
                Ok(v) => Some(v),
                Err(e) => { return Err(e) },
            }
        } else {
            None
        };
        Ok(WldSkeletonPieceTrack { name: settings.get_name(), reference, flags, sleep })
    }
}

/// The flag word of a track fragment.
#[derive(Clone, Copy, Debug, PartialEq, Eq, Structural)]
pub struct WldTrackFlags {
    pub raw: u32,
}

impl WldTrackFlags {
    pub open spec fn spec_has_sleep(self) -> bool {
        self.raw & 0x01 != 0
    }

    pub open spec fn spec_reverse(self) -> bool {
        self.raw & 0x02 != 0
    }

    pub open spec fn spec_interpolate(self) -> bool {
        self.raw & 0x04 != 0
    }

    pub fn has_sleep(&self) -> (r: bool)
        ensures
            r == self.spec_has_sleep(),
    {
        self.raw & 0x01 != 0
    }

    pub fn reverse(&self) -> (r: bool)
        ensures
            r == self.spec_reverse(),
    {
        self.raw & 0x02 != 0
    }

    pub fn interpolate(&self) -> (r: bool)
        ensures
            r == self.spec_interpolate(),
    {
        self.raw & 0x04 != 0
    }
}

/// An animation track under its legacy name.
#[derive(Clone, Debug)]
pub struct WldTrack {
    pub name: Option<String>,
    pub reference: u32,
    pub flags: WldTrackFlags,
    pub sleep: Option<u32>,
}

pub struct WldTrackView {
    pub name: Option<Seq<char>>,
    pub reference: u32,
    pub flags: WldTrackFlags,
    pub sleep: Option<u32>,
}

impl View for WldTrack {
    type V = WldTrackView;

    open spec fn view(&self) -> WldTrackView {
        WldTrackView {
            name: opt_string_view(self.name),
            reference: self.reference,
            flags: self.flags,
            sleep: self.sleep,
        }
    }
}

impl WldFragment for WldTrack {
    open spec fn spec_type_tag() -> u32 {
        19
    }

    open spec fn spec_decode(s: Seq<u8>, p: int, ctx: SettingsView) -> Result<
        (WldTrackView, int),
        EQFilesError,
    > {
        if p + 8 > s.len() {
            Err(EQFilesError::UnknownError)
        } else {
            let reference = le32_at(s, p);
            let flags = WldTrackFlags { raw: le32_at(s, p + 4) };
            if flags.spec_has_sleep() {
                if p + 12 > s.len() {
                    Err(EQFilesError::UnknownError)
                } else {
                    Ok(
                        (
                            WldTrackView {
                                name: ctx.name,
                                reference,
                                flags,
                                sleep: Some(le32_at(s, p + 8)),
                            },
                            p + 12,
                        ),
                    )
                }
            } else {
                Ok((WldTrackView { name: ctx.name, reference, flags, sleep: None }, p + 8))
            }
        }
    }

    fn type_tag() -> u32 {
        19
    }

    fn new(input: &mut ByteCursor, settings: &Settings) -> Result<WldTrack, EQFilesError> {
        let reference = match input.u32le() {
            Ok(v) => v,
            Err(e) => { return Err(e) },
        };
        let raw = match input.u32le() {
            Ok(v) => v,
            Err(e) => { return Err(e) },
        };
        let flags = WldTrackFlags { raw };
        let sleep = if flags.has_sleep() {
            match input.u32le() {
                Ok(v) => Some(v),
                Err(e) => { return Err(e) },
            }
        } else {
            None
        };
        Ok(WldTrack { name: settings.get_name(), reference, flags, sleep })
    }
}

/// The flag word of a texture bitmap-info reference.
#[derive(Clone, Copy, Debug, PartialEq, Eq, Structural)]
pub struct WldTextureBitmapInfoRefFlags {
    pub raw: u32,
}

impl WldTextureBitmapInfoRefFlags {
    pub open spec fn spec_unknown1(self) -> bool {
        self.raw & 0x100000 != 0
    }

    pub open spec fn spec_unknown2(self) -> bool {
        self.raw & 0x400000 != 0
    }

    pub fn unknown1(&self) -> (r: bool)
        ensures
            r == self.spec_unknown1(),
    {
        self.raw & 0x100000 != 0
    }

    pub fn unknown2(&self) -> (r: bool)
        ensures
            r == self.spec_unknown2(),
    {
        self.raw & 0x400000 != 0
    }

    pub fn all(&self) -> (r: u32)
        ensures
            r == self.raw,
    {
        self.raw
    }
}

/// A reference to a texture bitmap-info fragment: a 16-bit fragment index
/// followed by a 32-bit flag word.
#[derive(Clone, Debug)]
pub struct WldTextureBitmapInfoRef {
    pub name: Option<String>,
    pub flags: WldTextureBitmapInfoRefFlags,
    pub texture_ref: u16,
}

pub struct WldTextureBitmapInfoRefView {
    pub name: Option<Seq<char>>,
    pub flags: WldTextureBitmapInfoRefFlags,
    pub texture_ref: u16,
}

impl View for WldTextureBitmapInfoRef {
    type V = WldTextureBitmapInfoRefView;

    open spec fn view(&self) -> WldTextureBitmapInfoRefView {
        WldTextureBitmapInfoRefView {
            name: opt_string_view(self.name),
            flags: self.flags,
            texture_ref: self.texture_ref,
        }
    }
}

impl WldFragment for WldTextureBitmapInfoRef {
    open spec fn spec_type_tag() -> u32 {
        5
    }

    open spec fn spec_decode(s: Seq<u8>, p: int, ctx: SettingsView) -> Result<
        (WldTextureBitmapInfoRefView, int),
        EQFilesError,
    > {
        if p + 6 > s.len() {
            Err(EQFilesError::UnknownError)
        } else {
            Ok(
                (
                    WldTextureBitmapInfoRefView {
                        name: ctx.name,
                        flags: WldTextureBitmapInfoRefFlags { raw: le32_at(s, p + 2) },
                        texture_ref: le16_at(s, p),
                    },
                    p + 6,
                ),
            )
        }
    }

    fn type_tag() -> u32 {
        5
    }

    fn new(input: &mut ByteCursor, settings: &Settings) -> Result<
        WldTextureBitmapInfoRef,
        EQFilesError,
    > {
        let texture_ref = match input.u16le() {
            Ok(v) => v,
            Err(e) => { return Err(e) },
        };
        let raw = match input.u32le() {
            Ok(v) => v,
            Err(e) => { return Err(e) },
        };
        Ok(
            WldTextureBitmapInfoRef {
                name: settings.get_name(),
                flags: WldTextureBitmapInfoRefFlags { raw },
                texture_ref,
            },
        )
    }
}

/// A texture reference with a plain flag word.
#[derive(Clone, Debug)]
pub struct WldTextureRef {
    pub name: Option<String>,
    pub flags: u32,
    pub texture_ref: u16,
}

pub struct WldTextureRefView {
    pub name: Option<Seq<char>>,
    pub flags: u32,
    pub texture_ref: u16,
}

impl View for WldTextureRef {
    type V = WldTextureRefView;

    open spec fn view(&self) -> WldTextureRefView {
        WldTextureRefView {
            name: opt_string_view(self.name),
            flags: self.flags,
            texture_ref: self.texture_ref,
        }
    }
}

impl WldFragment for WldTextureRef {
    open spec fn spec_type_tag() -> u32 {
        5
    }

    open spec fn spec_decode(s: Seq<u8>, p: int, ctx: SettingsView) -> Result<
        (WldTextureRefView, int),
        EQFilesError,
    > {
        if p + 6 > s.len() {
            Err(EQFilesError::UnknownError)
        } else {
            Ok(
                (
                    WldTextureRefView {
                        name: ctx.name,
                        flags: le32_at(s, p + 2),
                        texture_ref: le16_at(s, p),
                    },
                    p + 6,
                ),
            )
        }
    }

    fn type_tag() -> u32 {
        5
    }

    fn new(input: &mut ByteCursor, settings: &Settings) -> Result<WldTextureRef, EQFilesError> {
        let texture_ref = match input.u16le() {
            Ok(v) => v,
            Err(e) => { return Err(e) },
        };
        let flags = match input.u32le() {
            Ok(v) => v,
            Err(e) => { return Err(e) },
        };
        Ok(WldTextureRef { name: settings.get_name(), flags, texture_ref })
    }
}

/// A material list: a flag word, a count and that many material fragment
/// indices.
#[derive(Clone, Debug)]
pub struct WldMaterialList {
    pub name: Option<String>,
    pub flags: u32,
    pub material_refs: Vec<u32>,
}

pub struct WldMaterialListView {
    pub name: Option<Seq<char>>,
    pub flags: u32,
    pub material_refs: Seq<u32>,
}

impl View for WldMaterialList {
    type V = WldMaterialListView;

    open spec fn view(&self) -> WldMaterialListView {
        WldMaterialListView {
            name: opt_string_view(self.name),
            flags: self.flags,
            material_refs: self.material_refs@,
        }
    }
}

impl WldFragment for WldMaterialList {
    open spec fn spec_type_tag() -> u32 {
        49
    }

    open spec fn spec_decode(s: Seq<u8>, p: int, ctx: SettingsView) -> Result<
        (WldMaterialListView, int),
        EQFilesError,
    > {
        if p + 8 > s.len() {
            Err(EQFilesError::UnknownError)
        } else {
            let flags = le32_at(s, p);
            let count = le32_at(s, p + 4);
            if p + 8 + 4 * count > s.len() {
                Err(EQFilesError::UnknownError)
            } else {
                Ok(
                    (
                        WldMaterialListView {
                            name: ctx.name,
                            flags,
                            material_refs: spec_u32_list(s, p + 8, count as nat),
                        },
                        p + 8 + 4 * count,
                    ),
                )
            }
        }
    }

    fn type_tag() -> u32 {
        49
    }

    fn new(input: &mut ByteCursor, settings: &Settings) -> Result<WldMaterialList, EQFilesError> {
        let flags = match input.u32le() {
            Ok(v) => v,
            Err(e) => { return Err(e) },
        };
        let count = match input.u32le() {
            Ok(v) => v,
            Err(e) => { return Err(e) },
        };
        let material_refs = match read_u32_list(input, count) {
            Ok(v) => v,
            Err(e) => { return Err(e) },
        };
        Ok(WldMaterialList { name: settings.get_name(), flags, material_refs })
    }
}

/// A material list under its legacy name.
#[derive(Clone, Debug)]
pub struct WldTextureMaterialList {
    pub name: Option<String>,
    pub flags: u32,
    pub material_refs: Vec<u32>,
}

pub struct WldTextureMaterialListView {
    pub name: Option<Seq<char>>,
    pub flags: u32,
    pub material_refs: Seq<u32>,
}

impl View for WldTextureMaterialList {
    type V = WldTextureMaterialListView;

    open spec fn view(&self) -> WldTextureMaterialListView {
        WldTextureMaterialListView {
            name: opt_string_view(self.name),
            flags: self.flags,
            material_refs: self.material_refs@,
        }
    }
}

impl WldFragment for WldTextureMaterialList {
    open spec fn spec_type_tag() -> u32 {
        49
    }

    open spec fn spec_decode(s: Seq<u8>, p: int, ctx: SettingsView) -> Result<
        (WldTextureMaterialListView, int),
        EQFilesError,
    > {
        if p + 8 > s.len() {
            Err(EQFilesError::UnknownError)
        } else {
            let flags = le32_at(s, p);
            let count = le32_at(s, p + 4);
            if p + 8 + 4 * count > s.len() {
                Err(EQFilesError::UnknownError)
            } else {
                Ok(
                    (
                        WldTextureMaterialListView {
                            name: ctx.name,
                            flags,
                            material_refs: spec_u32_list(s, p + 8, count as nat),
                        },
                        p + 8 + 4 * count,
                    ),
                )
            }
        }
    }

    fn type_tag() -> u32 {
        49
    }

    fn new(input: &mut ByteCursor, settings: &Settings) -> Result<
        WldTextureMaterialList,
        EQFilesError,
    > {
        let flags = match input.u32le() {
            Ok(v) => v,
            Err(e) => { return Err(e) },
        };
        let count = match input.u32le() {
            Ok(v) => v,
            Err(e) => { return Err(e) },
        };
        let material_refs = match read_u32_list(input, count) {
            Ok(v) => v,
            Err(e) => { return Err(e) },
        };
        Ok(WldTextureMaterialList { name: settings.get_name(), flags, material_refs })
    }
}

/// A material: render settings, colour and brightness words, and a
/// reference to a texture bitmap-info fragment.  The top bit of the render
/// method is masked off in this revision; the two "pair" words gated by
/// flag bit 0 have no known meaning and are preserved verbatim.  The
/// brightness and scaled-ambient fields hold the raw 32-bit patterns of the
/// stored floating-point values.
#[derive(Clone, Debug)]
pub struct WldMaterial {
    pub name: Option<String>,
    pub flags: u32,
    pub render_method: u32,
    pub rgb_pen: u32,
    pub brightness_bits: u32,
    pub scaled_ambient_bits: u32,
    pub texture_list_ref: u32,
    pub pairs: Option<(u32, u32)>,
}

pub struct WldMaterialView {
    pub name: Option<Seq<char>>,
    pub flags: u32,
    pub render_method: u32,
    pub rgb_pen: u32,
    pub brightness_bits: u32,
    pub scaled_ambient_bits: u32,
    pub texture_list_ref: u32,
    pub pairs: Option<(u32, u32)>,
}

impl View for WldMaterial {
    type V = WldMaterialView;

    open spec fn view(&self) -> WldMaterialView {
        WldMaterialView {
            name: opt_string_view(self.name),
            flags: self.flags,
            render_method: self.render_method,
            rgb_pen: self.rgb_pen,
            brightness_bits: self.brightness_bits,
            scaled_ambient_bits: self.scaled_ambient_bits,
            texture_list_ref: self.texture_list_ref,
            pairs: self.pairs,
        }
    }
}

impl WldFragment for WldMaterial {
    open spec fn spec_type_tag() -> u32 {
        48
    }

    open spec fn spec_decode(s: Seq<u8>, p: int, ctx: SettingsView) -> Result<
        (WldMaterialView, int),
        EQFilesError,
    > {
        if p + 24 > s.len() {
            Err(EQFilesError::UnknownError)
        } else {
            let flags = le32_at(s, p);
            let v = WldMaterialView {
                name: ctx.name,
                flags,
                render_method: le32_at(s, p + 4) & 0x7FFF_FFFF,
                rgb_pen: le32_at(s, p + 8),
                brightness_bits: le32_at(s, p + 12),
                scaled_ambient_bits: le32_at(s, p + 16),
                texture_list_ref: le32_at(s, p + 20),
                pairs: None,
            };
            if flags & 0x01 != 0 {
                if p + 32 > s.len() {
                    Err(EQFilesError::UnknownError)
                } else {
                    Ok(
                        (
                            WldMaterialView {
                                pairs: Some((le32_at(s, p + 24), le32_at(s, p + 28))),
                                ..v
                            },
                            p + 32,
                        ),
                    )
                }
            } else {
                Ok((v, p + 24))
            }
        }
    }

    fn type_tag() -> u32 {
        48
    }

    fn new(input: &mut ByteCursor, settings: &Settings) -> Result<WldMaterial, EQFilesError> {
        let flags = match input.u32le() {
            Ok(v) => v,
            Err(e) => { return Err(e) },
        };
        let render_method_raw = match input.u32le() {
            Ok(v) => v,
            Err(e) => { return Err(e) },
        };
        let rgb_pen = match input.u32le() {
            Ok(v) => v,
            Err(e) => { return Err(e) },
        };
        let brightness_bits = match input.u32le() {
            Ok(v) => v,
            Err(e) => { return Err(e) },
        };
        let scaled_ambient_bits = match input.u32le() {
            Ok(v) => v,
            Err(e) => { return Err(e) },
        };
        let texture_list_ref = match input.u32le() {
            Ok(v) => v,
            Err(e) => { return Err(e) },
        };
        let pairs = if flags & 0x01 != 0 {
            let a = match input.u32le() {
                Ok(v) => v,
                Err(e) => { return Err(e) },
            };
            let b = match input.u32le() {
                Ok(v) => v,
                Err(e) => { return Err(e) },
            };
            Some((a, b))
        } else {
            None
        };
        Ok(
            WldMaterial {
                name: settings.get_name(),
                flags,
                render_method: render_method_raw & 0x7FFF_FFFF,
                rgb_pen,
                brightness_bits,
                scaled_ambient_bits,
                texture_list_ref,
                pairs,
            },
        )
    }
}

/// A material in the legacy revision: the render method is kept verbatim,
/// top bit included.
#[derive(Clone, Debug)]
pub struct WldTexture {
    pub name: Option<String>,
    pub flags: u32,
    pub render_method: u32,
    pub rgb_pen: u32,
    pub brightness_bits: u32,
    pub scaled_ambient_bits: u32,
    pub texture_list_ref: u32,
    pub pairs: Option<(u32, u32)>,
}

pub struct WldTextureView {
    pub name: Option<Seq<char>>,
    pub flags: u32,
    pub render_method: u32,
    pub rgb_pen: u32,
    pub brightness_bits: u32,
    pub scaled_ambient_bits: u32,
    pub texture_list_ref: u32,
    pub pairs: Option<(u32, u32)>,
}

impl View for WldTexture {
    type V = WldTextureView;

    open spec fn view(&self) -> WldTextureView {
        WldTextureView {
            name: opt_string_view(self.name),
            flags: self.flags,
            render_method: self.render_method,
            rgb_pen: self.rgb_pen,
            brightness_bits: self.brightness_bits,
            scaled_ambient_bits: self.scaled_ambient_bits,
            texture_list_ref: self.texture_list_ref,
            pairs: self.pairs,
        }
    }
}

impl WldFragment for WldTexture {
    open spec fn spec_type_tag() -> u32 {
        48
    }

    open spec fn spec_decode(s: Seq<u8>, p: int, ctx: SettingsView) -> Result<
        (WldTextureView, int),
        EQFilesError,
    > {
        if p + 24 > s.len() {
            Err(EQFilesError::UnknownError)
        } else {
            let flags = le32_at(s, p);
            let v = WldTextureView {
                name: ctx.name,
                flags,
                render_method: le32_at(s, p + 4),
                rgb_pen: le32_at(s, p + 8),
                brightness_bits: le32_at(s, p + 12),
                scaled_ambient_bits: le32_at(s, p + 16),
                texture_list_ref: le32_at(s, p + 20),
                pairs: None,
            };
            if flags & 0x01 != 0 {
                if p + 32 > s.len() {
                    Err(EQFilesError::UnknownError)
                } else {
                    Ok(
                        (
                            WldTextureView {
                                pairs: Some((le32_at(s, p + 24), le32_at(s, p + 28))),
                                ..v
                            },
                            p + 32,
                        ),
                    )
                }
            } else {
                Ok((v, p + 24))
            }
        }
    }

    fn type_tag() -> u32 {
        48
    }

    fn new(input: &mut ByteCursor, settings: &Settings) -> Result<WldTexture, EQFilesError> {
        let flags = match input.u32le() {
            Ok(v) => v,
            Err(e) => { return Err(e) },
        };
        let render_method = match input.u32le() {
            Ok(v) => v,
            Err(e) => { return Err(e) },
        };
        let rgb_pen = match input.u32le() {
            Ok(v) => v,
            Err(e) => { return Err(e) },
        };
        let brightness_bits = match input.u32le() {
            Ok(v) => v,
            Err(e) => { return Err(e) },
        };
        let scaled_ambient_bits = match input.u32le() {
            Ok(v) => v,
            Err(e) => { return Err(e) },
        };
        let texture_list_ref = match input.u32le() {
            Ok(v) => v,
            Err(e) => { return Err(e) },
        };
        let pairs = if flags & 0x01 != 0 {
            let a = match input.u32le() {
                Ok(v) => v,
                Err(e) => { return Err(e) },
            };
            let b = match input.u32le() {
                Ok(v) => v,
                Err(e) => { return Err(e) },
            };
            Some((a, b))
        } else {
            None
        };
        Ok(
            WldTexture {
                name: settings.get_name(),
                flags,
                render_method,
                rgb_pen,
                brightness_bits,
                scaled_ambient_bits,
                texture_list_ref,
                pairs,
            },
        )
    }
}

/// The flag word of a texture bitmap-info fragment: only the animation bits
/// carry known meaning.
#[derive(Clone, Copy, Debug, PartialEq, Eq, Structural)]
pub struct WldTextureBitmapInfoFlags {
    pub raw: u32,
}

impl WldTextureBitmapInfoFlags {
    pub open spec fn spec_animated(self) -> bool {
        self.raw & 0x08 != 0
    }

    pub open spec fn spec_skip_frames(self) -> bool {
        self.raw & 0x20 != 0
    }

    pub fn animated(&self) -> (r: bool)
        ensures
            r == self.spec_animated(),
    {
        self.raw & 0x08 != 0
    }

    pub fn skip_frames(&self) -> (r: bool)
        ensures
            r == self.spec_skip_frames(),
    {
        self.raw & 0x20 != 0
    }
}

/// Texture bitmap info: animation flags, a frame count, two conditional
/// animation fields and one filename-list reference per frame.
#[derive(Clone, Debug)]
pub struct WldTextureBitmapInfo {
    pub name: Option<String>,
    pub flags: WldTextureBitmapInfoFlags,
    pub sleep: u32,
    pub frame_count: u32,
    pub texture_current: u32,
    pub texture_list: Vec<u32>,
}

pub struct WldTextureBitmapInfoView {
    pub name: Option<Seq<char>>,
    pub flags: WldTextureBitmapInfoFlags,
    pub sleep: u32,
    pub frame_count: u32,
    pub texture_current: u32,
    pub texture_list: Seq<u32>,
}

impl View for WldTextureBitmapInfo {
    type V = WldTextureBitmapInfoView;

    open spec fn view(&self) -> WldTextureBitmapInfoView {
        WldTextureBitmapInfoView {
            name: opt_string_view(self.name),
            flags: self.flags,
            sleep: self.sleep,
            frame_count: self.frame_count,
            texture_current: self.texture_current,
            texture_list: self.texture_list@,
        }
    }
}

impl WldFragment for WldTextureBitmapInfo {
    open spec fn spec_type_tag() -> u32 {
        4
    }

    open spec fn spec_decode(s: Seq<u8>, p: int, ctx: SettingsView) -> Result<
        (WldTextureBitmapInfoView, int),
        EQFilesError,
    > {
        if p + 8 > s.len() {
            Err(EQFilesError::UnknownError)
        } else {
            let flags = WldTextureBitmapInfoFlags { raw: le32_at(s, p) };
            let frame_count = le32_at(s, p + 4);
            let has_current = flags.spec_animated() && flags.spec_skip_frames();
            if has_current && p + 12 > s.len() {
                Err(EQFilesError::UnknownError)
            } else {
                let texture_current = if has_current {
                    le32_at(s, p + 8)
                } else {
                    0
                };
                let p1 = if has_current {
                    p + 12
                } else {
                    p + 8
                };
                if flags.spec_animated() && p1 + 4 > s.len() {
                    Err(EQFilesError::UnknownError)
                } else {
                    let sleep = if flags.spec_animated() {
                        le32_at(s, p1)
                    } else {
                        0
                    };
                    let p2 = if flags.spec_animated() {
                        p1 + 4
                    } else {
                        p1
                    };
                    if p2 + 4 * frame_count > s.len() {
                        Err(EQFilesError::UnknownError)
                    } else {
                        Ok(
                            (
                                WldTextureBitmapInfoView {
                                    name: ctx.name,
                                    flags,
                                    sleep,
                                    frame_count,
                                    texture_current,
                                    texture_list: spec_u32_list(s, p2, frame_count as nat),
                                },
                                p2 + 4 * frame_count,
                            ),
                        )
                    }
                }
            }
        }
    }

    fn type_tag() -> u32 {
        4
    }

    fn new(input: &mut ByteCursor, settings: &Settings) -> Result<
        WldTextureBitmapInfo,
        EQFilesError,
    > {
        let raw = match input.u32le() {
            Ok(v) => v,
            Err(e) => { return Err(e) },
        };
        let flags = WldTextureBitmapInfoFlags { raw };
        let frame_count = match input.u32le() {
            Ok(v) => v,
            Err(e) => { return Err(e) },
        };
        let texture_current = if flags.animated() && flags.skip_frames() {
            match input.u32le() {
                Ok(v) => v,
                Err(e) => { return Err(e) },
            }
        } else {
            0
        };
        let sleep = if flags.animated() {
            match input.u32le() {
                Ok(v) => v,
                Err(e) => { return Err(e) },
            }
        } else {
            0
        };
        let texture_list = match read_u32_list(input, frame_count) {
            Ok(v) => v,
            Err(e) => { return Err(e) },
        };
        Ok(
            WldTextureBitmapInfo {
                name: settings.get_name(),
                flags,
                sleep,
                frame_count,
                texture_current,
                texture_list,
            },
        )
    }
}

/// Texture bitmap info in the legacy revision, with differently encoded
/// conditional fields and a signed frame count.
#[derive(Clone, Debug)]
pub struct WldTextureList {
    pub name: Option<String>,
    pub flags: u32,
    pub sleep: u32,
    pub texture_current: u32,
    pub texture_list: Vec<u32>,
}

pub struct WldTextureListView {
    pub name: Option<Seq<char>>,
    pub flags: u32,
    pub sleep: u32,
    pub texture_current: u32,
    pub texture_list: Seq<u32>,
}

impl View for WldTextureList {
    type V = WldTextureListView;

    open spec fn view(&self) -> WldTextureListView {
        WldTextureListView {
            name: opt_string_view(self.name),
            flags: self.flags,
            sleep: self.sleep,
            texture_current: self.texture_current,
            texture_list: self.texture_list@,
        }
    }
}

impl WldFragment for WldTextureList {
    open spec fn spec_type_tag() -> u32 {
        4
    }

    open spec fn spec_decode(s: Seq<u8>, p: int, ctx: SettingsView) -> Result<
        (WldTextureListView, int),
        EQFilesError,
    > {
        if p + 8 > s.len() {
            Err(EQFilesError::UnknownError)
        } else {
            let flags = le32_at(s, p);
            let texture_count = as_signed32(le32_at(s, p + 4));
            let n: nat = if texture_count < 0 {
                0
            } else {
                texture_count as nat
            };
            let has_current = flags & 0x20 == 0x20;
            if has_current && p + 12 > s.len() {
                Err(EQFilesError::UnknownError)
            } else {
                let texture_current = if has_current {
                    le32_at(s, p + 8)
                } else {
                    0
                };
                let p1 = if has_current {
                    p + 12
                } else {
                    p + 8
                };
                let has_sleep = flags & 0x10 != 0 && flags & 0x08 != 0;
                if has_sleep && p1 + 4 > s.len() {
                    Err(EQFilesError::UnknownError)
                } else {
                    let sleep = if has_sleep {
                        le32_at(s, p1)
                    } else {
                        0
                    };
                    let p2 = if has_sleep {
                        p1 + 4
                    } else {
                        p1
                    };
                    if p2 + 4 * n > s.len() {
                        Err(EQFilesError::UnknownError)
                    } else {
                        Ok(
                            (
                                WldTextureListView {
                                    name: ctx.name,
                                    flags,
                                    sleep,
                                    texture_current,
                                    texture_list: spec_u32_list(s, p2, n),
                                },
                                p2 + 4 * n,
                            ),
                        )
                    }
                }
            }
        }
    }

    fn type_tag() -> u32 {
        4
    }

    fn new(input: &mut ByteCursor, settings: &Settings) -> Result<WldTextureList, EQFilesError> {
        let flags = match input.u32le() {
            Ok(v) => v,
            Err(e) => { return Err(e) },
        };
        let texture_count = match input.i32le() {
            Ok(v) => v,
            Err(e) => { return Err(e) },
        };
        let n: u32 = if texture_count < 0 {
            0
        } else {
            texture_count as u32
        };
        let texture_current = if flags & 0x20 == 0x20 {
            match input.u32le() {
                Ok(v) => v,
                Err(e) => { return Err(e) },
            }
        } else {
            0
        };
        let sleep = if flags & 0x10 != 0 && flags & 0x08 != 0 {
            match input.u32le() {
                Ok(v) => v,
                Err(e) => { return Err(e) },
            }
        } else {
            0
        };
        let texture_list = match read_u32_list(input, n) {
            Ok(v) => v,
            Err(e) => { return Err(e) },
        };
        Ok(WldTextureList { name: settings.get_name(), flags, sleep, texture_current, texture_list })
    }
}

/// What reading `n` length-prefixed obfuscated strings back to back from
/// offset `p` yields: each string is a 16-bit length followed by that many
/// obfuscated bytes.
pub open spec fn spec_string_list(s: Seq<u8>, p: int, n: nat) -> Result<
    (Seq<Seq<char>>, int),
    EQFilesError,
>
    decreases n,
{
    if n == 0 {
        Ok((Seq::empty(), p))
    } else if p + 2 > s.len() {
        Err(EQFilesError::UnknownError)
    } else {
        let len = le16_at(s, p) as int;
        if p + 2 + len > s.len() {
            Err(EQFilesError::UnknownError)
        } else {
            match spec_decoded_string(s.subrange(p + 2, p + 2 + len)) {
                None => Err(EQFilesError::ErrorDecodingString),
                Some(cs) => match spec_string_list(s, p + 2 + len, (n - 1) as nat) {
                    Err(e) => Err(e),
                    Ok((rest, q)) => Ok((seq![cs] + rest, q)),
                },
            }
        }
    }
}

/// Reads `n` length-prefixed obfuscated strings.
#[verifier::loop_isolation(false)]
fn read_string_list(input: &mut ByteCursor, n: u32) -> (r: Result<Vec<String>, EQFilesError>)
    requires
        old(input).wf(),
    ensures
        final(input).wf(),
        final(input).bytes() == old(input).bytes(),
        match spec_string_list(old(input).bytes(), old(input).position(), n as nat) {
            Ok((cs, q)) => (r matches Ok(v) && string_views(v@) == cs) && final(input).position()
                == q,
            Err(e) => r == Err::<Vec<String>, EQFilesError>(e),
        },
{
    let ghost p0 = input.position();
    let mut v: Vec<String> = Vec::new();
    let mut i: u32 = 0;
    while i < n
        invariant
            input.wf(),
            input.bytes() == old(input).bytes(),
            0 <= i <= n,
            v@.len() == i as int,
            match spec_string_list(input.bytes(), input.position(), (n - i) as nat) {
                Ok((cs, q)) => spec_string_list(input.bytes(), p0, n as nat) == Ok::<
                    (Seq<Seq<char>>, int),
                    EQFilesError,
                >((string_views(v@) + cs, q)),
                Err(e) => spec_string_list(input.bytes(), p0, n as nat) == Err::<
                    (Seq<Seq<char>>, int),
                    EQFilesError,
                >(e),
            },
        decreases n - i,
    {
        let ghost pi = input.position();
        let len = match input.u16le() {
            Ok(x) => x,
            Err(e) => { return Err(e) },
        };
        let sname = match decode_string(input, len as usize) {
            Ok(s) => s,
            Err(e) => { return Err(e) },
        };
        let ghost prev_views = string_views(v@);
        v.push(sname);
        i = i + 1;
        proof {
            assert(string_views(v@) =~= prev_views.push(sname@));
            let rest = spec_string_list(input.bytes(), input.position(), (n - i) as nat);
            if rest is Ok {
                let (restcs, q) = rest->Ok_0;
                assert(prev_views.push(sname@) + restcs =~= prev_views + (seq![sname@] + restcs));
            }
        }
    }
    proof {
        assert(string_views(v@) + Seq::<Seq<char>>::empty() =~= string_views(v@));
    }
    Ok(v)
}

/// A texture filename list: an off-by-one count followed by that many
/// obfuscated filenames (the stored count is one less than the number of
/// strings, and a negative count means none).
#[derive(Clone, Debug)]
pub struct WldTextureBitmapName {
    pub name: Option<String>,
    pub textures: Vec<String>,
}

pub struct WldTextureBitmapNameView {
    pub name: Option<Seq<char>>,
    pub textures: Seq<Seq<char>>,
}

impl View for WldTextureBitmapName {
    type V = WldTextureBitmapNameView;

    open spec fn view(&self) -> WldTextureBitmapNameView {
        WldTextureBitmapNameView {
            name: opt_string_view(self.name),
            textures: string_views(self.textures@),
        }
    }
}

impl WldFragment for WldTextureBitmapName {
    open spec fn spec_type_tag() -> u32 {
        3
    }

    open spec fn spec_decode(s: Seq<u8>, p: int, ctx: SettingsView) -> Result<
        (WldTextureBitmapNameView, int),
        EQFilesError,
    > {
        if p + 4 > s.len() {
            Err(EQFilesError::UnknownError)
        } else {
            let cnt = as_signed32(le32_at(s, p));
            let n: nat = if cnt < 0 {
                0
            } else {
                (cnt + 1) as nat
            };
            match spec_string_list(s, p + 4, n) {
                Err(e) => Err(e),
                Ok((cs, q)) => Ok((WldTextureBitmapNameView { name: ctx.name, textures: cs }, q)),
            }
        }
    }

    fn type_tag() -> u32 {
        3
    }

    fn new(input: &mut ByteCursor, settings: &Settings) -> Result<
        WldTextureBitmapName,
        EQFilesError,
    > {
        let count = match input.i32le() {
            Ok(v) => v,
            Err(e) => { return Err(e) },
        };
        let n: u32 = if count < 0 {
            0
        } else {
            count as u32 + 1
        };
        let textures = match read_string_list(input, n) {
            Ok(v) => v,
            Err(e) => { return Err(e) },
        };
        Ok(WldTextureBitmapName { name: settings.get_name(), textures })
    }
}

/// A texture filename list under its oldest name.
#[derive(Clone, Debug)]
pub struct WldTextureBitmapFilename {
    pub name: Option<String>,
    pub textures: Vec<String>,
}

pub struct WldTextureBitmapFilenameView {
    pub name: Option<Seq<char>>,
    pub textures: Seq<Seq<char>>,
}

impl View for WldTextureBitmapFilename {
    type V = WldTextureBitmapFilenameView;

    open spec fn view(&self) -> WldTextureBitmapFilenameView {
        WldTextureBitmapFilenameView {
            name: opt_string_view(self.name),
            textures: string_views(self.textures@),
        }
    }
}

impl WldFragment for WldTextureBitmapFilename {
    open spec fn spec_type_tag() -> u32 {
        3
    }

    open spec fn spec_decode(s: Seq<u8>, p: int, ctx: SettingsView) -> Result<
        (WldTextureBitmapFilenameView, int),
        EQFilesError,
    > {
        if p + 4 > s.len() {
            Err(EQFilesError::UnknownError)
        } else {
            let cnt = as_signed32(le32_at(s, p));
            let n: nat = if cnt < 0 {
                0
            } else {
                (cnt + 1) as nat
            };
            match spec_string_list(s, p + 4, n) {
                Err(e) => Err(e),
                Ok((cs, q)) => Ok(
                    (WldTextureBitmapFilenameView { name: ctx.name, textures: cs }, q),
                ),
            }
        }
    }

    fn type_tag() -> u32 {
        3
    }

    fn new(input: &mut ByteCursor, settings: &Settings) -> Result<
        WldTextureBitmapFilename,
        EQFilesError,
    > {
        let count = match input.i32le() {
            Ok(v) => v,
            Err(e) => { return Err(e) },
        };
        let n: u32 = if count < 0 {
            0
        } else {
            count as u32 + 1
        };
        let textures = match read_string_list(input, n) {
            Ok(v) => v,
            Err(e) => { return Err(e) },
        };
        Ok(WldTextureBitmapFilename { name: settings.get_name(), textures })
    }
}

/// A material under its oldest name: the render method kept verbatim and
/// the texture reference called a bitmap reference.
#[derive(Clone, Debug)]
pub struct WldTextureMaterial {
    pub name: Option<String>,
    pub flags: u32,
    pub render_method: u32,
    pub rgb_pen: u32,
    pub brightness_bits: u32,
    pub scaled_ambient_bits: u32,
    pub bitmap_ref: u32,
    pub pairs: Option<(u32, u32)>,
}

pub struct WldTextureMaterialView {
    pub name: Option<Seq<char>>,
    pub flags: u32,
    pub render_method: u32,
    pub rgb_pen: u32,
    pub brightness_bits: u32,
    pub scaled_ambient_bits: u32,
    pub bitmap_ref: u32,
    pub pairs: Option<(u32, u32)>,
}

impl View for WldTextureMaterial {
    type V = WldTextureMaterialView;

    open spec fn view(&self) -> WldTextureMaterialView {
        WldTextureMaterialView {
            name: opt_string_view(self.name),
            flags: self.flags,
            render_method: self.render_method,
            rgb_pen: self.rgb_pen,
            brightness_bits: self.brightness_bits,
            scaled_ambient_bits: self.scaled_ambient_bits,
            bitmap_ref: self.bitmap_ref,
            pairs: self.pairs,
        }
    }
}

impl WldFragment for WldTextureMaterial {
    open spec fn spec_type_tag() -> u32 {
        48
    }

    open spec fn spec_decode(s: Seq<u8>, p: int, ctx: SettingsView) -> Result<
        (WldTextureMaterialView, int),
        EQFilesError,
    > {
        if p + 24 > s.len() {
            Err(EQFilesError::UnknownError)
        } else {
            let flags = le32_at(s, p);
            let v = WldTextureMaterialView {
                name: ctx.name,
                flags,
                render_method: le32_at(s, p + 4),
                rgb_pen: le32_at(s, p + 8),
                brightness_bits: le32_at(s, p + 12),
                scaled_ambient_bits: le32_at(s, p + 16),
                bitmap_ref: le32_at(s, p + 20),
                pairs: None,
            };
            if flags & 0x01 != 0 {
                if p + 32 > s.len() {
                    Err(EQFilesError::UnknownError)
                } else {
                    Ok(
                        (
                            WldTextureMaterialView {
                                pairs: Some((le32_at(s, p + 24), le32_at(s, p + 28))),
                                ..v
                            },
                            p + 32,
                        ),
                    )
                }
            } else {
                Ok((v, p + 24))
            }
        }
    }

    fn type_tag() -> u32 {
        48
    }

    fn new(input: &mut ByteCursor, settings: &Settings) -> Result<
        WldTextureMaterial,
        EQFilesError,
    > {
        let flags = match input.u32le() {
            Ok(v) => v,
            Err(e) => { return Err(e) },
        };
        let render_method = match input.u32le() {
            Ok(v) => v,
            Err(e) => { return Err(e) },
        };
        let rgb_pen = match input.u32le() {
            Ok(v) => v,
            Err(e) => { return Err(e) },
        };
        let brightness_bits = match input.u32le() {
            Ok(v) => v,
            Err(e) => { return Err(e) },
        };
        let scaled_ambient_bits = match input.u32le() {
            Ok(v) => v,
            Err(e) => { return Err(e) },
        };
        let bitmap_ref = match input.u32le() {
            Ok(v) => v,
            Err(e) => { return Err(e) },
        };
        let pairs = if flags & 0x01 != 0 {
            let a = match input.u32le() {
                Ok(v) => v,
                Err(e) => { return Err(e) },
            };
            let b = match input.u32le() {
                Ok(v) => v,
                Err(e) => { return Err(e) },
            };
            Some((a, b))
        } else {
            None
        };
        Ok(
            WldTextureMaterial {
                name: settings.get_name(),
                flags,
                render_method,
                rgb_pen,
                brightness_bits,
                scaled_ambient_bits,
                bitmap_ref,
                pairs,
            },
        )
    }
}

/// A texture filename list under its legacy name.
#[derive(Clone, Debug)]
pub struct WldTextureFilename {
    pub name: Option<String>,
    pub textures: Vec<String>,
}

pub struct WldTextureFilenameView {
    pub name: Option<Seq<char>>,
    pub textures: Seq<Seq<char>>,
}

impl View for WldTextureFilename {
    type V = WldTextureFilenameView;

    open spec fn view(&self) -> WldTextureFilenameView {
        WldTextureFilenameView {
            name: opt_string_view(self.name),
            textures: string_views(self.textures@),
        }
    }
}

impl WldFragment for WldTextureFilename {
    open spec fn spec_type_tag() -> u32 {
        3
    }

    open spec fn spec_decode(s: Seq<u8>, p: int, ctx: SettingsView) -> Result<
        (WldTextureFilenameView, int),
        EQFilesError,
    > {
        if p + 4 > s.len() {
            Err(EQFilesError::UnknownError)
        } else {
            let cnt = as_signed32(le32_at(s, p));
            let n: nat = if cnt < 0 {
                0
            } else {
                (cnt + 1) as nat
            };
            match spec_string_list(s, p + 4, n) {
                Err(e) => Err(e),
                Ok((cs, q)) => Ok((WldTextureFilenameView { name: ctx.name, textures: cs }, q)),
            }
        }
    }

    fn type_tag() -> u32 {
        3
    }

    fn new(input: &mut ByteCursor, settings: &Settings) -> Result<WldTextureFilename, EQFilesError> {
        let count = match input.i32le() {
            Ok(v) => v,
            Err(e) => { return Err(e) },
        };
        let n: u32 = if count < 0 {
            0
        } else {
            count as u32 + 1
        };
        let textures = match read_string_list(input, n) {
            Ok(v) => v,
            Err(e) => { return Err(e) },
        };
        Ok(WldTextureFilename { name: settings.get_name(), textures })
    }
}

} // verus!
