//! Model ("actor definition") fragments: callbacks, level-of-detail
//! actions and a trailing fragment reference list.

use vstd::prelude::*;

use crate::cursor::{as_signed32, le32_at, ByteCursor};
use crate::fragments::{read_u32_list, spec_u32_list, Settings, SettingsView, WldFragment};
use crate::strings::opt_string_view;
use crate::wld::spec_opt_name;
use crate::EQFilesError;

verus! {

/// One level-of-detail action: its distance thresholds are kept as the raw
/// 32-bit patterns of the stored floats.
#[derive(Clone, Debug)]
pub struct WldModelAction {
    pub lod_count: u32,
    pub unk1: u32,
    pub lod_bits: Vec<u32>,
}

pub struct WldModelActionView {
    pub lod_count: u32,
    pub unk1: u32,
    pub lod_bits: Seq<u32>,
}

impl View for WldModelAction {
    type V = WldModelActionView;

    open spec fn view(&self) -> WldModelActionView {
        WldModelActionView {
            lod_count: self.lod_count,
            unk1: self.unk1,
            lod_bits: self.lod_bits@,
        }
    }
}

/// What reading `n` consecutive actions from offset `p` yields.
pub open spec fn spec_actions_decode(s: Seq<u8>, p: int, n: nat) -> Result<
    (Seq<WldModelActionView>, int),
    EQFilesError,
>
    decreases n,
{
    if n == 0 {
        Ok((Seq::empty(), p))
    } else if p + 8 > s.len() {
        Err(EQFilesError::UnknownError)
    } else {
        let lod_count = le32_at(s, p);
        let unk1 = le32_at(s, p + 4);
        if p + 8 + 4 * lod_count > s.len() {
            Err(EQFilesError::UnknownError)
        } else {
            match spec_actions_decode(s, p + 8 + 4 * lod_count, (n - 1) as nat) {
                Err(e) => Err(e),
                Ok((rest, q)) => Ok(
                    (
                        seq![
                            WldModelActionView {
                                lod_count,
                                unk1,
                                lod_bits: spec_u32_list(s, p + 8, lod_count as nat),
                            },
                        ] + rest,
                        q,
                    ),
                ),
            }
        }
    }
}

#[verifier::loop_isolation(false)]
fn read_actions(input: &mut ByteCursor, n: u32) -> (r: Result<Vec<WldModelAction>, EQFilesError>)
    requires
        old(input).wf(),
    ensures
        final(input).wf(),
        final(input).bytes() == old(input).bytes(),
        match spec_actions_decode(old(input).bytes(), old(input).position(), n as nat) {
            Ok((vs, q)) => (match r {
                Ok(v) => v@.map_values(|a: WldModelAction| a@) == vs && final(input).position()
                    == q,
                Err(_) => false,
            }),
            Err(e) => r == Err::<Vec<WldModelAction>, EQFilesError>(e),
        },
{
    let mut v: Vec<WldModelAction> = Vec::new();
    let ghost p0 = input.position();
    let mut i: u32 = 0;
    while i < n
        invariant
            input.wf(),
            input.bytes() == old(input).bytes(),
            0 <= i <= n,
            match spec_actions_decode(input.bytes(), input.position(), (n - i) as nat) {
                Ok((vs, q)) => spec_actions_decode(input.bytes(), p0, n as nat) == Ok::<
                    (Seq<WldModelActionView>, int),
                    EQFilesError,
                >((v@.map_values(|a: WldModelAction| a@) + vs, q)),
                Err(e) => spec_actions_decode(input.bytes(), p0, n as nat) == Err::<
                    (Seq<WldModelActionView>, int),
                    EQFilesError,
                >(e),
            },
        decreases n - i,
    {
        let lod_count = match input.u32le() {
            Ok(x) => x,
            Err(e) => { return Err(e) },
        };
        let unk1 = match input.u32le() {
            Ok(x) => x,
            Err(e) => { return Err(e) },
        };
        let lod_bits = match read_u32_list(input, lod_count) {
            Ok(x) => x,
            Err(e) => { return Err(e) },
        };
        let a = WldModelAction { lod_count, unk1, lod_bits };
        proof {
            let rest = spec_actions_decode(input.bytes(), input.position(), (n - i - 1) as nat);
            if rest is Ok {
                assert(v@.push(a).map_values(|x: WldModelAction| x@) + rest->Ok_0.0
                    =~= v@.map_values(|x: WldModelAction| x@) + (seq![a@] + rest->Ok_0.0));
            }
        }
        v.push(a);
        i = i + 1;
    }
    proof {
        assert(v@.map_values(|a: WldModelAction| a@) + Seq::<WldModelActionView>::empty()
            =~= v@.map_values(|a: WldModelAction| a@));
    }
    Ok(v)
}

/// A model: its callback name is resolved by following an embedded name
/// reference, not the fragment's own name.  The conditional placement
/// triple keeps the six stored floats as raw 32-bit patterns.
#[derive(Clone, Debug)]
pub struct WldModel {
    pub name_ref: i32,
    pub name: Option<String>,
    pub flags: u32,
    pub callback_name_ref: i32,
    pub callback_name: Option<String>,
    pub action_count: u32,
    pub fragment_count: u32,
    pub bounds_ref: u32,
    pub current_action: Option<u32>,
    pub offset_rotation: Option<((u32, u32, u32), (u32, u32, u32), u32)>,
    pub actions: Vec<WldModelAction>,
    pub fragments: Vec<u32>,
    pub some_other_count: u32,
}

pub struct WldModelView {
    pub name_ref: i32,
    pub name: Option<Seq<char>>,
    pub flags: u32,
    pub callback_name_ref: i32,
    pub callback_name: Option<Seq<char>>,
    pub action_count: u32,
    pub fragment_count: u32,
    pub bounds_ref: u32,
    pub current_action: Option<u32>,
    pub offset_rotation: Option<((u32, u32, u32), (u32, u32, u32), u32)>,
    pub actions: Seq<WldModelActionView>,
    pub fragments: Seq<u32>,
    pub some_other_count: u32,
}

impl View for WldModel {
    type V = WldModelView;

    open spec fn view(&self) -> WldModelView {
        WldModelView {
            name_ref: self.name_ref,
            name: opt_string_view(self.name),
            flags: self.flags,
            callback_name_ref: self.callback_name_ref,
            callback_name: opt_string_view(self.callback_name),
            action_count: self.action_count,
            fragment_count: self.fragment_count,
            bounds_ref: self.bounds_ref,
            current_action: self.current_action,
            offset_rotation: self.offset_rotation,
            actions: self.actions@.map_values(|a: WldModelAction| a@),
            fragments: self.fragments@,
            some_other_count: self.some_other_count,
        }
    }
}

impl WldFragment for WldModel {
    open spec fn spec_type_tag() -> u32 {
        20
    }

    open spec fn spec_decode(s: Seq<u8>, p: int, ctx: SettingsView) -> Result<
        (WldModelView, int),
        EQFilesError,
    > {
        if p + 20 > s.len() {
            Err(EQFilesError::UnknownError)
        } else {
            let flags = le32_at(s, p);
            let callback_name_ref = as_signed32(le32_at(s, p + 4));
            let action_count = le32_at(s, p + 8);
            let fragment_count = le32_at(s, p + 12);
            let bounds_ref = le32_at(s, p + 16);
            let p1 = p + 20;
            if flags & 1 != 0 && p1 + 4 > s.len() {
                Err(EQFilesError::UnknownError)
            } else {
                let current_action = if flags & 1 != 0 {
                    Some(le32_at(s, p1))
                } else {
                    None
                };
                let p2 = if flags & 1 != 0 {
                    p1 + 4
                } else {
                    p1
                };
                if flags & 2 != 0 && p2 + 28 > s.len() {
                    Err(EQFilesError::UnknownError)
                } else {
                    let offset_rotation = if flags & 2 != 0 {
                        Some(
                            (
                                (le32_at(s, p2), le32_at(s, p2 + 4), le32_at(s, p2 + 8)),
                                (le32_at(s, p2 + 12), le32_at(s, p2 + 16), le32_at(s, p2 + 20)),
                                le32_at(s, p2 + 24),
                            ),
                        )
                    } else {
                        None
                    };
                    let p3 = if flags & 2 != 0 {
                        p2 + 28
                    } else {
                        p2
                    };
                    match spec_actions_decode(s, p3, action_count as nat) {
                        Err(e) => Err(e),
                        Ok((actions, p4)) => {
                            if p4 + 4 * fragment_count > s.len() {
                                Err(EQFilesError::UnknownError)
                            } else {
                                let p5 = p4 + 4 * fragment_count;
                                if p5 + 4 > s.len() {
                                    Err(EQFilesError::UnknownError)
                                } else {
                                    Ok(
                                        (
                                            WldModelView {
                                                name_ref: ctx.name_ref,
                                                name: ctx.name,
                                                flags,
                                                callback_name_ref,
                                                callback_name: spec_opt_name(
                                                    ctx.names,
                                                    callback_name_ref,
                                                ),
                                                action_count,
                                                fragment_count,
                                                bounds_ref,
                                                current_action,
                                                offset_rotation,
                                                actions,
                                                fragments: spec_u32_list(
                                                    s,
                                                    p4,
                                                    fragment_count as nat,
                                                ),
                                                some_other_count: le32_at(s, p5),
                                            },
                                            p5 + 4,
                                        ),
                                    )
                                }
                            }
                        },
                    }
                }
            }
        }
    }

    fn type_tag() -> u32 {
        20
    }

    fn new(input: &mut ByteCursor, settings: &Settings) -> Result<WldModel, EQFilesError> {
        let flags = match input.u32le() {
            Ok(v) => v,
            Err(e) => { return Err(e) },
        };
        let callback_name_ref = match input.i32le() {
            Ok(v) => v,
            Err(e) => { return Err(e) },
        };
        let callback_name = settings.get_from_name_ref(callback_name_ref);
        let action_count = match input.u32le() {
            Ok(v) => v,
            Err(e) => { return Err(e) },
        };
        let fragment_count = match input.u32le() {
            Ok(v) => v,
            Err(e) => { return Err(e) },
        };
        let bounds_ref = match input.u32le() {
            Ok(v) => v,
            Err(e) => { return Err(e) },
        };
        let current_action = if flags & 1 != 0 {
            match input.u32le() {
                Ok(v) => Some(v),
                Err(e) => { return Err(e) },
            }
        } else {
            None
        };
        let offset_rotation = if flags & 2 != 0 {
            let ox = match input.u32le() {
                Ok(v) => v,
                Err(e) => { return Err(e) },
            };
            let oy = match input.u32le() {
                Ok(v) => v,
                Err(e) => { return Err(e) },
            };
            let oz = match input.u32le() {
                Ok(v) => v,
                Err(e) => { return Err(e) },
            };
            let rx = match input.u32le() {
                Ok(v) => v,
                Err(e) => { return Err(e) },
            };
            let ry = match input.u32le() {
                Ok(v) => v,
                Err(e) => { return Err(e) },
            };
            let rz = match input.u32le() {
                Ok(v) => v,
                Err(e) => { return Err(e) },
            };
            let unk = match input.u32le() {
                Ok(v) => v,
                Err(e) => { return Err(e) },
            };
            Some(((ox, oy, oz), (rx, ry, rz), unk))
        } else {
            None
        };
        let actions = match read_actions(input, action_count) {
            Ok(v) => v,
            Err(e) => { return Err(e) },
        };
        let fragments = match read_u32_list(input, fragment_count) {
            Ok(v) => v,
            Err(e) => { return Err(e) },
        };
        let some_other_count = match input.u32le() {
            Ok(v) => v,
            Err(e) => { return Err(e) },
        };
        Ok(
            WldModel {
                name_ref: settings.get_name_ref(),
                name: settings.get_name(),
                flags,
                callback_name_ref,
                callback_name,
                action_count,
                fragment_count,
                bounds_ref,
                current_action,
                offset_rotation,
                actions,
                fragments,
                some_other_count,
            },
        )
    }
}

} // verus!
