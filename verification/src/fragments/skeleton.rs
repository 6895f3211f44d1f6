//! Skeleton track sets: a flat array of DAG nodes linked into a tree by
//! child index lists, with a parent back-fill pass after decoding.

use vstd::prelude::*;

use crate::cursor::{as_signed32, le32_at, ByteCursor};
use crate::fragments::{read_u32_list, spec_u32_list, Settings, SettingsView, WldFragment};
use crate::strings::opt_string_view;
use crate::wld::spec_opt_name;
use crate::EQFilesError;

verus! {

/// The flag word of a skeleton track set.
#[derive(Clone, Copy, Debug, PartialEq, Eq, Structural)]
pub struct WldSkeletonFlags {
    pub raw: u32,
}

impl WldSkeletonFlags {
    pub open spec fn spec_has_center_offset(self) -> bool {
        self.raw & 0x01 != 0
    }

    pub open spec fn spec_has_bounding_radius(self) -> bool {
        self.raw & 0x02 != 0
    }

    pub open spec fn spec_has_mesh_references(self) -> bool {
        self.raw & 0x200 != 0
    }

    pub fn has_center_offset(&self) -> (r: bool)
        ensures
            r == self.spec_has_center_offset(),
    {
        self.raw & 0x01 != 0
    }

    pub fn has_bounding_radius(&self) -> (r: bool)
        ensures
            r == self.spec_has_bounding_radius(),
    {
        self.raw & 0x02 != 0
    }

    pub fn has_mesh_references(&self) -> (r: bool)
        ensures
            r == self.spec_has_mesh_references(),
    {
        self.raw & 0x200 != 0
    }
}

/// One DAG node: its name is resolved through a name reference embedded in
/// the node itself, not the fragment's own header reference.
#[derive(Clone, Debug)]
pub struct WldSkeletonDag {
    pub name: Option<String>,
    pub flags: u32,
    pub track_ref: u32,
    pub mesh_or_sprite_ref: u32,
    pub num_sub_dags: u32,
    pub sub_dags: Vec<u32>,
    pub parent: Option<u32>,
}

pub struct WldSkeletonDagView {
    pub name: Option<Seq<char>>,
    pub flags: u32,
    pub track_ref: u32,
    pub mesh_or_sprite_ref: u32,
    pub num_sub_dags: u32,
    pub sub_dags: Seq<u32>,
    pub parent: Option<u32>,
}

impl View for WldSkeletonDag {
    type V = WldSkeletonDagView;

    open spec fn view(&self) -> WldSkeletonDagView {
        WldSkeletonDagView {
            name: opt_string_view(self.name),
            flags: self.flags,
            track_ref: self.track_ref,
            mesh_or_sprite_ref: self.mesh_or_sprite_ref,
            num_sub_dags: self.num_sub_dags,
            sub_dags: self.sub_dags@,
            parent: self.parent,
        }
    }
}

/// What decoding one DAG node at offset `p` yields; its parent is not yet
/// assigned.
pub open spec fn spec_dag_decode(s: Seq<u8>, p: int, names: Seq<(u32, Seq<char>)>) -> Result<
    (WldSkeletonDagView, int),
    EQFilesError,
> {
    if p + 20 > s.len() {
        Err(EQFilesError::UnknownError)
    } else {
        let name_ref = as_signed32(le32_at(s, p));
        let num_sub_dags = le32_at(s, p + 16);
        if p + 20 + 4 * num_sub_dags > s.len() {
            Err(EQFilesError::UnknownError)
        } else {
            Ok(
                (
                    WldSkeletonDagView {
                        name: spec_opt_name(names, name_ref),
                        flags: le32_at(s, p + 4),
                        track_ref: le32_at(s, p + 8),
                        mesh_or_sprite_ref: le32_at(s, p + 12),
                        num_sub_dags,
                        sub_dags: spec_u32_list(s, p + 20, num_sub_dags as nat),
                        parent: None,
                    },
                    p + 20 + 4 * num_sub_dags,
                ),
            )
        }
    }
}

impl WldSkeletonDag {
    /// Decodes one DAG node.
    pub fn new(input: &mut ByteCursor, settings: &Settings) -> (r: Result<
        WldSkeletonDag,
        EQFilesError,
    >)
        requires
            old(input).wf(),
        ensures
            final(input).wf(),
            final(input).bytes() == old(input).bytes(),
            match spec_dag_decode(old(input).bytes(), old(input).position(), settings@.names) {
                Ok((v, q)) => (r matches Ok(x) && x@ == v) && final(input).position() == q,
                Err(e) => r == Err::<WldSkeletonDag, EQFilesError>(e),
            },
    {
        let name_ref = match input.i32le() {
            Ok(v) => v,
            Err(e) => { return Err(e) },
        };
        let name = settings.get_from_name_ref(name_ref);
        let flags = match input.u32le() {
            Ok(v) => v,
            Err(e) => { return Err(e) },
        };
        let track_ref = match input.u32le() {
            Ok(v) => v,
            Err(e) => { return Err(e) },
        };
        let mesh_or_sprite_ref = match input.u32le() {
            Ok(v) => v,
            Err(e) => { return Err(e) },
        };
        let num_sub_dags = match input.u32le() {
            Ok(v) => v,
            Err(e) => { return Err(e) },
        };
        let sub_dags = match read_u32_list(input, num_sub_dags) {
            Ok(v) => v,
            Err(e) => { return Err(e) },
        };
        Ok(
            WldSkeletonDag {
                name,
                flags,
                track_ref,
                mesh_or_sprite_ref,
                num_sub_dags,
                sub_dags,
                parent: None,
            },
        )
    }
}

/// What decoding `n` consecutive DAG nodes from offset `p` yields.
pub open spec fn spec_dags_decode(
    s: Seq<u8>,
    p: int,
    names: Seq<(u32, Seq<char>)>,
    n: nat,
) -> Result<(Seq<WldSkeletonDagView>, int), EQFilesError>
    decreases n,
{
    if n == 0 {
        Ok((Seq::empty(), p))
    } else {
        match spec_dag_decode(s, p, names) {
            Err(e) => Err(e),
            Ok((d, q)) => match spec_dags_decode(s, q, names, (n - 1) as nat) {
                Err(e) => Err(e),
                Ok((ds, qq)) => Ok((seq![d] + ds, qq)),
            },
        }
    }
}

/// The parent array after walking the child list `subs` of node `i` from
/// position `k` on: each in-range child index is assigned parent `i`.
pub open spec fn spec_apply_subs(
    parents: Seq<Option<u32>>,
    i: int,
    subs: Seq<u32>,
    k: int,
) -> Seq<Option<u32>>
    decreases subs.len() - k,
{
    if k < 0 || k >= subs.len() {
        parents
    } else {
        let next = if subs[k] < parents.len() {
            parents.update(subs[k] as int, Some(i as u32))
        } else {
            parents
        };
        spec_apply_subs(next, i, subs, k + 1)
    }
}

/// The parent array after walking the child lists of nodes `0 .. i`.
pub open spec fn spec_parents_upto(dags: Seq<WldSkeletonDagView>, i: int) -> Seq<Option<u32>>
    decreases i,
{
    if i <= 0 {
        Seq::new(dags.len(), |j: int| None)
    } else {
        spec_apply_subs(spec_parents_upto(dags, i - 1), i - 1, dags[i - 1].sub_dags, 0)
    }
}

/// The parent of each node after the whole back-fill pass.
pub open spec fn spec_dag_parents(dags: Seq<WldSkeletonDagView>) -> Seq<Option<u32>> {
    spec_parents_upto(dags, dags.len() as int)
}

/// The DAG nodes with their parents filled in.
pub open spec fn spec_backfilled(dags: Seq<WldSkeletonDagView>) -> Seq<WldSkeletonDagView> {
    Seq::new(
        dags.len(),
        |j: int| WldSkeletonDagView { parent: spec_dag_parents(dags)[j], ..dags[j] },
    )
}

/// The last node among `0 .. i` whose child list names `j`, if any.
pub open spec fn spec_last_listing(dags: Seq<WldSkeletonDagView>, i: int, j: int) -> Option<u32>
    decreases i,
{
    if i <= 0 {
        None
    } else if dags[i - 1].sub_dags.contains(j as u32) {
        Some((i - 1) as u32)
    } else {
        spec_last_listing(dags, i - 1, j)
    }
}

proof fn lemma_apply_subs_at(parents: Seq<Option<u32>>, i: int, subs: Seq<u32>, k: int, j: int)
    requires
        0 <= j < parents.len(),
        parents.len() <= u32::MAX,
        0 <= k <= subs.len(),
    ensures
        spec_apply_subs(parents, i, subs, k).len() == parents.len(),
        spec_apply_subs(parents, i, subs, k)[j] == if exists|t: int|
            k <= t < subs.len() && subs[t] == j as u32 {
            Some(i as u32)
        } else {
            parents[j]
        },
    decreases subs.len() - k,
{
    if k < subs.len() {
        let next = if subs[k] < parents.len() {
            parents.update(subs[k] as int, Some(i as u32))
        } else {
            parents
        };
        lemma_apply_subs_at(next, i, subs, k + 1, j);
        if subs[k] == j as u32 {
            assert(exists|t: int| k <= t < subs.len() && subs[t] == j as u32);
            if !(exists|t: int| k + 1 <= t < subs.len() && subs[t] == j as u32) {
                assert(next[j] == Some(i as u32));
            }
        } else {
            assert(next[j] == parents[j]);
            if exists|t: int| k <= t < subs.len() && subs[t] == j as u32 {
                let t = choose|t: int| k <= t < subs.len() && subs[t] == j as u32;
                assert(t >= k + 1);
                assert(exists|u: int| k + 1 <= u < subs.len() && subs[u] == j as u32);
            }
        }
    }
}

proof fn lemma_parents_upto_at(dags: Seq<WldSkeletonDagView>, i: int, j: int)
    requires
        0 <= j < dags.len(),
        0 <= i <= dags.len(),
        dags.len() <= u32::MAX,
    ensures
        spec_parents_upto(dags, i).len() == dags.len(),
        spec_parents_upto(dags, i)[j] == spec_last_listing(dags, i, j),
    decreases i,
{
    if i > 0 {
        lemma_parents_upto_at(dags, i - 1, j);
        let prev = spec_parents_upto(dags, i - 1);
        lemma_apply_subs_at(prev, i - 1, dags[i - 1].sub_dags, 0, j);
        assert(dags[i - 1].sub_dags.contains(j as u32) == exists|t: int|
            0 <= t < dags[i - 1].sub_dags.len() && #[trigger] dags[i - 1].sub_dags[t] == j as u32);
    }
}

/// The parent back-fill law: after the pass over every node's child list,
/// a node's parent is the last node whose child list names it, and a node
/// that no list names has no parent.
pub proof fn lemma_dag_parent_backfill(dags: Seq<WldSkeletonDagView>, j: int)
    requires
        0 <= j < dags.len(),
        dags.len() <= u32::MAX,
    ensures
        spec_backfilled(dags)[j].parent == spec_last_listing(dags, dags.len() as int, j),
        (forall|i: int| 0 <= i < dags.len() ==> !dags[i].sub_dags.contains(j as u32))
            ==> spec_backfilled(dags)[j].parent is None,
{
    lemma_parents_upto_at(dags, dags.len() as int, j);
    lemma_last_listing_none(dags, dags.len() as int, j);
}

proof fn lemma_last_listing_unique(dags: Seq<WldSkeletonDagView>, k: int, i: int, c: int)
    requires
        dags.len() <= u32::MAX,
        0 <= i < k <= dags.len(),
        dags[i].sub_dags.contains(c as u32),
        forall|t: int|
            0 <= t < dags.len() && t != i ==> !(#[trigger] dags[t]).sub_dags.contains(c as u32),
    ensures
        spec_last_listing(dags, k, c) == Some(i as u32),
    decreases k,
{
    if k - 1 > i {
        lemma_last_listing_unique(dags, k - 1, i, c);
    }
}

/// The back-fill law in tree form: when each child index is named by at
/// most one node's child list — the shape of a well-formed skeleton — a
/// listed child's parent is exactly the node that lists it.
pub proof fn lemma_dag_parent_unique_lister(dags: Seq<WldSkeletonDagView>, i: int, c: int)
    requires
        dags.len() <= u32::MAX,
        0 <= i < dags.len(),
        0 <= c < dags.len(),
        dags[i].sub_dags.contains(c as u32),
        forall|t: int|
            0 <= t < dags.len() && t != i ==> !(#[trigger] dags[t]).sub_dags.contains(c as u32),
    ensures
        spec_backfilled(dags)[c].parent == Some(i as u32),
{
    lemma_dag_parent_backfill(dags, c);
    lemma_last_listing_unique(dags, dags.len() as int, i, c);
}

proof fn lemma_last_listing_none(dags: Seq<WldSkeletonDagView>, i: int, j: int)
    requires
        0 <= i <= dags.len(),
    ensures
        (forall|t: int| 0 <= t < dags.len() ==> !dags[t].sub_dags.contains(j as u32))
            ==> spec_last_listing(dags, i, j) is None,
    decreases i,
{
    if i > 0 {
        lemma_last_listing_none(dags, i - 1, j);
    }
}

/// A skeleton track set: flags, conditional centre offset and bounding
/// radius (kept as the raw bit pattern of the stored float), the DAG node
/// array with parents back-filled, and conditional skin-update index lists.
#[derive(Clone, Debug)]
pub struct WldSkeletonTrackSet {
    pub name: Option<String>,
    pub flags: WldSkeletonFlags,
    pub num_dags: u32,
    pub polygon_animation_reference: u32,
    pub centre_offset: Option<(u32, u32, u32)>,
    pub bounding_radius_bits: Option<u32>,
    pub dags: Vec<WldSkeletonDag>,
    pub mesh_reference_count: Option<u32>,
    pub dm_sprites: Vec<u32>,
    pub link_skin_updates_to_dag_index: Vec<u32>,
}

pub struct WldSkeletonTrackSetView {
    pub name: Option<Seq<char>>,
    pub flags: WldSkeletonFlags,
    pub num_dags: u32,
    pub polygon_animation_reference: u32,
    pub centre_offset: Option<(u32, u32, u32)>,
    pub bounding_radius_bits: Option<u32>,
    pub dags: Seq<WldSkeletonDagView>,
    pub mesh_reference_count: Option<u32>,
    pub dm_sprites: Seq<u32>,
    pub link_skin_updates_to_dag_index: Seq<u32>,
}

impl View for WldSkeletonTrackSet {
    type V = WldSkeletonTrackSetView;

    open spec fn view(&self) -> WldSkeletonTrackSetView {
        WldSkeletonTrackSetView {
            name: opt_string_view(self.name),
            flags: self.flags,
            num_dags: self.num_dags,
            polygon_animation_reference: self.polygon_animation_reference,
            centre_offset: self.centre_offset,
            bounding_radius_bits: self.bounding_radius_bits,
            dags: self.dags@.map_values(|d: WldSkeletonDag| d@),
            mesh_reference_count: self.mesh_reference_count,
            dm_sprites: self.dm_sprites@,
            link_skin_updates_to_dag_index: self.link_skin_updates_to_dag_index@,
        }
    }
}

impl WldFragment for WldSkeletonTrackSet {
    open spec fn spec_type_tag() -> u32 {
        16
    }

    open spec fn spec_decode(s: Seq<u8>, p: int, ctx: SettingsView) -> Result<
        (WldSkeletonTrackSetView, int),
        EQFilesError,
    > {
        if p + 12 > s.len() {
            Err(EQFilesError::UnknownError)
        } else {
            let flags = WldSkeletonFlags { raw: le32_at(s, p) };
            let num_dags = le32_at(s, p + 4);
            let polygon_animation_reference = le32_at(s, p + 8);
            let pa = p + 12;
            if flags.spec_has_center_offset() && pa + 12 > s.len() {
                Err(EQFilesError::UnknownError)
            } else {
                let centre_offset = if flags.spec_has_center_offset() {
                    Some((le32_at(s, pa), le32_at(s, pa + 4), le32_at(s, pa + 8)))
                } else {
                    None
                };
                let pb = if flags.spec_has_center_offset() {
                    pa + 12
                } else {
                    pa
                };
                if flags.spec_has_bounding_radius() && pb + 4 > s.len() {
                    Err(EQFilesError::UnknownError)
                } else {
                    let bounding_radius_bits = if flags.spec_has_bounding_radius() {
                        Some(le32_at(s, pb))
                    } else {
                        None
                    };
                    let pc = if flags.spec_has_bounding_radius() {
                        pb + 4
                    } else {
                        pb
                    };
                    match spec_dags_decode(s, pc, ctx.names, num_dags as nat) {
                        Err(e) => Err(e),
                        Ok((dags, pd)) => {
                            if flags.spec_has_mesh_references() && pd + 4 > s.len() {
                                Err(EQFilesError::UnknownError)
                            } else {
                                let cnt = if flags.spec_has_mesh_references() {
                                    le32_at(s, pd)
                                } else {
                                    0
                                };
                                let mesh_reference_count = if flags.spec_has_mesh_references() {
                                    Some(cnt)
                                } else {
                                    None
                                };
                                let pe = if flags.spec_has_mesh_references() {
                                    pd + 4
                                } else {
                                    pd
                                };
                                if pe + 8 * cnt > s.len() {
                                    Err(EQFilesError::UnknownError)
                                } else {
                                    Ok(
                                        (
                                            WldSkeletonTrackSetView {
                                                name: ctx.name,
                                                flags,
                                                num_dags,
                                                polygon_animation_reference,
                                                centre_offset,
                                                bounding_radius_bits,
                                                dags: spec_backfilled(dags),
                                                mesh_reference_count,
                                                dm_sprites: spec_u32_list(s, pe, cnt as nat),
                                                link_skin_updates_to_dag_index: spec_u32_list(
                                                    s,
                                                    pe + 4 * cnt,
                                                    cnt as nat,
                                                ),
                                            },
                                            pe + 8 * cnt,
                                        ),
                                    )
                                }
                            }
                        },
                    }
                }
            }
        }
    }

    fn type_tag() -> u32 {
        16
    }

    #[verifier::loop_isolation(false)]
    #[verifier::rlimit(60)]
    fn new(input: &mut ByteCursor, settings: &Settings) -> Result<
        WldSkeletonTrackSet,
        EQFilesError,
    > {
        let raw = match input.u32le() {
            Ok(v) => v,
            Err(e) => { return Err(e) },
        };
        let flags = WldSkeletonFlags { raw };
        let num_dags = match input.u32le() {
            Ok(v) => v,
            Err(e) => { return Err(e) },
        };
        let polygon_animation_reference = match input.u32le() {
            Ok(v) => v,
            Err(e) => { return Err(e) },
        };
        let centre_offset = if flags.has_center_offset() {
            let x = match input.u32le() {
                Ok(v) => v,
                Err(e) => { return Err(e) },
            };
            let y = match input.u32le() {
                Ok(v) => v,
                Err(e) => { return Err(e) },
            };
            let z = match input.u32le() {
                Ok(v) => v,
                Err(e) => { return Err(e) },
            };
            Some((x, y, z))
        } else {
            None
        };
        let bounding_radius_bits = if flags.has_bounding_radius() {
            match input.u32le() {
                Ok(v) => Some(v),
                Err(e) => { return Err(e) },
            }
        } else {
            None
        };
        let ghost pc = input.position();
        let mut dags: Vec<WldSkeletonDag> = Vec::new();
        let mut i: u32 = 0;
        while i < num_dags
            invariant
                input.wf(),
                input.bytes() == old(input).bytes(),
                0 <= i <= num_dags,
                dags@.len() == i as int,
                match spec_dags_decode(
                    input.bytes(),
                    input.position(),
                    settings@.names,
                    (num_dags - i) as nat,
                ) {
                    Ok((ds, q)) => spec_dags_decode(
                        input.bytes(),
                        pc,
                        settings@.names,
                        num_dags as nat,
                    ) == Ok::<(Seq<WldSkeletonDagView>, int), EQFilesError>(
                        (dags@.map_values(|d: WldSkeletonDag| d@) + ds, q),
                    ),
                    Err(e) => spec_dags_decode(
                        input.bytes(),
                        pc,
                        settings@.names,
                        num_dags as nat,
                    ) == Err::<(Seq<WldSkeletonDagView>, int), EQFilesError>(e),
                },
            decreases num_dags - i,
        {
            let d = match WldSkeletonDag::new(input, settings) {
                Ok(d) => d,
                Err(e) => { return Err(e) },
            };
            proof {
                let rest = spec_dags_decode(
                    input.bytes(),
                    input.position(),
                    settings@.names,
                    (num_dags - i - 1) as nat,
                );
                if rest is Ok {
                    assert(dags@.push(d).map_values(|x: WldSkeletonDag| x@) + rest->Ok_0.0
                        =~= dags@.map_values(|x: WldSkeletonDag| x@) + (seq![d@] + rest->Ok_0.0));
                }
            }
            dags.push(d);
            i = i + 1;
        }
        proof {
            assert(dags@.map_values(|d: WldSkeletonDag| d@) + Seq::<WldSkeletonDagView>::empty()
                =~= dags@.map_values(|d: WldSkeletonDag| d@));
        }
        let ghost dviews = dags@.map_values(|d: WldSkeletonDag| d@);
        let mesh_reference_count = if flags.has_mesh_references() {
            match input.u32le() {
                Ok(v) => Some(v),
                Err(e) => { return Err(e) },
            }
        } else {
            None
        };
        let cnt = match mesh_reference_count {
            Some(c) => c,
            None => 0,
        };
        let dm_sprites = match read_u32_list(input, cnt) {
            Ok(v) => v,
            Err(e) => { return Err(e) },
        };
        let link_skin_updates_to_dag_index = match read_u32_list(input, cnt) {
            Ok(v) => v,
            Err(e) => { return Err(e) },
        };

        let n = dags.len();
        let mut parents: Vec<Option<u32>> = Vec::new();
        let mut j: usize = 0;
        while j < n
            invariant
                0 <= j <= n,
                parents@ =~= Seq::new(j as nat, |t: int| None::<u32>),
            decreases n - j,
        {
            parents.push(None);
            j = j + 1;
        }
        proof {
            assert(parents@ =~= spec_parents_upto(dviews, 0));
        }
        let mut i2: usize = 0;
        while i2 < n
            invariant
                n == dags.len(),
                dviews == dags@.map_values(|d: WldSkeletonDag| d@),
                n <= u32::MAX,
                0 <= i2 <= n,
                parents@.len() == n,
                parents@ == spec_parents_upto(dviews, i2 as int),
            decreases n - i2,
        {
            let subs_len = dags[i2].sub_dags.len();
            let mut k: usize = 0;
            while k < subs_len
                invariant
                    n == dags.len(),
                    dviews == dags@.map_values(|d: WldSkeletonDag| d@),
                    n <= u32::MAX,
                    0 <= i2 < n,
                    subs_len == dags@[i2 as int].sub_dags@.len(),
                    0 <= k <= subs_len,
                    parents@.len() == n,
                    spec_apply_subs(
                        spec_parents_upto(dviews, i2 as int),
                        i2 as int,
                        dviews[i2 as int].sub_dags,
                        0,
                    ) == spec_apply_subs(parents@, i2 as int, dviews[i2 as int].sub_dags, k as int),
                decreases subs_len - k,
            {
                let sub = dags[i2].sub_dags[k];
                proof {
                    assert(dviews[i2 as int].sub_dags[k as int] == sub);
                }
                if (sub as usize) < parents.len() {
                    parents[sub as usize] = Some(i2 as u32);
                }
                k = k + 1;
            }
            proof {
                assert(spec_apply_subs(parents@, i2 as int, dviews[i2 as int].sub_dags, subs_len as int)
                    == parents@);
                assert(parents@ =~= spec_parents_upto(dviews, i2 as int + 1));
            }
            i2 = i2 + 1;
        }

        let mut filled: Vec<WldSkeletonDag> = Vec::new();
        let mut t: usize = 0;
        while t < n
            invariant
                n == dags.len(),
                dviews == dags@.map_values(|d: WldSkeletonDag| d@),
                parents@.len() == n,
                parents@ == spec_dag_parents(dviews),
                0 <= t <= n,
                filled@.map_values(|d: WldSkeletonDag| d@) =~= spec_backfilled(dviews).take(
                    t as int,
                ),
            decreases n - t,
        {
            let d = &dags[t];
            let name = match &d.name {
                Some(s) => Some(s.clone()),
                None => None,
            };
            let sub_dags = vstd::slice::slice_to_vec(d.sub_dags.as_slice());
            let nd = WldSkeletonDag {
                name,
                flags: d.flags,
                track_ref: d.track_ref,
                mesh_or_sprite_ref: d.mesh_or_sprite_ref,
                num_sub_dags: d.num_sub_dags,
                sub_dags,
                parent: parents[t],
            };
            proof {
                assert(nd@ == WldSkeletonDagView {
                    parent: spec_dag_parents(dviews)[t as int],
                    ..dviews[t as int]
                });
            }
            filled.push(nd);
            t = t + 1;
            proof {
                assert(filled@.map_values(|d: WldSkeletonDag| d@) =~= spec_backfilled(
                    dviews,
                ).take(t as int));
            }
        }
        proof {
            assert(spec_backfilled(dviews).take(n as int) =~= spec_backfilled(dviews));
        }
        Ok(
            WldSkeletonTrackSet {
                name: settings.get_name(),
                flags,
                num_dags,
                polygon_animation_reference,
                centre_offset,
                bounding_radius_bits,
                dags: filled,
                mesh_reference_count,
                dm_sprites,
                link_skin_updates_to_dag_index,
            },
        )
    }
}

} // verus!
