use eq_files::{ByteCursor, WldFile, WldSkeletonTrackSet};

fn le32(out: &mut Vec<u8>, v: u32) {
    out.extend_from_slice(&v.to_le_bytes());
}

fn build_world(fragments: &[(u32, i32, Vec<u8>)]) -> Vec<u8> {
    let mut b = Vec::new();
    le32(&mut b, 0x54503D02);
    le32(&mut b, 0x1000C800);
    le32(&mut b, fragments.len() as u32);
    le32(&mut b, 0);
    le32(&mut b, 0);
    le32(&mut b, 0);
    le32(&mut b, 0);
    for (ty, name_ref, payload) in fragments {
        le32(&mut b, payload.len() as u32 + 4);
        le32(&mut b, *ty);
        le32(&mut b, *name_ref as u32);
        b.extend_from_slice(payload);
    }
    b
}

fn dag(out: &mut Vec<u8>, track_ref: u32, subs: &[u32]) {
    le32(out, 0); // name reference: unnamed
    le32(out, 0); // flags
    le32(out, track_ref);
    le32(out, 0); // mesh or sprite reference
    le32(out, subs.len() as u32);
    for s in subs {
        le32(out, *s);
    }
}

#[test]
fn parent_backfill_links_the_tree() {
    let mut p = Vec::new();
    le32(&mut p, 0); // flags: no centre, no radius, no mesh references
    le32(&mut p, 4); // dag count
    le32(&mut p, 0); // polygon animation reference
    dag(&mut p, 10, &[1, 2]);
    dag(&mut p, 11, &[]);
    dag(&mut p, 12, &[3]);
    dag(&mut p, 13, &[]);
    let buf = build_world(&[(16, 0, p)]);
    let mut c = ByteCursor::new(buf);
    let w = WldFile::new(&mut c).unwrap();
    let s: WldSkeletonTrackSet = w.fragment_by_index(1).unwrap();
    assert_eq!(s.num_dags, 4);
    assert_eq!(s.dags.len(), 4);
    assert_eq!(s.dags[0].parent, None);
    assert_eq!(s.dags[1].parent, Some(0));
    assert_eq!(s.dags[2].parent, Some(0));
    assert_eq!(s.dags[3].parent, Some(2));
    assert_eq!(s.dags[0].sub_dags, vec![1, 2]);
    assert_eq!(s.dags[2].track_ref, 12);
    assert_eq!(s.centre_offset, None);
    assert_eq!(s.bounding_radius_bits, None);
    assert_eq!(s.mesh_reference_count, None);
}

#[test]
fn conditional_centre_radius_and_skin_links_decode() {
    let mut p = Vec::new();
    le32(&mut p, 0x01 | 0x02 | 0x200);
    le32(&mut p, 1); // dag count
    le32(&mut p, 7); // polygon animation reference
    le32(&mut p, 100); // centre x
    le32(&mut p, 200); // centre y
    le32(&mut p, 300); // centre z
    le32(&mut p, 0x41200000); // bounding radius bit pattern
    dag(&mut p, 5, &[]);
    le32(&mut p, 2); // mesh reference count
    le32(&mut p, 21); // skin update targets
    le32(&mut p, 22);
    le32(&mut p, 0); // linked dag indices
    le32(&mut p, 0);
    let buf = build_world(&[(16, 0, p)]);
    let mut c = ByteCursor::new(buf);
    let w = WldFile::new(&mut c).unwrap();
    let s: WldSkeletonTrackSet = w.fragment_by_index(1).unwrap();
    assert_eq!(s.centre_offset, Some((100, 200, 300)));
    assert_eq!(s.bounding_radius_bits, Some(0x41200000));
    assert_eq!(s.mesh_reference_count, Some(2));
    assert_eq!(s.dm_sprites, vec![21, 22]);
    assert_eq!(s.link_skin_updates_to_dag_index, vec![0, 0]);
    assert_eq!(s.polygon_animation_reference, 7);
}

#[test]
fn out_of_range_child_indices_are_ignored() {
    let mut p = Vec::new();
    le32(&mut p, 0);
    le32(&mut p, 2);
    le32(&mut p, 0);
    dag(&mut p, 1, &[1, 9]); // 9 names no node
    dag(&mut p, 2, &[]);
    let buf = build_world(&[(16, 0, p)]);
    let mut c = ByteCursor::new(buf);
    let w = WldFile::new(&mut c).unwrap();
    let s: WldSkeletonTrackSet = w.fragment_by_index(1).unwrap();
    assert_eq!(s.dags[1].parent, Some(0));
}
