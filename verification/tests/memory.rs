use rcore_os::task::{
    check_conflict, check_match, check_relationship, insert_va, remove_va, translate_va, IntervalRelationship,
    MapArea, MemorySet, VpnRange,
};

fn area(start: usize, end: usize) -> MapArea {
    MapArea { vpn_range: VpnRange { start, end }, map_perm: 16 }
}

#[test]
fn relationship_of_each_kind() {
    assert_eq!(check_relationship(10, 20, 0, 10), IntervalRelationship::Disjoint);
    assert_eq!(check_relationship(10, 20, 20, 30), IntervalRelationship::Disjoint);
    assert_eq!(check_relationship(10, 20, 12, 18), IntervalRelationship::BeIncluded);
    assert_eq!(check_relationship(10, 20, 10, 20), IntervalRelationship::BeIncluded);
    assert_eq!(check_relationship(10, 20, 15, 25), IntervalRelationship::IncludeAtRight);
    assert_eq!(check_relationship(10, 20, 5, 15), IntervalRelationship::IncludeAtLeft);
    assert_eq!(check_relationship(10, 20, 5, 25), IntervalRelationship::IncludeAtMiddle);
}

#[test]
fn relationship_never_unknown() {
    for a in 0..6 {
        for b in 0..6 {
            for c in 0..6 {
                for d in 0..6 {
                    assert_ne!(check_relationship(a, b, c, d), IntervalRelationship::Unknown);
                }
            }
        }
    }
}

#[test]
fn conflict_and_match_by_page() {
    let ms = MemorySet { areas: vec![area(1, 3), area(10, 12)] };
    assert!(check_conflict(&ms, 0x3000, 0x5000));
    assert!(!check_conflict(&ms, 0x2000, 0x4000));
    assert!(!check_conflict(&ms, 0x9000, 0xb000));
    assert!(check_match(&ms, 0xa000, 0xc000));
    assert!(check_match(&ms, 0xa123, 0xc456));
    assert!(!check_match(&ms, 0xa000, 0xb000));
}

#[test]
fn insert_then_remove_restores_the_areas() {
    let mut ms = MemorySet { areas: vec![area(1, 3)] };
    assert!(insert_va(&mut ms, 0x4000, 0x6000, 6, true));
    assert_eq!(ms.areas, vec![area(1, 3), MapArea { vpn_range: VpnRange { start: 4, end: 6 }, map_perm: 6 }]);
    assert!(!insert_va(&mut ms, 0x5000, 0x7000, 6, true));
    assert!(remove_va(&mut ms, 0x4000, 0x6000));
    assert_eq!(ms.areas, vec![area(1, 3)]);
    // no frames: a conflict-free range is still refused and nothing is added
    assert!(!insert_va(&mut ms, 0x4000, 0x6000, 6, false));
    assert_eq!(ms.areas, vec![area(1, 3)]);
    assert!(!remove_va(&mut ms, 0x4000, 0x6000));
}

#[test]
fn remove_takes_the_first_exact_match() {
    let mut ms = MemorySet { areas: vec![area(2, 2), area(5, 7), area(2, 2)] };
    assert!(remove_va(&mut ms, 0x2000, 0x2000));
    assert_eq!(ms.areas, vec![area(5, 7), area(2, 2)]);
}

#[test]
fn translate_keeps_the_page_offset() {
    assert_eq!(translate_va(0x80200, 0x1234), 0x8020_0234);
    assert_eq!(translate_va(0, 0xfff), 0xfff);
    assert_eq!(translate_va(1, 0x5000), 0x1000);
}
