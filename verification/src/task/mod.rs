use vstd::prelude::*;

pub mod manager;

verus! {

/// Bytes per page.
pub const PAGE_SIZE: usize = 4096;

/// `log2(PAGE_SIZE)`.
pub const PAGE_SIZE_BITS: usize = 12;

/// Readable, writable, executable and user-accessible bits of a mapping.
pub const MAP_PERM_R: u8 = 2;
pub const MAP_PERM_W: u8 = 4;
pub const MAP_PERM_X: u8 = 8;
pub const MAP_PERM_U: u8 = 16;

/// How a page range `[vpn_1, vpn_r)` lies relative to a mapped range
/// `[self_vpn_1, self_vpn_r)`.
#[derive(Copy, Clone, Debug, PartialEq, Eq, Structural)]
pub enum IntervalRelationship {
    Disjoint,
    BeIncluded,
    IncludeAtRight,
    IncludeAtLeft,
    IncludeAtMiddle,
    Unknown,
}

/// `[l, r)` against the mapped `[sl, sr)`: no common page; inside it; starting
/// inside and running past its end; starting before it and ending inside; or
/// starting before and running past its end.
pub open spec fn relationship(sl: int, sr: int, l: int, r: int) -> IntervalRelationship {
    if r <= sl || sr <= l {
        IntervalRelationship::Disjoint
    } else if sl <= l {
        if r <= sr {
            IntervalRelationship::BeIncluded
        } else {
            IntervalRelationship::IncludeAtRight
        }
    } else if r <= sr {
        IntervalRelationship::IncludeAtLeft
    } else {
        IntervalRelationship::IncludeAtMiddle
    }
}

pub fn check_relationship(self_vpn_1: usize, self_vpn_r: usize, vpn_1: usize, vpn_r: usize) -> (r: IntervalRelationship)
    ensures
        r == relationship(self_vpn_1 as int, self_vpn_r as int, vpn_1 as int, vpn_r as int),
        r != IntervalRelationship::Unknown,
{
    if vpn_r <= self_vpn_1 || vpn_1 >= self_vpn_r {
        IntervalRelationship::Disjoint
    } else if self_vpn_1 <= vpn_1 && vpn_r <= self_vpn_r {
        IntervalRelationship::BeIncluded
    } else if self_vpn_1 <= vpn_1 && vpn_1 < self_vpn_r && self_vpn_r < vpn_r {
        IntervalRelationship::IncludeAtRight
    } else if vpn_1 < self_vpn_1 && self_vpn_1 < vpn_r && vpn_r <= self_vpn_r {
        IntervalRelationship::IncludeAtLeft
    } else if vpn_1 <= self_vpn_1 && self_vpn_r <= vpn_r {
        IntervalRelationship::IncludeAtMiddle
    } else {
        IntervalRelationship::Unknown
    }
}

/// Page number holding virtual address `va`.
pub open spec fn floor(va: usize) -> int {
    va as int / PAGE_SIZE as int
}

/// A range `[start, end)` of virtual page numbers.
#[derive(Copy, Clone, Debug, PartialEq, Eq, Structural)]
pub struct VpnRange {
    pub start: usize,
    pub end: usize,
}

/// A mapped range with its permission bits.
#[derive(Copy, Clone, Debug, PartialEq, Eq, Structural)]
pub struct MapArea {
    pub vpn_range: VpnRange,
    pub map_perm: u8,
}

/// The mapped ranges of one address space, in the order they were added.
pub struct MemorySet {
    pub areas: Vec<MapArea>,
}

/// Whether page range `[l, r)` shares a page with `range`.
pub open spec fn overlaps(range: VpnRange, l: int, r: int) -> bool {
    l < range.end && range.start < r
}

/// Whether `[l, r)` shares no page with any of `areas`.
pub open spec fn conflict_free(areas: Seq<MapArea>, l: int, r: int) -> bool {
    forall|i: int| 0 <= i < areas.len() ==> !overlaps(#[trigger] areas[i].vpn_range, l, r)
}

/// Whether one of `areas` covers exactly `[l, r)`.
pub open spec fn has_match(areas: Seq<MapArea>, l: int, r: int) -> bool {
    exists|i: int| 0 <= i < areas.len() && #[trigger] areas[i].vpn_range.start == l && areas[i].vpn_range.end == r
}

/// Whether `i` is the first of `areas` that covers exactly `[l, r)`.
pub open spec fn first_match(areas: Seq<MapArea>, l: int, r: int, i: int) -> bool {
    &&& 0 <= i < areas.len()
    &&& areas[i].vpn_range.start == l
    &&& areas[i].vpn_range.end == r
    &&& forall|j: int| 0 <= j < i ==> !(#[trigger] areas[j].vpn_range.start == l && areas[j].vpn_range.end == r)
}

/// True when the pages of `[v_start, v_end)` (by page number, `v_end`'s page
/// excluded) are free of every mapped area.
pub fn check_conflict(memory_set: &MemorySet, v_start: usize, v_end: usize) -> (r: bool)
    ensures
        r == conflict_free(memory_set.areas@, floor(v_start), floor(v_end)),
{
    let l = v_start / PAGE_SIZE;
    let h = v_end / PAGE_SIZE;
    let mut disjoint = true;
    let mut i: usize = 0;
    while i < memory_set.areas.len()
        invariant_except_break
            disjoint,
            conflict_free(memory_set.areas@.take(i as int), l as int, h as int),
        invariant
            i <= memory_set.areas@.len(),
            l == floor(v_start),
            h == floor(v_end),
        ensures
            disjoint ==> i == memory_set.areas@.len() && conflict_free(memory_set.areas@.take(i as int), l as int, h as int),
            !disjoint ==> !conflict_free(memory_set.areas@, l as int, h as int),
        decreases memory_set.areas@.len() - i,
    {
        let range = memory_set.areas[i].vpn_range;
        match check_relationship(range.start, range.end, l, h) {
            IntervalRelationship::Disjoint => {},
            _ => {
                disjoint = false;
                proof {
                    assert(memory_set.areas@[i as int].vpn_range == range);
                    assert(overlaps(memory_set.areas@[i as int].vpn_range, l as int, h as int));
                }
                break;
            },
        }
        proof {
            assert forall|j: int| 0 <= j < i + 1 implies !overlaps(
                #[trigger] memory_set.areas@.take(i + 1)[j].vpn_range,
                l as int,
                h as int,
            ) by {
                if j < i {
                    assert(memory_set.areas@.take(i + 1)[j] == memory_set.areas@.take(i as int)[j]);
                }
            }
        }
        i += 1;
    }
    proof {
        if disjoint {
            assert(memory_set.areas@.take(i as int) =~= memory_set.areas@);
        }
    }
    disjoint
}

/// True when one mapped area covers exactly the pages of `[v_start, v_end)`.
pub fn check_match(memory_set: &MemorySet, v_start: usize, v_end: usize) -> (r: bool)
    ensures
        r == has_match(memory_set.areas@, floor(v_start), floor(v_end)),
{
    first_match_index(memory_set, v_start / PAGE_SIZE, v_end / PAGE_SIZE).is_some()
}

/// Index of the first area covering exactly `[l, r)`, if any.
fn first_match_index(memory_set: &MemorySet, l: usize, h: usize) -> (r: Option<usize>)
    ensures
        r is None <==> !has_match(memory_set.areas@, l as int, h as int),
        r matches Some(i) ==> first_match(memory_set.areas@, l as int, h as int, i as int),
{
    let mut i: usize = 0;
    while i < memory_set.areas.len()
        invariant
            i <= memory_set.areas@.len(),
            forall|j: int| 0 <= j < i ==> !(#[trigger] memory_set.areas@[j].vpn_range.start == l
                && memory_set.areas@[j].vpn_range.end == h),
        decreases memory_set.areas@.len() - i,
    {
        let range = memory_set.areas[i].vpn_range;
        if range.start == l && range.end == h {
            return Some(i);
        }
        i += 1;
    }
    None
}

/// Maps `[v_start, v_end)` with `permission` when it shares no page with a
/// mapped area and the frame allocator could back its pages
/// (`frames_allocated`); true when it was mapped. When frames run out the
/// mapping fails cleanly and nothing is added.
pub fn insert_va(
    memory_set: &mut MemorySet,
    v_start: usize,
    v_end: usize,
    permission: u8,
    frames_allocated: bool,
) -> (r: bool)
    ensures
        r == (conflict_free(old(memory_set).areas@, floor(v_start), floor(v_end)) && frames_allocated),
        r ==> final(memory_set).areas@ == old(memory_set).areas@.push(MapArea {
            vpn_range: VpnRange { start: floor(v_start) as usize, end: floor(v_end) as usize },
            map_perm: permission,
        }),
        !r ==> final(memory_set).areas@ == old(memory_set).areas@,
{
    if check_conflict(memory_set, v_start, v_end) {
        if !frames_allocated {
            return false;
        }
        memory_set.areas.push(MapArea {
            vpn_range: VpnRange { start: v_start / PAGE_SIZE, end: v_end / PAGE_SIZE },
            map_perm: permission,
        });
        true
    } else {
        false
    }
}

/// Unmaps the first area covering exactly `[v_start, v_end)`; true when
/// there was one.
pub fn remove_va(memory_set: &mut MemorySet, v_start: usize, v_end: usize) -> (r: bool)
    ensures
        r == has_match(old(memory_set).areas@, floor(v_start), floor(v_end)),
        r ==> exists|i: int|
            first_match(old(memory_set).areas@, floor(v_start), floor(v_end), i)
                && final(memory_set).areas@ == old(memory_set).areas@.remove(i),
        !r ==> final(memory_set).areas@ == old(memory_set).areas@,
{
    match first_match_index(memory_set, v_start / PAGE_SIZE, v_end / PAGE_SIZE) {
        Some(i) => {
            memory_set.areas.remove(i);
            true
        },
        None => false,
    }
}

/// Stores `task_prio` as the current task's priority.
pub fn set_current_priority(current_prio: &mut isize, task_prio: isize)
    ensures
        *final(current_prio) == task_prio,
{
    *current_prio = task_prio;
}

/// Physical address of user address `ptr` whose page is held by physical
/// page `ppn`: the page's base plus the offset of `ptr` in its page.
pub fn translate_va(ppn: usize, ptr: usize) -> (r: usize)
    requires
        (ppn << PAGE_SIZE_BITS) + ptr as int % PAGE_SIZE as int <= usize::MAX,
    ensures
        r == (ppn << PAGE_SIZE_BITS) + ptr as int % PAGE_SIZE as int,
{
    let offset = ptr & (PAGE_SIZE - 1);
    assert(ptr & 4095 == ptr % 4096) by (bit_vector);
    (ppn << PAGE_SIZE_BITS) + offset
}

/// No two of `areas` share a page.
pub open spec fn pairwise_disjoint(areas: Seq<MapArea>) -> bool {
    forall|i: int, j: int|
        0 <= i < areas.len() && 0 <= j < areas.len() && i != j ==> !overlaps(
            #[trigger] areas[i].vpn_range,
            #[trigger] areas[j].vpn_range.start as int,
            areas[j].vpn_range.end as int,
        )
}

/// Mapping only ranges that pass the conflict check keeps the areas of an
/// address space from sharing pages.
pub proof fn law_insert_keeps_disjoint(areas: Seq<MapArea>, area: MapArea)
    requires
        pairwise_disjoint(areas),
        conflict_free(areas, area.vpn_range.start as int, area.vpn_range.end as int),
    ensures
        pairwise_disjoint(areas.push(area)),
{
    let a1 = areas.push(area);
    assert forall|i: int, j: int| 0 <= i < a1.len() && 0 <= j < a1.len() && i != j implies !overlaps(
        #[trigger] a1[i].vpn_range,
        #[trigger] a1[j].vpn_range.start as int,
        a1[j].vpn_range.end as int,
    ) by {
        if i == areas.len() {
            assert(!overlaps(areas[j].vpn_range, area.vpn_range.start as int, area.vpn_range.end as int));
        } else if j == areas.len() {
            assert(!overlaps(areas[i].vpn_range, area.vpn_range.start as int, area.vpn_range.end as int));
        } else {
            assert(a1[i] == areas[i] && a1[j] == areas[j]);
        }
    }
}

/// A nonempty range that passed the conflict check and was mapped is
/// matched exactly by the area just added and by no earlier one, so
/// unmapping it gives back the areas as they were.
pub proof fn law_remove_undoes_insert(areas: Seq<MapArea>, area: MapArea)
    requires
        area.vpn_range.start < area.vpn_range.end,
        conflict_free(areas, area.vpn_range.start as int, area.vpn_range.end as int),
    ensures
        has_match(areas.push(area), area.vpn_range.start as int, area.vpn_range.end as int),
        forall|i: int| first_match(areas.push(area), area.vpn_range.start as int, area.vpn_range.end as int, i)
            ==> i == areas.len() && areas.push(area).remove(i) == areas,
{
    let a1 = areas.push(area);
    let l = area.vpn_range.start as int;
    let h = area.vpn_range.end as int;
    assert(a1[areas.len() as int] == area);
    assert forall|i: int| first_match(a1, l, h, i) implies i == areas.len() && a1.remove(i) == areas by {
        if i < areas.len() {
            assert(a1[i] == areas[i]);
            assert(!overlaps(areas[i].vpn_range, l, h));
        }
        assert(a1.remove(i) =~= areas);
    }
}

} // verus!
