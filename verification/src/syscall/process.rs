use vstd::prelude::*;
use crate::task::{
    MemorySet, MapArea, VpnRange, conflict_free, has_match, first_match, floor, insert_va, remove_va,
    law_remove_undoes_insert, set_current_priority,
    PAGE_SIZE, PAGE_SIZE_BITS, MAP_PERM_R, MAP_PERM_W, MAP_PERM_X, MAP_PERM_U,
};

verus! {

/// Largest length one `mmap` may ask for.
pub const MMAP_MAX_LEN: usize = 0x4000_0000;

/// Sets the task's priority to `prio` and returns it when `prio >= 2`;
/// otherwise returns -1 and leaves the priority as it was.
pub fn sys_set_priority(task_prio: &mut isize, prio: isize) -> (r: isize)
    ensures
        prio >= 2 ==> r == prio && *final(task_prio) == prio,
        prio < 2 ==> r == -1 && *final(task_prio) == *old(task_prio),
{
    if prio >= 2 {
        set_current_priority(task_prio, prio);
        prio
    } else {
        -1
    }
}

/// The calling task's pid, as returned to it.
pub fn sys_getpid(pid: usize) -> (r: isize)
    ensures
        r == pid as isize,
{
    pid as isize
}

/// Seconds and microseconds of a clock reading.
#[derive(Copy, Clone, Debug, PartialEq, Eq, Structural)]
pub struct TimeVal {
    pub sec: usize,
    pub usec: usize,
}

/// The time value written back to the caller: whole seconds of the first
/// millisecond reading and the sub-second part, in microseconds, of the
/// second one (the clock is read twice).
pub fn sys_get_time(first_ms: usize, second_ms: usize) -> (r: TimeVal)
    ensures
        r.sec == first_ms / 1000,
        r.usec == (second_ms % 1000) * 1000,
{
    TimeVal { sec: first_ms / 1000, usec: (second_ms % 1000) * 1000 }
}

/// `len` rounded up to whole pages.
pub open spec fn page_round_up(len: int) -> int {
    ((len + PAGE_SIZE - 1) / PAGE_SIZE as int) * PAGE_SIZE as int
}

/// `len` rounded up to whole pages, as a machine word holds it (a length
/// within a page of the top of the address range rounds to 0).
pub open spec fn mapped_size(len: usize) -> usize {
    page_round_up(len as int) as usize
}

/// Permission bits of a mapping asked for with protection `port`: always
/// user-accessible, plus readable, writable and executable for bits 0, 1, 2.
pub open spec fn mmap_permission(port: usize) -> u8 {
    (MAP_PERM_U + (if port & 1 != 0 { MAP_PERM_R } else { 0 }) + (if port & 2 != 0 {
        MAP_PERM_W
    } else {
        0
    }) + (if port & 4 != 0 { MAP_PERM_X } else { 0 })) as u8
}

/// What `mmap` answers before it looks at the address space, if it does:
/// -1 for protection bits beyond the low three, for no protection bit, for a
/// length over `MMAP_MAX_LEN` or for an unaligned start; 0 for length 0.
pub open spec fn mmap_early_answer(start: usize, len: usize, port: usize) -> Option<int> {
    if port >= 8 {
        Some(-1)
    } else if port == 0 {
        Some(-1)
    } else if len > MMAP_MAX_LEN {
        Some(-1)
    } else if len == 0 {
        Some(0)
    } else if start % PAGE_SIZE != 0 {
        Some(-1)
    } else {
        None
    }
}

/// The page-rounding that `mmap` and `munmap` compute with shifts:
/// `(((len - 1) >> 12) + 1) << 12` is `mapped_size(len)`.
/// What `mmap(start, len, port)` answers as `r` and makes of the areas
/// `before` (giving `after`), when the frame allocator could back the range
/// or not (`frames_allocated`).
pub open spec fn mmap_done(
    before: Seq<MapArea>,
    after: Seq<MapArea>,
    start: usize,
    len: usize,
    port: usize,
    frames_allocated: bool,
    r: int,
) -> bool {
    &&& mmap_early_answer(start, len, port) matches Some(a) ==> r == a && after == before
    &&& mmap_early_answer(start, len, port) is None ==> {
        let size = page_round_up(len as int);
        let l = floor(start);
        let h = floor((start + size) as usize);
        &&& size == mapped_size(len) as int
        &&& conflict_free(before, l, h) && frames_allocated ==> r == size && after == before.push(
            MapArea { vpn_range: VpnRange { start: l as usize, end: h as usize }, map_perm: mmap_permission(port) },
        )
        &&& !(conflict_free(before, l, h) && frames_allocated) ==> r == -1 && after == before
    }
}

/// What `munmap(start, len)` answers as `r` and makes of the areas `before`
/// (giving `after`).
pub open spec fn munmap_done(before: Seq<MapArea>, after: Seq<MapArea>, start: usize, len: usize, r: int) -> bool {
    &&& start % PAGE_SIZE != 0 ==> r == -1 && after == before
    &&& start % PAGE_SIZE == 0 ==> {
        let size = mapped_size(len);
        let l = floor(start);
        let h = floor((start + size) as usize);
        &&& has_match(before, l, h) ==> r == size as isize && exists|i: int|
            first_match(before, l, h, i) && after == before.remove(i)
        &&& !has_match(before, l, h) ==> r == -1 && after == before
    }
}

proof fn lemma_round_up(len: usize, q: usize, size: usize)
    requires
        len >= 1,
        q == ((len - 1) as usize) >> 12usize,
        size == ((q + 1) as usize) << 12usize,
    ensures
        q < usize::MAX,
        size == mapped_size(len),
{
    let x = (len - 1) as usize;
    assert(x >> 12usize == x / 4096usize) by (bit_vector);
    let q1 = (q + 1) as usize;
    assert((q1 << 12usize) == (q1 * 4096) as usize) by (bit_vector);
    assert(q1 as int * 4096 == page_round_up(len as int));
}

proof fn lemma_port_bits(port: usize)
    ensures
        (port & !7usize != 0) <==> port >= 8,
        port < 8 ==> ((port & 7usize == 0) <==> port == 0),
{
    assert((port & !7usize != 0) <==> port >= 8) by (bit_vector);
    assert(port < 8 ==> ((port & 7usize == 0) <==> port == 0)) by (bit_vector);
}

/// Maps `[start, start + len)` rounded up to whole pages with the protection
/// of `port`, unless an early check refuses it, a mapped area shares a page
/// with it, or the frame allocator cannot back it (`frames_allocated` false);
/// returns the mapped size, 0 for length 0, or -1.
pub fn sys_mmap(memory_set: &mut MemorySet, start: usize, len: usize, port: usize, frames_allocated: bool) -> (r: isize)
    requires
        mmap_early_answer(start, len, port) is None ==> start + page_round_up(len as int) <= usize::MAX,
    ensures
        mmap_done(old(memory_set).areas@, final(memory_set).areas@, start, len, port, frames_allocated, r as int),
{
    proof {
        lemma_port_bits(port);
    }
    if (port & !0x7) != 0 {
        return -1;
    }
    if (port & 0x7) == 0 {
        return -1;
    }
    assert((1usize << 30usize) == 0x4000_0000usize) by (bit_vector);
    if len > (1 << 30) {
        return -1;
    }
    if len == 0 {
        return 0;
    }
    assert(start & 4095 == start % 4096) by (bit_vector);
    if start & (PAGE_SIZE - 1) != 0 {
        return -1;
    }
    assert(2u8 | 4u8 | 8u8 | 16u8 == 30u8) by (bit_vector);
    let mut flag: u8 = MAP_PERM_R | MAP_PERM_W | MAP_PERM_X | MAP_PERM_U;
    let ghost f0 = flag;
    if port & 1 == 0 {
        flag ^= MAP_PERM_R;
    }
    let ghost f1 = flag;
    if port & 2 == 0 {
        flag ^= MAP_PERM_W;
    }
    let ghost f2 = flag;
    if port & 4 == 0 {
        flag ^= MAP_PERM_X;
    }
    assert(flag == mmap_permission(port)) by (bit_vector)
        requires
            f0 == 30u8,
            f1 == (if port & 1 == 0 { f0 ^ 2u8 } else { f0 }),
            f2 == (if port & 2 == 0 { f1 ^ 4u8 } else { f1 }),
            flag == (if port & 4 == 0 { f2 ^ 8u8 } else { f2 }),
    ;
    let q = (len - 1) >> PAGE_SIZE_BITS;
    proof {
        lemma_round_up(len, q, ((q + 1) as usize) << 12usize);
    }
    let size = (q + 1) << PAGE_SIZE_BITS;
    let v_start = start;
    let v_end = start + size;
    if !insert_va(memory_set, v_start, v_end, flag, frames_allocated) {
        return -1;
    }
    size as isize
}

/// Unmaps the area covering exactly `[start, start + len)` rounded up to
/// whole pages; returns that size, or -1 for an unaligned start or when no
/// area covers exactly that range.
pub fn sys_munmap(memory_set: &mut MemorySet, start: usize, len: usize) -> (r: isize)
    requires
        start % PAGE_SIZE == 0 ==> len >= 1,
        start % PAGE_SIZE == 0 ==> start + mapped_size(len) <= usize::MAX,
    ensures
        munmap_done(old(memory_set).areas@, final(memory_set).areas@, start, len, r as int),
{
    assert(start & 4095 == start % 4096) by (bit_vector);
    if start & (PAGE_SIZE - 1) != 0 {
        return -1;
    }
    let q = (len - 1) >> PAGE_SIZE_BITS;
    proof {
        lemma_round_up(len, q, ((q + 1) as usize) << 12usize);
    }
    let size = (q + 1) << PAGE_SIZE_BITS;
    let v_start = start;
    let v_end = start + size;
    if !remove_va(memory_set, v_start, v_end) {
        return -1;
    }
    size as isize
}

/// What the parent knows of one of its children.
#[derive(Copy, Clone, Debug, PartialEq, Eq, Structural)]
pub struct ChildTask {
    pub pid: usize,
    pub zombie: bool,
    pub exit_code: i32,
}

/// Whether `waitpid(pid)` waits for `child`: -1 waits for any child.
pub open spec fn waits_for(pid: isize, child: ChildTask) -> bool {
    pid == -1 || pid as usize == child.pid
}

/// Whether `i` is the first child that `waitpid(pid)` can reap: an exited
/// child it waits for.
pub open spec fn first_reapable(children: Seq<ChildTask>, pid: isize, i: int) -> bool {
    &&& 0 <= i < children.len()
    &&& children[i].zombie && waits_for(pid, children[i])
    &&& forall|j: int| 0 <= j < i ==> !(#[trigger] children[j].zombie && waits_for(pid, children[j]))
}

/// What `waitpid(pid)` answers as `r` and makes of the children `before`
/// (giving `after`): -1 when no child is named, -2 when the named ones are
/// all running, else the first reapable child leaves and its pid and exit
/// code are handed back.
pub open spec fn waitpid_done(before: Seq<ChildTask>, after: Seq<ChildTask>, pid: isize, r: (isize, Option<i32>)) -> bool {
    &&& !(exists|i: int| 0 <= i < before.len() && waits_for(pid, #[trigger] before[i])) ==> r == (
        -1isize,
        None::<i32>,
    ) && after == before
    &&& (exists|i: int| 0 <= i < before.len() && waits_for(pid, #[trigger] before[i])) && !(exists|i: int|
        first_reapable(before, pid, i)) ==> r == (-2isize, None::<i32>) && after == before
    &&& forall|i: int| #![trigger first_reapable(before, pid, i)]
        first_reapable(before, pid, i) ==> {
            &&& r == (before[i].pid as isize, Some(before[i].exit_code))
            &&& after == before.remove(i)
        }
}

/// Reaps the first exited child that `pid` names (any child for -1): it
/// leaves `children` and its pid and exit code are returned. -1 when no
/// child is named, -2 when the named children are all still running.
pub fn sys_waitpid(children: &mut Vec<ChildTask>, pid: isize) -> (r: (isize, Option<i32>))
    ensures
        waitpid_done(old(children)@, final(children)@, pid, r),
{
    let mut found = false;
    let mut k: usize = 0;
    while k < children.len()
        invariant_except_break
            !found,
        invariant
            children@ == old(children)@,
            k <= children@.len(),
            forall|j: int| 0 <= j < k ==> !waits_for(pid, #[trigger] children@[j]),
        ensures
            found ==> exists|i: int| 0 <= i < children@.len() && waits_for(pid, #[trigger] children@[i]),
            !found ==> forall|j: int| 0 <= j < children@.len() ==> !waits_for(pid, #[trigger] children@[j]),
        decreases children@.len() - k,
    {
        if pid == -1 || pid as usize == children[k].pid {
            found = true;
            proof {
                assert(waits_for(pid, children@[k as int]));
            }
            break;
        }
        k += 1;
    }
    if !found {
        return (-1, None);
    }
    let mut idx: usize = 0;
    while idx < children.len()
        invariant
            children@ == old(children)@,
            idx <= children@.len(),
            forall|j: int| 0 <= j < idx ==> !(#[trigger] children@[j].zombie && waits_for(pid, children@[j])),
        decreases children@.len() - idx,
    {
        if children[idx].zombie && (pid == -1 || pid as usize == children[idx].pid) {
            let child = children.remove(idx);
            proof {
                assert(first_reapable(old(children)@, pid, idx as int));
                assert forall|i: int| first_reapable(old(children)@, pid, i) implies i == idx by {
                    if i < idx {
                        assert(!(old(children)@[i].zombie && waits_for(pid, old(children)@[i])));
                    } else if i > idx {
                        assert(!(old(children)@[idx as int].zombie && waits_for(pid, old(children)@[idx as int])));
                    }
                }
            }
            return (child.pid as isize, Some(child.exit_code));
        }
        idx += 1;
    }
    proof {
        assert forall|i: int| !first_reapable(old(children)@, pid, i) by {
            if 0 <= i < old(children)@.len() {
                assert(!(old(children)@[i].zombie && waits_for(pid, old(children)@[i])));
            }
        }
    }
    (-2, None)
}

/// Unmapping with the start and length of a successful map is accepted,
/// reports the same size, and gives back the areas as they were before the
/// map.
pub proof fn law_munmap_undoes_mmap(areas: Seq<MapArea>, start: usize, len: usize, port: usize)
    requires
        mmap_early_answer(start, len, port) is None,
        start + page_round_up(len as int) <= usize::MAX,
        conflict_free(areas, floor(start), floor((start + page_round_up(len as int)) as usize)),
    ensures
        ({
            let size = mapped_size(len);
            let l = floor(start);
            let h = floor((start + size) as usize);
            let added = MapArea {
                vpn_range: VpnRange { start: l as usize, end: h as usize },
                map_perm: mmap_permission(port),
            };
            &&& len >= 1
            &&& size as int == page_round_up(len as int)
            &&& start % PAGE_SIZE == 0
            &&& start + size <= usize::MAX
            &&& has_match(areas.push(added), l, h)
            &&& forall|i: int| first_match(areas.push(added), l, h, i) ==> areas.push(added).remove(i) == areas
        }),
{
    let size = page_round_up(len as int);
    assert(size >= PAGE_SIZE);
    let l = floor(start);
    let h = floor((start + size) as usize);
    assert(l < h);
    let added = MapArea {
        vpn_range: VpnRange { start: l as usize, end: h as usize },
        map_perm: mmap_permission(port),
    };
    law_remove_undoes_insert(areas, added);
}

/// A successful `mmap` maps exactly the pages asked for, and the new area's
/// permission is user-accessible, readable exactly when bit 0 of `port` is
/// set, writable exactly when bit 1 is, and executable exactly when bit 2 is.
pub proof fn law_mmap_permission_bits()
    ensures
        forall|ms: &mut MemorySet, start: usize, len: usize, port: usize, frames_allocated: bool, r: isize|
            #[trigger] call_ensures(sys_mmap, (ms, start, len, port, frames_allocated), r) && r > 0 ==> {
                let perm = final(ms).areas@.last().map_perm;
                &&& final(ms).areas@.len() == (*ms).areas@.len() + 1
                &&& final(ms).areas@.last().vpn_range.start == start / PAGE_SIZE
                &&& final(ms).areas@.last().vpn_range.end == ((start + r) as usize) / PAGE_SIZE
                &&& (r as int) % 4096 == 0 && len <= r < len + 4096
                &&& (perm & MAP_PERM_U) != 0
                &&& ((perm & MAP_PERM_R) != 0 <==> (port & 1) != 0)
                &&& ((perm & MAP_PERM_W) != 0 <==> (port & 2) != 0)
                &&& ((perm & MAP_PERM_X) != 0 <==> (port & 4) != 0)
            },
{
    assert forall|ms: &mut MemorySet, start: usize, len: usize, port: usize, frames_allocated: bool, r: isize|
        #[trigger] call_ensures(sys_mmap, (ms, start, len, port, frames_allocated), r) && r > 0 implies {
            let perm = final(ms).areas@.last().map_perm;
            &&& final(ms).areas@.len() == (*ms).areas@.len() + 1
            &&& final(ms).areas@.last().vpn_range.start == start / PAGE_SIZE
            &&& final(ms).areas@.last().vpn_range.end == ((start + r) as usize) / PAGE_SIZE
            &&& (r as int) % 4096 == 0 && len <= r < len + 4096
            &&& (perm & MAP_PERM_U) != 0
            &&& ((perm & MAP_PERM_R) != 0 <==> (port & 1) != 0)
            &&& ((perm & MAP_PERM_W) != 0 <==> (port & 2) != 0)
            &&& ((perm & MAP_PERM_X) != 0 <==> (port & 4) != 0)
        } by {
        assert(mmap_early_answer(start, len, port) is None);
        let size = page_round_up(len as int);
        let l = floor(start);
        let h = floor((start + size) as usize);
        assert(conflict_free((*ms).areas@, l, h) && frames_allocated);
        assert(r == size);
        assert(final(ms).areas@ == (*ms).areas@.push(
            MapArea { vpn_range: VpnRange { start: l as usize, end: h as usize }, map_perm: mmap_permission(port) },
        ));
        let q = (len as int + 4095) / 4096;
        assert(size == q * 4096);
        assert((q * 4096) % 4096 == 0) by (nonlinear_arith);
        assert(len <= q * 4096 < len + 4096) by (nonlinear_arith)
            requires
                q == (len as int + 4095) / 4096,
                len >= 1,
        ;
        let perm = mmap_permission(port);
        assert(port < 8);
        assert((perm & 16u8) != 0) by (bit_vector)
            requires
                perm == ((16u8 + (if port & 1 != 0 { 2u8 } else { 0u8 }) + (if port & 2 != 0 { 4u8 } else { 0u8 }) + (if port & 4 != 0 { 8u8 } else { 0u8 })) as u8),
        ;
        assert(((perm & 2u8) != 0 <==> (port & 1) != 0) && ((perm & 4u8) != 0 <==> (port & 2) != 0) && ((perm & 8u8) != 0 <==> (port & 4) != 0)) by (bit_vector)
            requires
                perm == ((16u8 + (if port & 1 != 0 { 2u8 } else { 0u8 }) + (if port & 2 != 0 { 4u8 } else { 0u8 }) + (if port & 4 != 0 { 8u8 } else { 0u8 })) as u8),
        ;
    }
}

} // verus!
