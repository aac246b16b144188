use rcore_os::syscall::process::{
    sys_get_time, sys_getpid, sys_mmap, sys_munmap, sys_set_priority, sys_waitpid, ChildTask, TimeVal,
};
use rcore_os::task::{MapArea, MemorySet, VpnRange};

#[test]
fn priority_at_least_two() {
    let mut prio: isize = 16;
    assert_eq!(sys_set_priority(&mut prio, 1), -1);
    assert_eq!(prio, 16);
    assert_eq!(sys_set_priority(&mut prio, 2), 2);
    assert_eq!(prio, 2);
    assert_eq!(sys_set_priority(&mut prio, -5), -1);
    assert_eq!(prio, 2);
}

#[test]
fn getpid_and_time() {
    assert_eq!(sys_getpid(42), 42);
    assert_eq!(sys_get_time(12_345, 12_345), TimeVal { sec: 12, usec: 345_000 });
    assert_eq!(sys_get_time(999, 1_001), TimeVal { sec: 0, usec: 1_000 });
}

#[test]
fn mmap_early_refusals() {
    let mut ms = MemorySet { areas: vec![] };
    assert_eq!(sys_mmap(&mut ms, 0x1000, 0x1000, 8, true), -1);
    assert_eq!(sys_mmap(&mut ms, 0x1000, 0x1000, 0, true), -1);
    assert_eq!(sys_mmap(&mut ms, 0x1000, (1 << 30) + 1, 3, true), -1);
    assert_eq!(sys_mmap(&mut ms, 0x1001, 0x1000, 3, true), -1);
    assert_eq!(sys_mmap(&mut ms, 0x1001, 0, 3, true), 0);
    assert!(ms.areas.is_empty());
}

#[test]
fn mmap_rounds_up_and_sets_permissions() {
    let mut ms = MemorySet { areas: vec![] };
    assert_eq!(sys_mmap(&mut ms, 0x10000000, 1, 1, true), 0x1000);
    assert_eq!(ms.areas[0], MapArea { vpn_range: VpnRange { start: 0x10000, end: 0x10001 }, map_perm: 2 | 16 });
    assert_eq!(sys_mmap(&mut ms, 0x10001000, 0x1001, 7, true), 0x2000);
    assert_eq!(ms.areas[1].map_perm, 2 | 4 | 8 | 16);
    assert_eq!(sys_mmap(&mut ms, 0x10003000, 1 << 30, 6, true), 1 << 30);
    assert_eq!(ms.areas[2].map_perm, 4 | 8 | 16);
    // without frames the request fails cleanly
    assert_eq!(sys_mmap(&mut ms, 0x50000000, 0x1000, 3, false), -1);
    // overlapping request refused
    assert_eq!(sys_mmap(&mut ms, 0x10000000, 0x1000, 3, true), -1);
    assert_eq!(ms.areas.len(), 3);
}

#[test]
fn munmap_undoes_mmap() {
    let mut ms = MemorySet { areas: vec![] };
    assert_eq!(sys_mmap(&mut ms, 0x20000000, 0x1800, 3, true), 0x2000);
    assert_eq!(sys_munmap(&mut ms, 0x20000001, 0x1800), -1);
    assert_eq!(sys_munmap(&mut ms, 0x20000000, 0x1000), -1);
    assert_eq!(sys_munmap(&mut ms, 0x20000000, 0x1800), 0x2000);
    assert!(ms.areas.is_empty());
    assert_eq!(sys_munmap(&mut ms, 0x20000000, 0x1800), -1);
}

fn child(pid: usize, zombie: bool, exit_code: i32) -> ChildTask {
    ChildTask { pid, zombie, exit_code }
}

#[test]
fn waitpid_cases() {
    let mut children = vec![child(3, false, 0), child(4, true, 7), child(5, true, -2)];
    assert_eq!(sys_waitpid(&mut children, 9), (-1, None));
    assert_eq!(sys_waitpid(&mut children, 3), (-2, None));
    assert_eq!(children.len(), 3);
    assert_eq!(sys_waitpid(&mut children, 5), (5, Some(-2)));
    assert_eq!(children, vec![child(3, false, 0), child(4, true, 7)]);
    assert_eq!(sys_waitpid(&mut children, -1), (4, Some(7)));
    assert_eq!(sys_waitpid(&mut children, -1), (-2, None));
    children.clear();
    assert_eq!(sys_waitpid(&mut children, -1), (-1, None));
}
