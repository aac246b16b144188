use std::sync::Arc;
use rcore_os::fs::File;
use rcore_os::syscall::process::{ChildTask, TimeVal};
use rcore_os::syscall::{syscall, SyscallRequest, SyscallResult, TaskContext};
use rcore_os::task::manager::TaskManager;
use rcore_os::task::MemorySet;

struct Ones;

impl File for Ones {
    fn read(&self, buf: &mut [u8]) -> usize {
        for b in buf.iter_mut() {
            *b = 1;
        }
        buf.len()
    }

    fn write(&self, buf: &[u8]) -> usize {
        buf.len()
    }
}

fn task() -> TaskContext<Ones> {
    TaskContext {
        pid: 7,
        prio: 16,
        memory_set: MemorySet { areas: vec![] },
        children: vec![ChildTask { pid: 8, zombie: true, exit_code: 3 }],
        fd_table: vec![None, Some(Arc::new(Ones))],
    }
}

fn run(t: &mut TaskContext<Ones>, m: &mut TaskManager<u8>, id: usize, args: [usize; 5], buf: &mut [u8]) -> SyscallResult {
    syscall(id, args, t, m, buf, true, true, (12_345, 67_890))
}

#[test]
fn mail_through_the_dispatcher() {
    let mut t = task();
    let mut m: TaskManager<u8> = TaskManager::new();
    let mut data = [b'q'; 5];
    assert_eq!(run(&mut t, &mut m, 402, [7, 0x1000, 5, 0, 0], &mut data), SyscallResult::Return(5));
    let mut buf = [0u8; 5];
    assert_eq!(run(&mut t, &mut m, 401, [0x2000, 5, 0, 0, 0], &mut buf), SyscallResult::Return(5));
    assert_eq!(buf, [b'q'; 5]);
    assert_eq!(run(&mut t, &mut m, 401, [0x2000, 5, 0, 0, 0], &mut buf), SyscallResult::Return(-1));
}

#[test]
fn memory_priority_pid_time_wait() {
    let mut t = task();
    let mut m: TaskManager<u8> = TaskManager::new();
    let mut none: [u8; 0] = [];
    assert_eq!(run(&mut t, &mut m, 222, [0x10000000, 0x1000, 3, 0, 0], &mut none), SyscallResult::Return(0x1000));
    assert_eq!(t.memory_set.areas.len(), 1);
    assert_eq!(run(&mut t, &mut m, 215, [0x10000000, 0x1000, 0, 0, 0], &mut none), SyscallResult::Return(0x1000));
    assert!(t.memory_set.areas.is_empty());
    assert_eq!(run(&mut t, &mut m, 140, [5, 0, 0, 0, 0], &mut none), SyscallResult::Return(5));
    assert_eq!(t.prio, 5);
    assert_eq!(run(&mut t, &mut m, 172, [0; 5], &mut none), SyscallResult::Return(7));
    assert_eq!(run(&mut t, &mut m, 169, [0x40, 0, 0, 0, 0], &mut none), SyscallResult::Time(TimeVal { sec: 12, usec: 890_000 }));
    assert_eq!(run(&mut t, &mut m, 260, [usize::MAX, 0x50, 0, 0, 0], &mut none), SyscallResult::Reaped { pid: 8, exit_code: 3 });
    assert_eq!(run(&mut t, &mut m, 260, [usize::MAX, 0x50, 0, 0, 0], &mut none), SyscallResult::Return(-1));
}

#[test]
fn mmap_without_frames_fails() {
    let mut t = task();
    let mut m: TaskManager<u8> = TaskManager::new();
    let mut none: [u8; 0] = [];
    let r = syscall(222, [0x10000000, 0x1000, 3, 0, 0], &mut t, &mut m, &mut none, true, false, (0, 0));
    assert_eq!(r, SyscallResult::Return(-1));
    assert!(t.memory_set.areas.is_empty());
}

#[test]
fn files_and_other_calls() {
    let mut t = task();
    let mut m: TaskManager<u8> = TaskManager::new();
    let mut buf = [0u8; 3];
    assert_eq!(run(&mut t, &mut m, 63, [1, 0x10, 3, 0, 0], &mut buf), SyscallResult::Return(3));
    assert_eq!(buf, [1; 3]);
    assert_eq!(run(&mut t, &mut m, 64, [0, 0x10, 3, 0, 0], &mut buf), SyscallResult::Return(-1));
    let mut none: [u8; 0] = [];
    assert_eq!(run(&mut t, &mut m, 57, [1, 0, 0, 0, 0], &mut none), SyscallResult::Return(0));
    assert!(t.fd_table[1].is_none());
    assert_eq!(run(&mut t, &mut m, 220, [0; 5], &mut none), SyscallResult::Elsewhere(SyscallRequest::Fork));
    assert_eq!(run(&mut t, &mut m, 93, [5, 0, 0, 0, 0], &mut none), SyscallResult::Elsewhere(SyscallRequest::Exit { exit_code: 5 }));
}
