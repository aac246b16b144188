use vstd::prelude::*;
use std::sync::Arc;
use crate::fs::File;
use crate::fs::mail::clipped;
use crate::task::MemorySet;
use crate::task::manager::TaskManager;
use self::fs::{close_done, mail_read_done, mail_write_done, sys_close, sys_mail_read, sys_mail_write, sys_read, sys_write};
use self::process::{
    mmap_done, mmap_early_answer, munmap_done, mapped_size, page_round_up, sys_get_time, sys_getpid, sys_mmap,
    sys_munmap, sys_set_priority, sys_waitpid, waitpid_done, ChildTask, TimeVal,
};

pub mod fs;
pub mod process;

verus! {

pub const SYSCALL_DUP: usize = 24;
pub const SYSCALL_OPEN: usize = 56;
pub const SYSCALL_CLOSE: usize = 57;
pub const SYSCALL_PIPE: usize = 59;
pub const SYSCALL_READ: usize = 63;
pub const SYSCALL_WRITE: usize = 64;
pub const SYSCALL_LINKAT: usize = 37;
pub const SYSCALL_UNLINKAT: usize = 35;
pub const SYSCALL_FSTAT: usize = 80;
pub const SYSCALL_EXIT: usize = 93;
pub const SYSCALL_YIELD: usize = 124;
pub const SYSCALL_GET_TIME: usize = 169;
pub const SYSCALL_GETPID: usize = 172;
pub const SYSCALL_FORK: usize = 220;
pub const SYSCALL_EXEC: usize = 221;
pub const SYSCALL_WAITPID: usize = 260;
pub const SYSCALL_SET_PRIO: usize = 140;
pub const SYSCALL_MMAP: usize = 222;
pub const SYSCALL_MUNMAP: usize = 215;
pub const SYSCALL_SPAWN: usize = 400;
pub const SYSCALL_MAILREAD: usize = 401;
pub const SYSCALL_MAILWRITE: usize = 402;

/// A system call as the kernel takes it up: which handler runs and the
/// arguments it gets, user addresses as plain numbers.
#[derive(Copy, Clone, Debug, PartialEq, Eq, Structural)]
pub enum SyscallRequest {
    Dup { fd: usize },
    Open { dirfd: usize, path: usize, flags: u32, mode: u32 },
    Close { fd: usize },
    Pipe { pipe: usize },
    Read { fd: usize, buf: usize, len: usize },
    Write { fd: usize, buf: usize, len: usize },
    Linkat { old_dirfd: usize, old_path: usize, new_dirfd: usize, new_path: usize, flags: usize },
    Unlinkat { dirfd: usize, path: usize, flags: usize },
    Fstat { fd: u32, st: usize },
    Exit { exit_code: i32 },
    Yield,
    Getpid,
    Fork,
    Exec { path: usize, args: usize },
    Waitpid { pid: isize, exit_code_ptr: usize },
    GetTime { ptr: usize },
    SetPriority { prio: isize },
    Mmap { start: usize, len: usize, port: usize },
    Munmap { start: usize, len: usize },
    Spawn { path: usize },
    MailRead { buf: usize, len: usize },
    MailWrite { pid: usize, buf: usize, len: usize },
}

/// The request that call number `id` with argument registers `a` stands
/// for, or `None` for a number the kernel does not serve.
pub open spec fn decode(id: usize, a: Seq<usize>) -> Option<SyscallRequest> {
    if id == SYSCALL_DUP {
        Some(SyscallRequest::Dup { fd: a[0] })
    } else if id == SYSCALL_OPEN {
        Some(SyscallRequest::Open { dirfd: a[0], path: a[1], flags: a[2] as u32, mode: a[3] as u32 })
    } else if id == SYSCALL_CLOSE {
        Some(SyscallRequest::Close { fd: a[0] })
    } else if id == SYSCALL_PIPE {
        Some(SyscallRequest::Pipe { pipe: a[0] })
    } else if id == SYSCALL_READ {
        Some(SyscallRequest::Read { fd: a[0], buf: a[1], len: a[2] })
    } else if id == SYSCALL_WRITE {
        Some(SyscallRequest::Write { fd: a[0], buf: a[1], len: a[2] })
    } else if id == SYSCALL_LINKAT {
        Some(SyscallRequest::Linkat { old_dirfd: a[0], old_path: a[1], new_dirfd: a[2], new_path: a[3], flags: a[4] })
    } else if id == SYSCALL_UNLINKAT {
        Some(SyscallRequest::Unlinkat { dirfd: a[0], path: a[1], flags: a[2] })
    } else if id == SYSCALL_FSTAT {
        Some(SyscallRequest::Fstat { fd: a[0] as u32, st: a[1] })
    } else if id == SYSCALL_EXIT {
        Some(SyscallRequest::Exit { exit_code: a[0] as i32 })
    } else if id == SYSCALL_YIELD {
        Some(SyscallRequest::Yield)
    } else if id == SYSCALL_GETPID {
        Some(SyscallRequest::Getpid)
    } else if id == SYSCALL_FORK {
        Some(SyscallRequest::Fork)
    } else if id == SYSCALL_EXEC {
        Some(SyscallRequest::Exec { path: a[0], args: a[1] })
    } else if id == SYSCALL_WAITPID {
        Some(SyscallRequest::Waitpid { pid: a[0] as isize, exit_code_ptr: a[1] })
    } else if id == SYSCALL_GET_TIME {
        Some(SyscallRequest::GetTime { ptr: a[0] })
    } else if id == SYSCALL_SET_PRIO {
        Some(SyscallRequest::SetPriority { prio: a[0] as isize })
    } else if id == SYSCALL_MMAP {
        Some(SyscallRequest::Mmap { start: a[0], len: a[1], port: a[2] })
    } else if id == SYSCALL_MUNMAP {
        Some(SyscallRequest::Munmap { start: a[0], len: a[1] })
    } else if id == SYSCALL_SPAWN {
        Some(SyscallRequest::Spawn { path: a[0] })
    } else if id == SYSCALL_MAILREAD {
        Some(SyscallRequest::MailRead { buf: a[0], len: a[1] })
    } else if id == SYSCALL_MAILWRITE {
        Some(SyscallRequest::MailWrite { pid: a[0], buf: a[1], len: a[2] })
    } else {
        None
    }
}

/// Whether the kernel serves call number `id`.
pub open spec fn serves(id: usize) -> bool {
    id == SYSCALL_DUP || id == SYSCALL_OPEN || id == SYSCALL_CLOSE || id == SYSCALL_PIPE || id == SYSCALL_READ
        || id == SYSCALL_WRITE || id == SYSCALL_LINKAT || id == SYSCALL_UNLINKAT || id == SYSCALL_FSTAT
        || id == SYSCALL_EXIT || id == SYSCALL_YIELD || id == SYSCALL_GETPID || id == SYSCALL_FORK
        || id == SYSCALL_EXEC || id == SYSCALL_WAITPID || id == SYSCALL_GET_TIME || id == SYSCALL_SET_PRIO
        || id == SYSCALL_MMAP || id == SYSCALL_MUNMAP || id == SYSCALL_SPAWN || id == SYSCALL_MAILREAD
        || id == SYSCALL_MAILWRITE
}

/// Whether the kernel serves call number `syscall_id`; the trap handler
/// stops the kernel on any other number before it decodes the call.
pub fn is_served(syscall_id: usize) -> (r: bool)
    ensures
        r == serves(syscall_id),
{
    syscall_id == SYSCALL_DUP || syscall_id == SYSCALL_OPEN || syscall_id == SYSCALL_CLOSE
        || syscall_id == SYSCALL_PIPE || syscall_id == SYSCALL_READ || syscall_id == SYSCALL_WRITE
        || syscall_id == SYSCALL_LINKAT || syscall_id == SYSCALL_UNLINKAT || syscall_id == SYSCALL_FSTAT
        || syscall_id == SYSCALL_EXIT || syscall_id == SYSCALL_YIELD || syscall_id == SYSCALL_GETPID
        || syscall_id == SYSCALL_FORK || syscall_id == SYSCALL_EXEC || syscall_id == SYSCALL_WAITPID
        || syscall_id == SYSCALL_GET_TIME || syscall_id == SYSCALL_SET_PRIO || syscall_id == SYSCALL_MMAP
        || syscall_id == SYSCALL_MUNMAP || syscall_id == SYSCALL_SPAWN || syscall_id == SYSCALL_MAILREAD
        || syscall_id == SYSCALL_MAILWRITE
}

/// Selects the handler for call number `syscall_id`, which the kernel must
/// serve, and takes its arguments from the five argument registers.
pub fn decode_request(syscall_id: usize, args: [usize; 5]) -> (r: SyscallRequest)
    requires
        serves(syscall_id),
    ensures
        decode(syscall_id, args@) == Some(r),
{
    if syscall_id == SYSCALL_DUP {
        SyscallRequest::Dup { fd: args[0] }
    } else if syscall_id == SYSCALL_OPEN {
        SyscallRequest::Open { dirfd: args[0], path: args[1], flags: args[2] as u32, mode: args[3] as u32 }
    } else if syscall_id == SYSCALL_CLOSE {
        SyscallRequest::Close { fd: args[0] }
    } else if syscall_id == SYSCALL_PIPE {
        SyscallRequest::Pipe { pipe: args[0] }
    } else if syscall_id == SYSCALL_READ {
        SyscallRequest::Read { fd: args[0], buf: args[1], len: args[2] }
    } else if syscall_id == SYSCALL_WRITE {
        SyscallRequest::Write { fd: args[0], buf: args[1], len: args[2] }
    } else if syscall_id == SYSCALL_LINKAT {
        SyscallRequest::Linkat {
            old_dirfd: args[0],
            old_path: args[1],
            new_dirfd: args[2],
            new_path: args[3],
            flags: args[4],
        }
    } else if syscall_id == SYSCALL_UNLINKAT {
        SyscallRequest::Unlinkat { dirfd: args[0], path: args[1], flags: args[2] }
    } else if syscall_id == SYSCALL_FSTAT {
        SyscallRequest::Fstat { fd: args[0] as u32, st: args[1] }
    } else if syscall_id == SYSCALL_EXIT {
        SyscallRequest::Exit { exit_code: args[0] as i32 }
    } else if syscall_id == SYSCALL_YIELD {
        SyscallRequest::Yield
    } else if syscall_id == SYSCALL_GETPID {
        SyscallRequest::Getpid
    } else if syscall_id == SYSCALL_FORK {
        SyscallRequest::Fork
    } else if syscall_id == SYSCALL_EXEC {
        SyscallRequest::Exec { path: args[0], args: args[1] }
    } else if syscall_id == SYSCALL_WAITPID {
        SyscallRequest::Waitpid { pid: args[0] as isize, exit_code_ptr: args[1] }
    } else if syscall_id == SYSCALL_GET_TIME {
        SyscallRequest::GetTime { ptr: args[0] }
    } else if syscall_id == SYSCALL_SET_PRIO {
        SyscallRequest::SetPriority { prio: args[0] as isize }
    } else if syscall_id == SYSCALL_MMAP {
        SyscallRequest::Mmap { start: args[0], len: args[1], port: args[2] }
    } else if syscall_id == SYSCALL_MUNMAP {
        SyscallRequest::Munmap { start: args[0], len: args[1] }
    } else if syscall_id == SYSCALL_SPAWN {
        SyscallRequest::Spawn { path: args[0] }
    } else if syscall_id == SYSCALL_MAILREAD {
        SyscallRequest::MailRead { buf: args[0], len: args[1] }
    } else if syscall_id == SYSCALL_MAILWRITE {
        SyscallRequest::MailWrite { pid: args[0], buf: args[1], len: args[2] }
    } else {
        proof {
            assert(false);
        }
        SyscallRequest::Yield
    }
}

/// The state of the calling task that the handlers here read and change.
pub struct TaskContext<F> {
    pub pid: usize,
    pub prio: isize,
    pub memory_set: MemorySet,
    pub children: Vec<ChildTask>,
    pub fd_table: Vec<Option<Arc<F>>>,
}

/// What a system call hands back to the trap handler.
#[derive(Copy, Clone, Debug, PartialEq, Eq, Structural)]
pub enum SyscallResult {
    /// The value returned to the caller.
    Return(isize),
    /// `waitpid` reaped a child: `pid` is returned and `exit_code` is stored
    /// where the caller asked.
    Reaped { pid: isize, exit_code: i32 },
    /// `get_time`: the time is stored where the caller asked and 0 returned.
    Time(TimeVal),
    /// A call served by the kernel's process and file-system code.
    Elsewhere(SyscallRequest),
}

/// What the arguments of a call must meet for its handler not to panic: the
/// buffer handed in is the caller's translated buffer, and the address
/// arithmetic of `mmap` and `munmap` does not overflow.
pub open spec fn call_requires(req: SyscallRequest, buf_len: int, mapped: bool) -> bool {
    match req {
        SyscallRequest::Read { len, .. } => buf_len == len,
        SyscallRequest::Write { len, .. } => buf_len == len,
        SyscallRequest::MailRead { len, .. } => mapped ==> buf_len == clipped(len as int),
        SyscallRequest::MailWrite { len, .. } => mapped ==> buf_len == clipped(len as int),
        SyscallRequest::Mmap { start, len, port } => mmap_early_answer(start, len, port) is None ==> start
            + page_round_up(len as int) <= usize::MAX,
        SyscallRequest::Munmap { start, len } => start % 4096 == 0 ==> len >= 1 && start + mapped_size(len)
            <= usize::MAX,
        _ => true,
    }
}

/// Runs system call `syscall_id` with argument registers `args` for the
/// calling task `task`. `buf` is the caller's buffer that a read, write or
/// mail call names, translated by the trap handler (`mapped` tells whether
/// all of it is mapped); `frames_allocated` is whether the frame allocator
/// could back an `mmap`; `clock_ms` are the two clock readings `get_time`
/// takes. Calls of the kernel's process and file-system code come back as
/// `Elsewhere`.
pub fn syscall<F: File, T>(
    syscall_id: usize,
    args: [usize; 5],
    task: &mut TaskContext<F>,
    manager: &mut TaskManager<T>,
    buf: &mut [u8],
    mapped: bool,
    frames_allocated: bool,
    clock_ms: (usize, usize),
) -> (r: SyscallResult)
    requires
        serves(syscall_id),
        call_requires(decode(syscall_id, args@).unwrap(), old(buf)@.len() as int, mapped),
    ensures
        final(task).pid == old(task).pid,
        decode(syscall_id, args@).unwrap() matches SyscallRequest::MailWrite { pid, len, .. } ==> exists|
            m: &mut TaskManager<T>,
            d: &[u8],
            v: isize,
        |
            #[trigger] call_ensures(sys_mail_write::<T>, (m, pid, len, mapped, d), v) && *m == *old(manager)
                && *final(m) == *final(manager) && d@ == old(buf)@ && r == SyscallResult::Return(v),
        decode(syscall_id, args@).unwrap() matches SyscallRequest::MailRead { len, .. } ==> exists|
            m: &mut TaskManager<T>,
            b: &mut [u8],
            v: isize,
        |
            #[trigger] call_ensures(sys_mail_read::<T>, (m, old(task).pid, len, mapped, b), v) && *m == *old(manager)
                && *final(m) == *final(manager) && b@ == old(buf)@ && final(b)@ == final(buf)@
                && r == SyscallResult::Return(v),
        ({
            let req = decode(syscall_id, args@).unwrap();
            &&& !(req is Mmap || req is Munmap) ==> final(task).memory_set.areas@ == old(task).memory_set.areas@
            &&& !(req is Waitpid) ==> final(task).children@ == old(task).children@
            &&& !(req is SetPriority) ==> final(task).prio == old(task).prio
            &&& !(req is Close) ==> final(task).fd_table@ == old(task).fd_table@
            &&& !(req is MailRead || req is MailWrite) ==> final(manager).mailboxes() == old(manager).mailboxes()
            &&& final(manager).ready() == old(manager).ready()
            &&& !(req is Read || req is MailRead) ==> final(buf)@ == old(buf)@
            &&& match req {
                SyscallRequest::MailRead { len, .. } => r matches SyscallResult::Return(v) && mail_read_done(
                    old(manager).mailboxes(),
                    final(manager).mailboxes(),
                    old(task).pid,
                    len,
                    mapped,
                    old(buf)@,
                    final(buf)@,
                    v as int,
                ),
                SyscallRequest::MailWrite { pid, len, .. } => r matches SyscallResult::Return(v) && mail_write_done(
                    old(manager).mailboxes(),
                    final(manager).mailboxes(),
                    pid,
                    len,
                    mapped,
                    old(buf)@,
                    v as int,
                ),
                SyscallRequest::Mmap { start, len, port } => r matches SyscallResult::Return(v) && mmap_done(
                    old(task).memory_set.areas@,
                    final(task).memory_set.areas@,
                    start,
                    len,
                    port,
                    frames_allocated,
                    v as int,
                ),
                SyscallRequest::Munmap { start, len } => r matches SyscallResult::Return(v) && munmap_done(
                    old(task).memory_set.areas@,
                    final(task).memory_set.areas@,
                    start,
                    len,
                    v as int,
                ),
                SyscallRequest::Waitpid { pid, .. } => exists|w: (isize, Option<i32>)|
                    #[trigger] waitpid_done(old(task).children@, final(task).children@, pid, w) && match w.1 {
                        Some(code) => r == SyscallResult::Reaped { pid: w.0, exit_code: code },
                        None => r == SyscallResult::Return(w.0),
                    },
                SyscallRequest::SetPriority { prio } => if prio >= 2 {
                    r == SyscallResult::Return(prio) && final(task).prio == prio
                } else {
                    r == SyscallResult::Return(-1isize)
                },
                SyscallRequest::Getpid => r == SyscallResult::Return(old(task).pid as isize),
                SyscallRequest::GetTime { .. } => r == SyscallResult::Time(
                    TimeVal { sec: clock_ms.0 / 1000, usec: ((clock_ms.1 % 1000) * 1000) as usize },
                ),
                SyscallRequest::Close { fd } => r matches SyscallResult::Return(v) && close_done(
                    old(task).fd_table@,
                    final(task).fd_table@,
                    fd,
                    v as int,
                ),
                SyscallRequest::Write { fd, .. } => r matches SyscallResult::Return(v) && {
                    &&& fd >= old(task).fd_table@.len() || old(task).fd_table@[fd as int] is None ==> v == -1
                    &&& fd < old(task).fd_table@.len() && old(task).fd_table@[fd as int] is Some ==> exists|n: usize|
                        #[trigger] call_ensures(F::write, (&*old(task).fd_table@[fd as int].unwrap(), &*old(buf)), n)
                            && v == n as isize
                },
                SyscallRequest::Read { fd, .. } => r matches SyscallResult::Return(v) && {
                    &&& fd >= old(task).fd_table@.len() || old(task).fd_table@[fd as int] is None ==> v == -1
                        && final(buf)@ == old(buf)@
                    &&& fd < old(task).fd_table@.len() && old(task).fd_table@[fd as int] is Some ==> exists|
                        n: usize,
                        b: &mut [u8],
                    |
                        #[trigger] call_ensures(F::read, (&*old(task).fd_table@[fd as int].unwrap(), b), n) && b@
                            == old(buf)@ && final(b)@ == final(buf)@ && v == n as isize
                },
                _ => r == SyscallResult::Elsewhere(req),
            }
        }),
{
    let req = decode_request(syscall_id, args);
    match req {
        SyscallRequest::MailRead { len, .. } => SyscallResult::Return(
            sys_mail_read(manager, task.pid, len, mapped, buf),
        ),
        SyscallRequest::MailWrite { pid, len, .. } => SyscallResult::Return(
            sys_mail_write(manager, pid, len, mapped, buf),
        ),
        SyscallRequest::Mmap { start, len, port } => SyscallResult::Return(
            sys_mmap(&mut task.memory_set, start, len, port, frames_allocated),
        ),
        SyscallRequest::Munmap { start, len } => SyscallResult::Return(sys_munmap(&mut task.memory_set, start, len)),
        SyscallRequest::Waitpid { pid, .. } => {
            let w = sys_waitpid(&mut task.children, pid);
            proof {
                assert(waitpid_done(old(task).children@, final(task).children@, pid, w));
            }
            match w.1 {
                Some(code) => SyscallResult::Reaped { pid: w.0, exit_code: code },
                None => SyscallResult::Return(w.0),
            }
        },
        SyscallRequest::SetPriority { prio } => SyscallResult::Return(sys_set_priority(&mut task.prio, prio)),
        SyscallRequest::Getpid => SyscallResult::Return(sys_getpid(task.pid)),
        SyscallRequest::GetTime { .. } => SyscallResult::Time(sys_get_time(clock_ms.0, clock_ms.1)),
        SyscallRequest::Close { fd } => SyscallResult::Return(sys_close(&mut task.fd_table, fd)),
        SyscallRequest::Write { fd, .. } => SyscallResult::Return(sys_write(&task.fd_table, fd, buf)),
        SyscallRequest::Read { fd, .. } => SyscallResult::Return(sys_read(&task.fd_table, fd, buf)),
        _ => SyscallResult::Elsewhere(req),
    }
}

} // verus!
