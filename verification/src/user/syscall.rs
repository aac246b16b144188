use vstd::prelude::*;
use crate::syscall::{SyscallRequest, decode};

verus! {

pub const SYSCALL_DUP: usize = 24;
pub const SYSCALL_OPENAT: usize = 56;
pub const SYSCALL_CLOSE: usize = 57;
pub const SYSCALL_PIPE: usize = 59;
pub const SYSCALL_READ: usize = 63;
pub const SYSCALL_WRITE: usize = 64;
pub const SYSCALL_UNLINKAT: usize = 35;
pub const SYSCALL_LINKAT: usize = 37;
pub const SYSCALL_FSTAT: usize = 80;
pub const SYSCALL_EXIT: usize = 93;
pub const SYSCALL_YIELD: usize = 124;
pub const SYSCALL_GET_TIME: usize = 169;
pub const SYSCALL_GETPID: usize = 172;
pub const SYSCALL_FORK: usize = 220;
pub const SYSCALL_EXEC: usize = 221;
pub const SYSCALL_WAITPID: usize = 260;
pub const SYSCALL_SET_PRIO: usize = 140;
pub const SYSCALL_MMAP: usize = 222;
pub const SYSCALL_MUNMAP: usize = 215;
pub const SYSCALL_SPAWN: usize = 400;
pub const SYSCALL_MAILREAD: usize = 401;
pub const SYSCALL_MAILWRITE: usize = 402;

/// A trap into the kernel that sets three argument registers: the call
/// number and the values of `a0`, `a1`, `a2`.
#[derive(Copy, Clone, Debug, PartialEq, Eq)]
pub struct Ecall {
    pub id: usize,
    pub args: [usize; 3],
}

/// A trap into the kernel that sets five argument registers.
#[derive(Copy, Clone, Debug, PartialEq, Eq)]
pub struct Ecall5 {
    pub id: usize,
    pub args: [usize; 5],
}

/// The request the kernel takes up from a three-register trap `e`, whatever
/// the two registers it leaves alone hold.
pub open spec fn kernel_sees(e: Ecall, req: SyscallRequest) -> bool {
    forall|a3: usize, a4: usize| #[trigger] decode(e.id, e.args@.push(a3).push(a4)) == Some(req)
}

/// The request the kernel takes up from a five-register trap `e`.
pub open spec fn kernel_sees5(e: Ecall5, req: SyscallRequest) -> bool {
    decode(e.id, e.args@) == Some(req)
}

/// The kernel decodes a three-register trap of any call but `open` and
/// `linkat` from its three registers alone: when it decodes them, padded
/// with zeros, to `req`, it decodes them to `req` whatever the other two
/// registers hold.
proof fn lemma_untouched_registers(e: Ecall, req: SyscallRequest)
    requires
        e.id != crate::syscall::SYSCALL_OPEN,
        e.id != crate::syscall::SYSCALL_LINKAT,
        decode(e.id, e.args@.push(0usize).push(0usize)) == Some(req),
    ensures
        kernel_sees(e, req),
{
    assert forall|a3: usize, a4: usize| #[trigger] decode(e.id, e.args@.push(a3).push(a4)) == Some(req) by {
        let p = e.args@.push(a3).push(a4);
        let z = e.args@.push(0usize).push(0usize);
        assert(p[0] == z[0] && p[1] == z[1] && p[2] == z[2]);
        assert(decode(e.id, p) == decode(e.id, z));
    }
}

/// Duplicates descriptor `fd`.
pub fn sys_dup(fd: usize) -> (r: Ecall)
    ensures
        r == (Ecall { id: SYSCALL_DUP, args: [fd, 0, 0] }),
        kernel_sees(r, SyscallRequest::Dup { fd }),
{
    let r = Ecall { id: SYSCALL_DUP, args: [fd, 0, 0] };
    proof {
        lemma_untouched_registers(r, SyscallRequest::Dup { fd });
    }
    r
}

/// Opens the file whose name starts at address `path`.
pub fn sys_openat(dirfd: usize, path: usize, flags: u32, mode: u32) -> (r: Ecall5)
    ensures
        r == (Ecall5 { id: SYSCALL_OPENAT, args: [dirfd, path, flags as usize, mode as usize, 0] }),
        kernel_sees5(r, SyscallRequest::Open { dirfd, path, flags, mode }),
{
    assert((flags as usize) as u32 == flags) by (bit_vector);
    assert((mode as usize) as u32 == mode) by (bit_vector);
    Ecall5 { id: SYSCALL_OPENAT, args: [dirfd, path, flags as usize, mode as usize, 0] }
}

/// Closes descriptor `fd`.
pub fn sys_close(fd: usize) -> (r: Ecall)
    ensures
        r == (Ecall { id: SYSCALL_CLOSE, args: [fd, 0, 0] }),
        kernel_sees(r, SyscallRequest::Close { fd }),
{
    let r = Ecall { id: SYSCALL_CLOSE, args: [fd, 0, 0] };
    proof {
        lemma_untouched_registers(r, SyscallRequest::Close { fd });
    }
    r
}

/// Makes a pipe; its two descriptors go to the two words at address `pipe`.
pub fn sys_pipe(pipe: usize) -> (r: Ecall)
    ensures
        r == (Ecall { id: SYSCALL_PIPE, args: [pipe, 0, 0] }),
        kernel_sees(r, SyscallRequest::Pipe { pipe }),
{
    let r = Ecall { id: SYSCALL_PIPE, args: [pipe, 0, 0] };
    proof {
        lemma_untouched_registers(r, SyscallRequest::Pipe { pipe });
    }
    r
}

/// Reads from `fd` into the `len` bytes at address `buffer`.
pub fn sys_read(fd: usize, buffer: usize, len: usize) -> (r: Ecall)
    ensures
        r == (Ecall { id: SYSCALL_READ, args: [fd, buffer, len] }),
        kernel_sees(r, SyscallRequest::Read { fd, buf: buffer, len }),
{
    let r = Ecall { id: SYSCALL_READ, args: [fd, buffer, len] };
    proof {
        lemma_untouched_registers(r, SyscallRequest::Read { fd, buf: buffer, len });
    }
    r
}

/// Writes the `len` bytes at address `buffer` to `fd`.
pub fn sys_write(fd: usize, buffer: usize, len: usize) -> (r: Ecall)
    ensures
        r == (Ecall { id: SYSCALL_WRITE, args: [fd, buffer, len] }),
        kernel_sees(r, SyscallRequest::Write { fd, buf: buffer, len }),
{
    let r = Ecall { id: SYSCALL_WRITE, args: [fd, buffer, len] };
    proof {
        lemma_untouched_registers(r, SyscallRequest::Write { fd, buf: buffer, len });
    }
    r
}

/// Links the name at `new_path` to the file named at `old_path`.
pub fn sys_linkat(old_dirfd: usize, old_path: usize, new_dirfd: usize, new_path: usize, flags: usize) -> (r: Ecall5)
    ensures
        r == (Ecall5 { id: SYSCALL_LINKAT, args: [old_dirfd, old_path, new_dirfd, new_path, flags] }),
        kernel_sees5(r, SyscallRequest::Linkat { old_dirfd, old_path, new_dirfd, new_path, flags }),
{
    Ecall5 { id: SYSCALL_LINKAT, args: [old_dirfd, old_path, new_dirfd, new_path, flags] }
}

/// Removes the name at address `path`.
pub fn sys_unlinkat(dirfd: usize, path: usize, flags: usize) -> (r: Ecall)
    ensures
        r == (Ecall { id: SYSCALL_UNLINKAT, args: [dirfd, path, flags] }),
        kernel_sees(r, SyscallRequest::Unlinkat { dirfd, path, flags }),
{
    let r = Ecall { id: SYSCALL_UNLINKAT, args: [dirfd, path, flags] };
    proof {
        lemma_untouched_registers(r, SyscallRequest::Unlinkat { dirfd, path, flags });
    }
    r
}

/// Asks for the status of `fd`, written at address `st`; the kernel reads the descriptor as 32 bits.
pub fn sys_fstat(fd: usize, st: usize) -> (r: Ecall)
    ensures
        r == (Ecall { id: SYSCALL_FSTAT, args: [fd, st, 0] }),
        kernel_sees(r, SyscallRequest::Fstat { fd: fd as u32, st }),
{
    let r = Ecall { id: SYSCALL_FSTAT, args: [fd, st, 0] };
    proof {
        lemma_untouched_registers(r, SyscallRequest::Fstat { fd: fd as u32, st });
    }
    r
}

/// Ends the calling process with `exit_code`.
pub fn sys_exit(exit_code: i32) -> (r: Ecall)
    ensures
        r == (Ecall { id: SYSCALL_EXIT, args: [exit_code as usize, 0, 0] }),
        kernel_sees(r, SyscallRequest::Exit { exit_code }),
{
    assert((exit_code as usize) as i32 == exit_code) by (bit_vector);
    let r = Ecall { id: SYSCALL_EXIT, args: [exit_code as usize, 0, 0] };
    proof {
        lemma_untouched_registers(r, SyscallRequest::Exit { exit_code });
    }
    r
}

/// Gives up the processor.
pub fn sys_yield() -> (r: Ecall)
    ensures
        r == (Ecall { id: SYSCALL_YIELD, args: [0, 0, 0] }),
        kernel_sees(r, SyscallRequest::Yield),
{
    let r = Ecall { id: SYSCALL_YIELD, args: [0, 0, 0] };
    proof {
        lemma_untouched_registers(r, SyscallRequest::Yield);
    }
    r
}

/// Sets the caller's priority to `prio`.
pub fn sys_set_priority(prio: isize) -> (r: Ecall)
    ensures
        r == (Ecall { id: SYSCALL_SET_PRIO, args: [prio as usize, 0, 0] }),
        kernel_sees(r, SyscallRequest::SetPriority { prio }),
{
    assert((prio as usize) as isize == prio) by (bit_vector);
    let r = Ecall { id: SYSCALL_SET_PRIO, args: [prio as usize, 0, 0] };
    proof {
        lemma_untouched_registers(r, SyscallRequest::SetPriority { prio });
    }
    r
}

/// Asks for the time, written at address `time`; the kernel ignores `tz`.
pub fn sys_get_time(time: usize, tz: usize) -> (r: Ecall)
    ensures
        r == (Ecall { id: SYSCALL_GET_TIME, args: [time, tz, 0] }),
        kernel_sees(r, SyscallRequest::GetTime { ptr: time }),
{
    let r = Ecall { id: SYSCALL_GET_TIME, args: [time, tz, 0] };
    proof {
        lemma_untouched_registers(r, SyscallRequest::GetTime { ptr: time });
    }
    r
}

/// Maps `len` bytes at `start` with protection `port`.
pub fn sys_mmap(start: usize, len: usize, port: usize) -> (r: Ecall)
    ensures
        r == (Ecall { id: SYSCALL_MMAP, args: [start, len, port] }),
        kernel_sees(r, SyscallRequest::Mmap { start, len, port }),
{
    let r = Ecall { id: SYSCALL_MMAP, args: [start, len, port] };
    proof {
        lemma_untouched_registers(r, SyscallRequest::Mmap { start, len, port });
    }
    r
}

/// Unmaps `len` bytes at `start`.
pub fn sys_munmap(start: usize, len: usize) -> (r: Ecall)
    ensures
        r == (Ecall { id: SYSCALL_MUNMAP, args: [start, len, 0] }),
        kernel_sees(r, SyscallRequest::Munmap { start, len }),
{
    let r = Ecall { id: SYSCALL_MUNMAP, args: [start, len, 0] };
    proof {
        lemma_untouched_registers(r, SyscallRequest::Munmap { start, len });
    }
    r
}

/// Asks for the caller's pid.
pub fn sys_getpid() -> (r: Ecall)
    ensures
        r == (Ecall { id: SYSCALL_GETPID, args: [0, 0, 0] }),
        kernel_sees(r, SyscallRequest::Getpid),
{
    let r = Ecall { id: SYSCALL_GETPID, args: [0, 0, 0] };
    proof {
        lemma_untouched_registers(r, SyscallRequest::Getpid);
    }
    r
}

/// Forks the caller.
pub fn sys_fork() -> (r: Ecall)
    ensures
        r == (Ecall { id: SYSCALL_FORK, args: [0, 0, 0] }),
        kernel_sees(r, SyscallRequest::Fork),
{
    let r = Ecall { id: SYSCALL_FORK, args: [0, 0, 0] };
    proof {
        lemma_untouched_registers(r, SyscallRequest::Fork);
    }
    r
}

/// Runs the program named at `path` with the argument list at `args`.
pub fn sys_exec(path: usize, args: usize) -> (r: Ecall)
    ensures
        r == (Ecall { id: SYSCALL_EXEC, args: [path, args, 0] }),
        kernel_sees(r, SyscallRequest::Exec { path, args }),
{
    let r = Ecall { id: SYSCALL_EXEC, args: [path, args, 0] };
    proof {
        lemma_untouched_registers(r, SyscallRequest::Exec { path, args });
    }
    r
}

/// Waits for child `pid` (-1: any); its exit code goes to address `exit_code`.
pub fn sys_waitpid(pid: isize, exit_code: usize) -> (r: Ecall)
    ensures
        r == (Ecall { id: SYSCALL_WAITPID, args: [pid as usize, exit_code, 0] }),
        kernel_sees(r, SyscallRequest::Waitpid { pid, exit_code_ptr: exit_code }),
{
    assert((pid as usize) as isize == pid) by (bit_vector);
    let r = Ecall { id: SYSCALL_WAITPID, args: [pid as usize, exit_code, 0] };
    proof {
        lemma_untouched_registers(r, SyscallRequest::Waitpid { pid, exit_code_ptr: exit_code });
    }
    r
}

/// Starts the program named at `path` as a new child.
pub fn sys_spawn(path: usize) -> (r: Ecall)
    ensures
        r == (Ecall { id: SYSCALL_SPAWN, args: [path, 0, 0] }),
        kernel_sees(r, SyscallRequest::Spawn { path }),
{
    let r = Ecall { id: SYSCALL_SPAWN, args: [path, 0, 0] };
    proof {
        lemma_untouched_registers(r, SyscallRequest::Spawn { path });
    }
    r
}

/// Receives a mail into the `len` bytes at `buf`.
pub fn sys_mail_read(buf: usize, len: usize) -> (r: Ecall)
    ensures
        r == (Ecall { id: SYSCALL_MAILREAD, args: [buf, len, 0] }),
        kernel_sees(r, SyscallRequest::MailRead { buf, len }),
{
    let r = Ecall { id: SYSCALL_MAILREAD, args: [buf, len, 0] };
    proof {
        lemma_untouched_registers(r, SyscallRequest::MailRead { buf, len });
    }
    r
}

/// Sends the `len` bytes at `buf` as a mail to process `pid`.
pub fn sys_mail_write(pid: usize, buf: usize, len: usize) -> (r: Ecall)
    ensures
        r == (Ecall { id: SYSCALL_MAILWRITE, args: [pid, buf, len] }),
        kernel_sees(r, SyscallRequest::MailWrite { pid, buf, len }),
{
    let r = Ecall { id: SYSCALL_MAILWRITE, args: [pid, buf, len] };
    proof {
        lemma_untouched_registers(r, SyscallRequest::MailWrite { pid, buf, len });
    }
    r
}

} // verus!
