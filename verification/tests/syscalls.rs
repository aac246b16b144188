use rcore_os::console::{set_log_status, LogLevel};
use rcore_os::syscall::{decode_request, is_served, SyscallRequest};
use rcore_os::user::syscall as user;

fn kernel_view(e: user::Ecall) -> SyscallRequest {
    decode_request(e.id, [e.args[0], e.args[1], e.args[2], 0xdead, 0xbeef])
}

#[test]
fn unknown_call_number() {
    assert!(!is_served(0));
    assert!(!is_served(403));
    assert!(!is_served(usize::MAX));
    for id in [24, 35, 37, 56, 57, 59, 63, 64, 80, 93, 124, 140, 169, 172, 215, 220, 221, 222, 260, 400, 401, 402] {
        assert!(is_served(id));
    }
}

#[test]
fn kernel_decodes_user_calls() {
    assert_eq!(kernel_view(user::sys_dup(3)), SyscallRequest::Dup { fd: 3 });
    assert_eq!(kernel_view(user::sys_close(4)), SyscallRequest::Close { fd: 4 });
    assert_eq!(kernel_view(user::sys_pipe(0x1000)), SyscallRequest::Pipe { pipe: 0x1000 });
    assert_eq!(kernel_view(user::sys_read(0, 0x2000, 10)), SyscallRequest::Read { fd: 0, buf: 0x2000, len: 10 });
    assert_eq!(kernel_view(user::sys_write(1, 0x3000, 5)), SyscallRequest::Write { fd: 1, buf: 0x3000, len: 5 });
    assert_eq!(kernel_view(user::sys_unlinkat(9, 0x10, 0)), SyscallRequest::Unlinkat { dirfd: 9, path: 0x10, flags: 0 });
    assert_eq!(kernel_view(user::sys_fstat(3, 0x40)), SyscallRequest::Fstat { fd: 3, st: 0x40 });
    assert_eq!(kernel_view(user::sys_fstat(usize::MAX, 0x40)), SyscallRequest::Fstat { fd: u32::MAX, st: 0x40 });
    assert_eq!(kernel_view(user::sys_exit(-3)), SyscallRequest::Exit { exit_code: -3 });
    assert_eq!(kernel_view(user::sys_yield()), SyscallRequest::Yield);
    assert_eq!(kernel_view(user::sys_set_priority(-7)), SyscallRequest::SetPriority { prio: -7 });
    assert_eq!(kernel_view(user::sys_get_time(0x50, 0)), SyscallRequest::GetTime { ptr: 0x50 });
    assert_eq!(kernel_view(user::sys_mmap(0x1000, 8, 3)), SyscallRequest::Mmap { start: 0x1000, len: 8, port: 3 });
    assert_eq!(kernel_view(user::sys_munmap(0x1000, 8)), SyscallRequest::Munmap { start: 0x1000, len: 8 });
    assert_eq!(kernel_view(user::sys_getpid()), SyscallRequest::Getpid);
    assert_eq!(kernel_view(user::sys_fork()), SyscallRequest::Fork);
    assert_eq!(kernel_view(user::sys_exec(0x60, 0x70)), SyscallRequest::Exec { path: 0x60, args: 0x70 });
    assert_eq!(kernel_view(user::sys_waitpid(-1, 0x80)), SyscallRequest::Waitpid { pid: -1, exit_code_ptr: 0x80 });
    assert_eq!(kernel_view(user::sys_spawn(0x90)), SyscallRequest::Spawn { path: 0x90 });
    assert_eq!(kernel_view(user::sys_mail_read(0xa0, 27)), SyscallRequest::MailRead { buf: 0xa0, len: 27 });
    assert_eq!(
        kernel_view(user::sys_mail_write(2, 0xb0, 257)),
        SyscallRequest::MailWrite { pid: 2, buf: 0xb0, len: 257 }
    );
}

#[test]
fn kernel_decodes_five_register_calls() {
    let e = user::sys_openat(1, 0x100, 0x201, 0o644);
    assert_eq!(e.id, 56);
    assert_eq!(decode_request(e.id, e.args), SyscallRequest::Open { dirfd: 1, path: 0x100, flags: 0x201, mode: 0o644 });
    let e = user::sys_linkat(1, 0x10, 2, 0x20, 0);
    assert_eq!(
        decode_request(e.id, e.args),
        SyscallRequest::Linkat { old_dirfd: 1, old_path: 0x10, new_dirfd: 2, new_path: 0x20, flags: 0 }
    );
}

#[test]
fn user_frames() {
    assert_eq!(user::sys_dup(3), user::Ecall { id: 24, args: [3, 0, 0] });
    assert_eq!(user::sys_mail_write(2, 0xb0, 9), user::Ecall { id: 402, args: [2, 0xb0, 9] });
    assert_eq!(user::sys_exit(-1), user::Ecall { id: 93, args: [usize::MAX, 0, 0] });
}

#[test]
fn log_levels() {
    assert_eq!(set_log_status(Some(LogLevel::Trace)), 1);
    assert_eq!(set_log_status(Some(LogLevel::Debug)), 2);
    assert_eq!(set_log_status(Some(LogLevel::Info)), 3);
    assert_eq!(set_log_status(Some(LogLevel::Warn)), 4);
    assert_eq!(set_log_status(Some(LogLevel::Error)), 5);
    assert_eq!(set_log_status(None), 3);
}
