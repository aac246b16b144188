pub mod syscall;
pub mod shell;
