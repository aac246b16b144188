pub mod console;
pub mod fs;
pub mod syscall;
pub mod task;
pub mod user;
