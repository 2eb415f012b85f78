pub mod callback;
pub mod platform;
pub mod shared_memory;
pub mod syscalls;
