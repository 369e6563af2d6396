//! Process and memory management core of a small teaching kernel: the task
//! control block, the user address space with its mapping engine, and the
//! system calls a task uses to query its state and manage its memory.

pub mod config;
pub mod permission;
pub mod task;
pub mod manager;
pub mod mapping;
pub mod syscall;
pub mod memory;
