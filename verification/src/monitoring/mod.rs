//! The decisions of the loops that poll a monitored process.

pub mod child_process;
pub mod disk;
pub mod memory_allocation;
pub mod poll;
pub mod thread;
pub mod virtual_memory;
