//! Verified core of a process performance monitor: the bucketed running
//! average, the sample statistics, the decisions of the polling loops, the
//! parsing of the `/proc` text they read, and the summary of captured packets.

pub mod avg;
pub mod stats;
pub mod text;
pub mod monitoring;
pub mod packet;
pub mod duration;
pub mod args;
pub mod process;
