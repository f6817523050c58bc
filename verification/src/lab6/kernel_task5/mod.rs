//! The journaling kernel: one file whose updates go through a write-ahead
//! log on a host-backed disk image, so that a crash after commit is repaired
//! by replaying the log at the next boot.
pub mod abi;
pub mod hostio;
pub mod image_codec;
pub mod journal;
pub mod kernel;
pub mod syscall;
pub mod user_test;
