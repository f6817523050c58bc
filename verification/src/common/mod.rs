//! Pieces shared by every kernel: specifications of names, user memory ranges,
//! timer arithmetic, the trap-frame layout and the user-side system call ABI.
pub mod abi;
pub mod names;
pub mod text;
pub mod time;
pub mod user_mem;
