//! Process and task management core of a teaching operating-system kernel:
//! task/process control blocks, the stride-fairness scheduler, synchronization
//! primitives with deadlock detection, and the virtual-memory mapping syscalls.
//!
//! Context switching, trap handling, program loading, page-table internals and
//! the timer tick are external collaborators; they appear here only as the
//! plain values they hand this core (a loaded image's entry point and stack
//! pointer, the current time, an allocated pid or kernel stack top).

pub mod bytes;
pub mod detect;
pub mod manager;
pub mod mem;
pub mod task;
pub mod process;
pub mod stride;
pub mod sync;
pub mod syscall;

use vstd::prelude::*;

verus! {

} // verus!
