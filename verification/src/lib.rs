//! The verified core of Exuberant Optimizer: what the utility decides, computes
//! and says, over whole numbers and text.
//!
//! The window, the system calls and the figures that the system reports stay
//! outside. They hand the library what they read and carry out what it decides.
//! Floating point stays outside too: the processor share of a process, and
//! timer resolutions in milliseconds with their bounds.

pub mod affinity;
pub mod clock;
pub mod control;
pub mod listing;
pub mod memory;
pub mod ntstatus;
pub mod optimizer;
pub mod process;
pub mod sort_key;
pub mod text;
pub mod timer;
