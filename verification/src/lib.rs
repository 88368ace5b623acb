//! A verified real-time kernel core: priority bitmaps, tick-driven
//! scheduling, software timers, and the synchronization and data-transfer
//! primitives built on them.
//!
//! The kernel multiplexes a fixed set of tasks onto one processor under
//! strict priority scheduling.  Everything the scheduler decides is a
//! verified function of its state; the hardware work around it -- masking
//! interrupts, saving and restoring registers, running timer callbacks --
//! is the embedding's part, driven by what these functions return.

#![verifier::loop_isolation(false)]

pub mod bitvec;
pub mod kernel;
pub mod stream;
pub mod sync;
pub mod task;
pub mod time;
pub mod timer;
