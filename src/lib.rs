//! An interpreter for a small 8-bit virtual machine with sixteen registers,
//! 4 KiB of memory, a 64 by 32 monochrome screen and a sixteen-key pad.
//!
//! `instruction` decodes and encodes the 16-bit instruction words, `cpu`
//! executes them one step at a time against the shared I/O surface, `text`
//! renders instructions and state for inspection, `timing` paces the driver
//! loop, and `laws` states what holds across several operations.
use vstd::prelude::*;

pub mod cpu;
pub mod error;
mod host;
pub mod instruction;
pub mod laws;
pub mod register;
pub mod text;
pub mod timing;

verus! {

} // verus!
