//! A verified interpreter core for the Synacor architecture: a 16-bit word
//! machine with 32768 words of memory, eight registers, a LIFO stack and 22
//! instructions.  The decoder, the instruction semantics and the step
//! function are specified against a mathematical model of the machine and
//! proved to follow it.

use vstd::prelude::*;

pub mod types;
pub mod parser;
pub mod semantics;
pub mod program;
pub mod image;
pub mod laws;

verus! {

/// The machine's unit of storage and computation: an unsigned 16-bit integer.
pub type Word = u16;

} // verus!
