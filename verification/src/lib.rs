//! Interpreter core for a two-dimensional, thread-spawning esoteric language.
//!
//! Program text lives on a rectangular grid of instruction bytes; control flow
//! is directional movement across that grid.  The crate provides the code
//! grid, the sparse memory grid, the per-thread stepping machine and the
//! cooperative tick scheduler.  I/O is exchanged with the surrounding driver
//! as plain event values, so the whole engine is a pure state transition.

pub mod inst;
pub mod direction;
pub mod code;
pub mod memory;
pub mod ports;
pub mod thread;
pub mod program;
pub mod laws;

pub use direction::Direction;
pub use code::CodeGrid;
pub use memory::MemoryGrid;
pub use ports::{InputEvent, InputQueue, OutputMode, OutputSink, EngineError, StepResult};
pub use thread::Thread;
pub use program::Program;

use vstd::prelude::*;

verus! {

/// A pair (column, row): both grids are addressed by such non-negative pairs.
pub type Coord = (usize, usize);

} // verus!
