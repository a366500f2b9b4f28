//! Instruction bytes and the validity predicate for grid cells.

use vstd::prelude::*;

verus! {

/// Filler byte for padded or reset cells: the ASCII space.
pub const BLANK: u8 = 0x20;
/// Explicit start marker.
pub const START: u8 = 0x24;

/// Move the memory pointer one cell left.
pub const LEFT: u8 = 0x3c;
/// Move the memory pointer one cell right.
pub const RIGHT: u8 = 0x3e;
/// Increment the current memory cell (wrapping).
pub const INCR: u8 = 0x2b;
/// Decrement the current memory cell (wrapping).
pub const DECR: u8 = 0x2d;
/// Read one byte from the input source into the current cell.
pub const READ: u8 = 0x2c;
/// Write the current cell, truncated to a byte, to the output sink.
pub const WRITE: u8 = 0x2e;
/// Turn: Right<->Down, Left<->Up.
pub const LURD: u8 = 0x5c;
/// Turn: Right<->Up, Down<->Left.
pub const RULD: u8 = 0x2f;
/// Skip the next cell unconditionally.
pub const SKIP: u8 = 0x21;
/// Skip the next cell if the current memory cell is zero.
pub const SKIPZ: u8 = 0x3f;

/// Push the instruction pointer onto the call stack.
pub const ENTER: u8 = 0x40;
/// Pop the call stack, or terminate the thread when it is empty.
pub const LEAVE: u8 = 0x23;

/// Move the memory pointer one cell up.
pub const UP: u8 = 0x3a;
/// Move the memory pointer one cell down.
pub const DOWN: u8 = 0x3b;
/// Spawn a child thread at the cell ahead.
pub const SPLIT: u8 = 0x26;
/// Overwrite the current memory cell with a random value.
pub const RAND: u8 = 0x25;

/// A grid cell may hold the blank byte or any printable-graphic ASCII byte.
pub open spec fn valid_byte(i: u8) -> bool {
    i == BLANK || (0x21 <= i && i <= 0x7e)
}

/// Whether a byte may stand in a code grid cell: blank or graphic ASCII.
pub fn is_valid(i: u8) -> (r: bool)
    ensures
        r == valid_byte(i),
{
    i == BLANK || (0x21 <= i && i <= 0x7e)
}

} // verus!
