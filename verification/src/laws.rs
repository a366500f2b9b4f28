//! General laws of the engine, stated and proved over the ghost models
//! that the execution contracts use.

use vstd::prelude::*;
use crate::Coord;
use crate::code::CodeGrid;
use crate::memory::MemoryGrid;
use crate::direction::dir_advance;
use crate::inst;
use crate::ports::{InputEvent, OutputMode};
use crate::thread::{ThreadModel, step_model, wrap_inc, wrap_dec};

verus! {

/// A never-written cell reads as zero: any coordinate outside the grown
/// extent, and so every coordinate of a fresh or reset grid.
pub proof fn lemma_unwritten_cell_zero(m: MemoryGrid, c: Coord)
    requires
        c.1 >= m.rows@.len() || c.0 >= m.rows@[c.1 as int]@.len(),
    ensures
        m.at(c) == 0u32,
{
}

/// Cell arithmetic wraps at the 32-bit boundary: incrementing the largest
/// representable value yields 0, decrementing 0 yields that value, and
/// away from the boundary both act as ordinary successor and predecessor.
pub proof fn lemma_cell_wrap()
    ensures
        wrap_inc(0xffff_ffffu32) == 0u32,
        wrap_dec(0u32) == 0xffff_ffffu32,
        forall|v: u32| v < 0xffff_ffffu32 ==> #[trigger] wrap_inc(v) == v + 1,
        forall|v: u32| v > 0u32 ==> #[trigger] wrap_dec(v) == v - 1,
{
}

/// A split with no cell ahead buffers no spawn: the step hands out no
/// child thread.  The acting thread's own advance then lands on the same
/// absent cell, so that step terminates it over the grid's edge.
pub proof fn lemma_split_at_edge_no_spawn(
    code: CodeGrid,
    mem: MemoryGrid,
    t: ThreadModel,
    inp: Seq<InputEvent>,
    outm: OutputMode,
    rnd: u32,
)
    requires
        code.in_bounds(t.ip),
        code.at(t.ip) == inst::SPLIT,
        match dir_advance(t.dir, t.ip, 1) {
            Some(c) => !code.in_bounds(c),
            None => true,
        },
    ensures
        step_model(code, mem, t, inp, outm, rnd).spawn is None,
        step_model(code, mem, t, inp, outm, rnd).exit is Some,
{
}

/// On a read that would block — an empty input queue, or a front event
/// that reports no data yet — the instruction pointer does not advance:
/// the thread retries the same instruction, writes nothing, neither
/// exits nor fails.
pub proof fn lemma_read_would_block_holds_ip(
    code: CodeGrid,
    mem: MemoryGrid,
    t: ThreadModel,
    inp: Seq<InputEvent>,
    outm: OutputMode,
    rnd: u32,
)
    requires
        code.in_bounds(t.ip),
        code.at(t.ip) == inst::READ,
        inp.len() == 0 || inp[0] == InputEvent::WouldBlock,
    ensures
        step_model(code, mem, t, inp, outm, rnd).fail is None,
        step_model(code, mem, t, inp, outm, rnd).exit is None,
        step_model(code, mem, t, inp, outm, rnd).thread == t,
        step_model(code, mem, t, inp, outm, rnd).write is None,
{
}

/// Once a byte is available, a read stores it (widened) at the memory
/// pointer, consumes it, and the instruction pointer advances normally.
pub proof fn lemma_read_ready_advances(
    code: CodeGrid,
    mem: MemoryGrid,
    t: ThreadModel,
    inp: Seq<InputEvent>,
    outm: OutputMode,
    rnd: u32,
    b: u8,
)
    requires
        code.in_bounds(t.ip),
        code.at(t.ip) == inst::READ,
        inp.len() > 0,
        inp[0] == InputEvent::Byte(b),
    ensures
        ({
            let m = step_model(code, mem, t, inp, outm, rnd);
            &&& m.fail is None
            &&& m.write == Some((t.mp, b as u32))
            &&& m.consumed
            &&& match dir_advance(t.dir, t.ip, 1) {
                Some(c) => if code.in_bounds(c) {
                    m.exit is None && m.thread.ip == c
                } else {
                    m.exit is Some
                },
                None => m.exit is Some,
            }
        }),
{
}

} // verus!
