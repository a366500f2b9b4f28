//! One execution cursor and its single-step transition function.
//!
//! A thread is an instruction pointer, a memory pointer, a direction and a
//! call stack.  `step` consumes exactly one instruction; its whole effect is
//! pinned down by the ghost transition function `step_model`, so the engine
//! is a pure state machine over plain values.

use vstd::prelude::*;
use crate::Coord;
use crate::code::CodeGrid;
use crate::memory::MemoryGrid;
use crate::direction::{Direction, dir_advance, turn_lurd, turn_ruld};
use crate::inst;
use crate::ports::{InputEvent, InputQueue, OutputMode, OutputSink, EngineError, StepResult};

verus! {

/// One execution cursor: instruction pointer, memory pointer, direction
/// and call stack.  Code and memory are different coordinate spaces.
#[derive(Debug)]
pub struct Thread {
    pub inst_ptr: Coord,
    pub mem_ptr: Coord,
    pub call_stack: Vec<Coord>,
    pub dir: Direction,
}

/// The ghost state of one thread.
pub ghost struct ThreadModel {
    pub ip: Coord,
    pub mp: Coord,
    pub stack: Seq<Coord>,
    pub dir: Direction,
}

impl View for Thread {
    type V = ThreadModel;

    open spec fn view(&self) -> ThreadModel {
        ThreadModel {
            ip: self.inst_ptr,
            mp: self.mem_ptr,
            stack: self.call_stack@,
            dir: self.dir,
        }
    }
}

/// Incrementing wraps at the 32-bit boundary.
pub open spec fn wrap_inc(v: u32) -> u32 {
    if v == 0xffff_ffffu32 {
        0u32
    } else {
        (v + 1) as u32
    }
}

/// Decrementing wraps at the 32-bit boundary.
pub open spec fn wrap_dec(v: u32) -> u32 {
    if v == 0u32 {
        0xffff_ffffu32
    } else {
        (v - 1) as u32
    }
}

/// The whole effect of one thread step.
pub ghost struct StepModel {
    /// A fatal failure, aborting the tick; nothing else took effect.
    pub fail: Option<EngineError>,
    /// The thread's state after the step.
    pub thread: ThreadModel,
    /// The thread's exit value, when this step terminated it.
    pub exit: Option<u32>,
    /// The one memory cell written, if any.
    pub write: Option<(Coord, u32)>,
    /// The child thread handed to the spawn buffer, if any.
    pub spawn: Option<ThreadModel>,
    /// Whether the front input event was consumed.
    pub consumed: bool,
    /// The byte handed to the output sink, if any.
    pub emitted: Option<u8>,
}

/// What a failing step reports: the error, with no other effect.
pub open spec fn failed_model(t: ThreadModel, e: EngineError, consumed: bool) -> StepModel {
    StepModel {
        fail: Some(e),
        thread: t,
        exit: None,
        write: None,
        spawn: None,
        consumed,
        emitted: None,
    }
}

/// The value the cell `c` reads as once the step's write is applied.
pub open spec fn mem_after(mem: MemoryGrid, w: Option<(Coord, u32)>, c: Coord) -> u32 {
    match w {
        Some(wv) => if c == wv.0 {
            wv.1
        } else {
            mem.at(c)
        },
        None => mem.at(c),
    }
}

/// The shared advance step at the end of every non-failing instruction:
/// move `adv` cells along the thread's direction; inside the grid the
/// thread goes on, otherwise it terminates with the current cell's value.
pub open spec fn advance_model(
    code: CodeGrid,
    mem: MemoryGrid,
    t: ThreadModel,
    adv: int,
    write: Option<(Coord, u32)>,
    spawn: Option<ThreadModel>,
    consumed: bool,
    emitted: Option<u8>,
) -> StepModel {
    let fallen = StepModel {
        fail: None,
        thread: t,
        exit: Some(mem_after(mem, write, t.mp)),
        write,
        spawn,
        consumed,
        emitted,
    };
    match dir_advance(t.dir, t.ip, adv) {
        Some(c) => if code.in_bounds(c) {
            StepModel {
                fail: None,
                thread: ThreadModel { ip: c, mp: t.mp, stack: t.stack, dir: t.dir },
                exit: None,
                write,
                spawn,
                consumed,
                emitted,
            }
        } else {
            fallen
        },
        None => fallen,
    }
}

/// The transition function of one thread step: from the grids, the thread,
/// the pending input, the sink's mode and the value a random draw would
/// yield, to the step's whole effect.
pub open spec fn step_model(
    code: CodeGrid,
    mem: MemoryGrid,
    t: ThreadModel,
    inp: Seq<InputEvent>,
    outm: OutputMode,
    rnd: u32,
) -> StepModel
    recommends
        code.in_bounds(t.ip),
{
    let op = code.at(t.ip);
    if op == inst::LEFT {
        match dir_advance(Direction::Left, t.mp, 1) {
            Some(c) => advance_model(
                code, mem,
                ThreadModel { ip: t.ip, mp: c, stack: t.stack, dir: t.dir },
                1, None, None, false, None,
            ),
            None => failed_model(t, EngineError::OutOfBounds, false),
        }
    } else if op == inst::RIGHT {
        match dir_advance(Direction::Right, t.mp, 1) {
            Some(c) => advance_model(
                code, mem,
                ThreadModel { ip: t.ip, mp: c, stack: t.stack, dir: t.dir },
                1, None, None, false, None,
            ),
            None => failed_model(t, EngineError::OutOfBounds, false),
        }
    } else if op == inst::UP {
        match dir_advance(Direction::Up, t.mp, 1) {
            Some(c) => advance_model(
                code, mem,
                ThreadModel { ip: t.ip, mp: c, stack: t.stack, dir: t.dir },
                1, None, None, false, None,
            ),
            None => failed_model(t, EngineError::OutOfBounds, false),
        }
    } else if op == inst::DOWN {
        match dir_advance(Direction::Down, t.mp, 1) {
            Some(c) => advance_model(
                code, mem,
                ThreadModel { ip: t.ip, mp: c, stack: t.stack, dir: t.dir },
                1, None, None, false, None,
            ),
            None => failed_model(t, EngineError::OutOfBounds, false),
        }
    } else if op == inst::INCR {
        advance_model(code, mem, t, 1, Some((t.mp, wrap_inc(mem.at(t.mp)))), None, false, None)
    } else if op == inst::DECR {
        advance_model(code, mem, t, 1, Some((t.mp, wrap_dec(mem.at(t.mp)))), None, false, None)
    } else if op == inst::READ {
        if inp.len() == 0 {
            advance_model(code, mem, t, 0, None, None, false, None)
        } else {
            match inp[0] {
                InputEvent::Byte(b) => advance_model(
                    code, mem, t, 1, Some((t.mp, b as u32)), None, true, None,
                ),
                InputEvent::WouldBlock => advance_model(code, mem, t, 0, None, None, true, None),
                InputEvent::Fatal => failed_model(t, EngineError::Io, true),
            }
        }
    } else if op == inst::WRITE {
        match outm {
            OutputMode::Ready => advance_model(
                code, mem, t, 1, None, None, false, Some((mem.at(t.mp) % 256) as u8),
            ),
            OutputMode::WouldBlock => advance_model(code, mem, t, 0, None, None, false, None),
            OutputMode::Fatal => failed_model(t, EngineError::Io, false),
        }
    } else if op == inst::LURD {
        advance_model(
            code, mem,
            ThreadModel { ip: t.ip, mp: t.mp, stack: t.stack, dir: turn_lurd(t.dir) },
            1, None, None, false, None,
        )
    } else if op == inst::RULD {
        advance_model(
            code, mem,
            ThreadModel { ip: t.ip, mp: t.mp, stack: t.stack, dir: turn_ruld(t.dir) },
            1, None, None, false, None,
        )
    } else if op == inst::SKIP {
        advance_model(code, mem, t, 2, None, None, false, None)
    } else if op == inst::SKIPZ {
        advance_model(
            code, mem, t,
            if mem.at(t.mp) == 0u32 { 2int } else { 1int },
            None, None, false, None,
        )
    } else if op == inst::ENTER {
        advance_model(
            code, mem,
            ThreadModel { ip: t.ip, mp: t.mp, stack: t.stack.push(t.ip), dir: t.dir },
            1, None, None, false, None,
        )
    } else if op == inst::LEAVE {
        if t.stack.len() > 0 {
            advance_model(
                code, mem,
                ThreadModel { ip: t.stack.last(), mp: t.mp, stack: t.stack.drop_last(), dir: t.dir },
                2, None, None, false, None,
            )
        } else {
            StepModel {
                fail: None,
                thread: t,
                exit: Some(mem.at(t.mp)),
                write: None,
                spawn: None,
                consumed: false,
                emitted: None,
            }
        }
    } else if op == inst::SPLIT {
        match dir_advance(t.dir, t.ip, 1) {
            Some(c) => if code.in_bounds(c) {
                advance_model(
                    code, mem, t, 2, None,
                    Some(ThreadModel { ip: c, mp: t.mp, stack: Seq::empty(), dir: t.dir }),
                    false, None,
                )
            } else {
                advance_model(code, mem, t, 1, None, None, false, None)
            },
            None => advance_model(code, mem, t, 1, None, None, false, None),
        }
    } else if op == inst::RAND {
        advance_model(code, mem, t, 1, Some((t.mp, rnd)), None, false, None)
    } else {
        advance_model(code, mem, t, 1, None, None, false, None)
    }
}

/// What a step model reports to the scheduler.
pub open spec fn step_result_of(m: StepModel) -> StepResult {
    match m.fail {
        Some(e) => StepResult::Failed(e),
        None => match m.exit {
            Some(v) => StepResult::Finished(v),
            None => StepResult::Running,
        },
    }
}

/// The step's contract: the result, the thread, the memory, the I/O state
/// and the spawn buffer all agree with the given step model.
pub open spec fn step_post(
    m: StepModel,
    mem0: MemoryGrid,
    mem1: MemoryGrid,
    t1: ThreadModel,
    inp0: Seq<InputEvent>,
    inp1: Seq<InputEvent>,
    out0: OutputSink,
    out1: OutputSink,
    sp0: Seq<Thread>,
    sp1: Seq<Thread>,
    r: StepResult,
) -> bool {
    &&& r == step_result_of(m)
    &&& t1 == m.thread
    &&& forall|c: Coord| mem1.at(c) == mem_after(mem0, m.write, c)
    &&& inp1 == if m.consumed { inp0.skip(1) } else { inp0 }
    &&& out1.mode == out0.mode
    &&& out1.bytes@ == (match m.emitted {
        Some(b) => out0.bytes@.push(b),
        None => out0.bytes@,
    })
    &&& match m.spawn {
        Some(tm) => sp1.len() == sp0.len() + 1
            && sp1.subrange(0, sp0.len() as int) == sp0
            && sp1.last()@ == tm,
        None => sp1 == sp0,
    }
}

/// Relies on rand::random: yields some 32-bit value; nothing is assumed
/// about which, so every caller is verified for every outcome.
#[verifier::external_body]
fn random_u32() -> u32 {
    rand::random()
}

impl Thread {
    /// The initial thread: it begins at the given code cell, with the
    /// memory pointer at the origin, facing right, with an empty stack.
    pub fn start(inst_ptr: Coord) -> (r: Self)
        ensures
            r.inst_ptr == inst_ptr,
            r.mem_ptr == (0usize, 0usize),
            r.call_stack@ =~= Seq::<Coord>::empty(),
            r.dir == Direction::Right,
    {
        Thread {
            inst_ptr,
            mem_ptr: (0, 0),
            call_stack: Vec::new(),
            dir: Direction::Right,
        }
    }

    /// A child spawned by a split: it inherits the parent's memory pointer
    /// and direction, begins at the given cell with an empty stack.
    fn create_child(&self, inst_ptr: Coord) -> (r: Self)
        ensures
            r.inst_ptr == inst_ptr,
            r.mem_ptr == self.mem_ptr,
            r.call_stack@ =~= Seq::<Coord>::empty(),
            r.dir == self.dir,
    {
        Thread {
            inst_ptr,
            mem_ptr: self.mem_ptr,
            call_stack: Vec::new(),
            dir: self.dir,
        }
    }

    /// The thread's current code-grid coordinate.
    pub fn instruction_pointer(&self) -> (r: Coord)
        ensures
            r == self.inst_ptr,
    {
        self.inst_ptr
    }

    /// The thread's current memory-grid coordinate.
    pub fn memory_pointer(&self) -> (r: Coord)
        ensures
            r == self.mem_ptr,
    {
        self.mem_ptr
    }

    /// The saved instruction pointers, innermost call last.
    pub fn call_stack(&self) -> (r: &[Coord])
        ensures
            r@ == self.call_stack@,
    {
        self.call_stack.as_slice()
    }

    /// The thread's current movement direction.
    pub fn direction(&self) -> (r: Direction)
        ensures
            r == self.dir,
    {
        self.dir
    }

    /// Executes exactly one instruction at the current instruction pointer.
    ///
    /// The entire effect — the new thread state, the one memory cell
    /// written, the input consumed, the byte emitted, the child spawned,
    /// and whether the thread goes on, terminates with an exit value or
    /// fails the whole tick — agrees with `step_model` for some value of
    /// the random draw.
    pub fn step(
        &mut self,
        code: &CodeGrid,
        mem: &mut MemoryGrid,
        input: &mut InputQueue,
        output: &mut OutputSink,
        spawn: &mut Vec<Thread>,
    ) -> (r: StepResult)
        requires
            code.in_bounds(old(self).inst_ptr),
        ensures
            exists|rnd: u32|
                step_post(
                    #[trigger] step_model(
                        *code, *old(mem), old(self)@, old(input).events@, old(output).mode, rnd,
                    ),
                    *old(mem), *final(mem), final(self)@,
                    old(input).events@, final(input).events@,
                    *old(output), *final(output),
                    old(spawn)@, final(spawn)@, r,
                ),
    {
        let ghost t0 = self@;
        let ghost mem0 = *mem;
        let ghost inp0 = input.events@;
        let ghost out0 = *output;
        let ghost sp0 = spawn@;
        let ghost mut rnd: u32 = 0u32;

        let mut advance_by: usize = 1;
        let op = match code.get(self.inst_ptr) {
            Some(b) => b,
            None => inst::BLANK,
        };

        if op == inst::LEFT {
            match Direction::Left.advance(self.mem_ptr, 1) {
                Some(c) => {
                    self.mem_ptr = c;
                },
                None => {
                    proof {
                        assert(step_post(
                            step_model(*code, mem0, t0, inp0, out0.mode, 0u32),
                            mem0, *mem, self@, inp0, input.events@, out0, *output,
                            sp0, spawn@, StepResult::Failed(EngineError::OutOfBounds),
                        ));
                    }
                    return StepResult::Failed(EngineError::OutOfBounds);
                },
            }
        } else if op == inst::RIGHT {
            match Direction::Right.advance(self.mem_ptr, 1) {
                Some(c) => {
                    self.mem_ptr = c;
                },
                None => {
                    proof {
                        assert(step_post(
                            step_model(*code, mem0, t0, inp0, out0.mode, 0u32),
                            mem0, *mem, self@, inp0, input.events@, out0, *output,
                            sp0, spawn@, StepResult::Failed(EngineError::OutOfBounds),
                        ));
                    }
                    return StepResult::Failed(EngineError::OutOfBounds);
                },
            }
        } else if op == inst::UP {
            match Direction::Up.advance(self.mem_ptr, 1) {
                Some(c) => {
                    self.mem_ptr = c;
                },
                None => {
                    proof {
                        assert(step_post(
                            step_model(*code, mem0, t0, inp0, out0.mode, 0u32),
                            mem0, *mem, self@, inp0, input.events@, out0, *output,
                            sp0, spawn@, StepResult::Failed(EngineError::OutOfBounds),
                        ));
                    }
                    return StepResult::Failed(EngineError::OutOfBounds);
                },
            }
        } else if op == inst::DOWN {
            match Direction::Down.advance(self.mem_ptr, 1) {
                Some(c) => {
                    self.mem_ptr = c;
                },
                None => {
                    proof {
                        assert(step_post(
                            step_model(*code, mem0, t0, inp0, out0.mode, 0u32),
                            mem0, *mem, self@, inp0, input.events@, out0, *output,
                            sp0, spawn@, StepResult::Failed(EngineError::OutOfBounds),
                        ));
                    }
                    return StepResult::Failed(EngineError::OutOfBounds);
                },
            }
        } else if op == inst::INCR {
            let v = mem.get(self.mem_ptr);
            mem.set(self.mem_ptr, v.wrapping_add(1));
        } else if op == inst::DECR {
            let v = mem.get(self.mem_ptr);
            mem.set(self.mem_ptr, v.wrapping_sub(1));
        } else if op == inst::READ {
            match input.poll() {
                InputEvent::Byte(b) => {
                    mem.set(self.mem_ptr, b as u32);
                },
                InputEvent::WouldBlock => {
                    advance_by = 0;
                },
                InputEvent::Fatal => {
                    proof {
                        assert(step_post(
                            step_model(*code, mem0, t0, inp0, out0.mode, 0u32),
                            mem0, *mem, self@, inp0, input.events@, out0, *output,
                            sp0, spawn@, StepResult::Failed(EngineError::Io),
                        ));
                    }
                    return StepResult::Failed(EngineError::Io);
                },
            }
        } else if op == inst::WRITE {
            let v = mem.get(self.mem_ptr);
            match output.put((v % 256) as u8) {
                OutputMode::Ready => {},
                OutputMode::WouldBlock => {
                    advance_by = 0;
                },
                OutputMode::Fatal => {
                    proof {
                        assert(step_post(
                            step_model(*code, mem0, t0, inp0, out0.mode, 0u32),
                            mem0, *mem, self@, inp0, input.events@, out0, *output,
                            sp0, spawn@, StepResult::Failed(EngineError::Io),
                        ));
                    }
                    return StepResult::Failed(EngineError::Io);
                },
            }
        } else if op == inst::LURD {
            self.dir = self.dir.turned_lurd();
        } else if op == inst::RULD {
            self.dir = self.dir.turned_ruld();
        } else if op == inst::SKIP {
            advance_by = 2;
        } else if op == inst::SKIPZ {
            if mem.get(self.mem_ptr) == 0 {
                advance_by = 2;
            }
        } else if op == inst::ENTER {
            self.call_stack.push(self.inst_ptr);
        } else if op == inst::LEAVE {
            match self.call_stack.pop() {
                Some(c) => {
                    self.inst_ptr = c;
                    advance_by = 2;
                },
                None => {
                    let v = mem.get(self.mem_ptr);
                    proof {
                        assert(step_post(
                            step_model(*code, mem0, t0, inp0, out0.mode, 0u32),
                            mem0, *mem, self@, inp0, input.events@, out0, *output,
                            sp0, spawn@, StepResult::Finished(v),
                        ));
                    }
                    return StepResult::Finished(v);
                },
            }
        } else if op == inst::SPLIT {
            match self.dir.advance(self.inst_ptr, 1) {
                Some(c) => {
                    if code.get(c).is_some() {
                        let child = self.create_child(c);
                        spawn.push(child);
                        advance_by = 2;
                        proof {
                            assert(spawn@.subrange(0, sp0.len() as int) =~= sp0);
                        }
                    }
                },
                None => {},
            }
        } else if op == inst::RAND {
            let v = random_u32();
            proof {
                rnd = v;
            }
            mem.set(self.mem_ptr, v);
        }

        let res = match self.dir.advance(self.inst_ptr, advance_by) {
            Some(c) => {
                if code.get(c).is_some() {
                    self.inst_ptr = c;
                    StepResult::Running
                } else {
                    StepResult::Finished(mem.get(self.mem_ptr))
                }
            },
            None => StepResult::Finished(mem.get(self.mem_ptr)),
        };
        proof {
            assert(step_post(
                step_model(*code, mem0, t0, inp0, out0.mode, rnd),
                mem0, *mem, self@, inp0, input.events@, out0, *output,
                sp0, spawn@, res,
            ));
        }
        res
    }
}

/// Facts the scheduler needs of every step model: a surviving thread's
/// instruction pointer stays inside the grid, a spawned child begins
/// inside the grid, and the only step failures are out-of-bounds motion
/// and fatal I/O.
pub proof fn lemma_step_model_wf(
    code: CodeGrid,
    mem: MemoryGrid,
    t: ThreadModel,
    inp: Seq<InputEvent>,
    outm: OutputMode,
    rnd: u32,
)
    requires
        code.in_bounds(t.ip),
    ensures
        ({
            let m = step_model(code, mem, t, inp, outm, rnd);
            &&& (m.fail is None && m.exit is None) ==> code.in_bounds(m.thread.ip)
            &&& m.spawn matches Some(tm) ==> code.in_bounds(tm.ip)
            &&& m.fail matches Some(e)
                ==> (e == EngineError::OutOfBounds || e == EngineError::Io)
        }),
{
}

} // verus!
