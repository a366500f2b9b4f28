//! The tick scheduler: one code grid, one memory grid, and the set of
//! live threads, advanced one instruction each per tick.

use vstd::prelude::*;
use crate::Coord;
use crate::code::CodeGrid;
use crate::memory::MemoryGrid;
use crate::thread::{Thread, StepModel, ThreadModel, step_model, step_post, mem_after, lemma_step_model_wf};
use crate::direction::Direction;
use crate::ports::{InputEvent, InputQueue, OutputSink, EngineError, StepResult};

verus! {

/// A whole program: its code, its memory, and the ordered collection of
/// live threads.  The collection is empty only before the first tick and
/// right after the whole program terminates.
#[derive(Debug)]
pub struct Program {
    pub code: CodeGrid,
    pub mem: MemoryGrid,
    pub threads: Vec<Thread>,
}

/// The state of a freshly placed initial thread: at the start cell, the
/// memory pointer at the origin, facing right, with an empty call stack.
pub open spec fn initial_thread_model(c: Coord) -> ThreadModel {
    ThreadModel {
        ip: c,
        mp: (0usize, 0usize),
        stack: Seq::empty(),
        dir: Direction::Right,
    }
}

/// What a tick owes when it begins with exactly one live thread whose
/// step has the given model: the scheduler adds nothing of its own.
pub open spec fn solo_tick_post(
    m: StepModel,
    pre_mem: MemoryGrid,
    post: Program,
    inp0: Seq<InputEvent>,
    inp1: Seq<InputEvent>,
    out0: OutputSink,
    out1: OutputSink,
    r: StepResult,
) -> bool {
    &&& out1.mode == out0.mode
    &&& inp1 == if m.consumed { inp0.skip(1) } else { inp0 }
    &&& match m.fail {
        Some(e) => {
            &&& r == StepResult::Failed(e)
            &&& post.threads@.len() == 1
            &&& post.threads@[0]@ == m.thread
            &&& forall|c: Coord| post.mem.at(c) == mem_after(pre_mem, m.write, c)
            &&& out1.bytes@ == out0.bytes@
        },
        None => {
            &&& out1.bytes@ == (match m.emitted {
                Some(b) => out0.bytes@.push(b),
                None => out0.bytes@,
            })
            &&& match m.exit {
                Some(v) => {
                    &&& r == StepResult::Finished(v)
                    &&& post.threads@.len() == 0
                    &&& forall|c: Coord| post.mem.at(c) == 0u32
                },
                None => {
                    &&& r == StepResult::Running
                    &&& post.threads@[0]@ == m.thread
                    &&& match m.spawn {
                        Some(tm) => post.threads@.len() == 2 && post.threads@[1]@ == tm,
                        None => post.threads@.len() == 1,
                    }
                    &&& forall|c: Coord| post.mem.at(c) == mem_after(pre_mem, m.write, c)
                },
            }
        },
    }
}

/// Mid-tick state of a one-thread pass whose only step came out running:
/// the survivor is back in place and any child sits in the spawn buffer.
spec fn solo_pass_done(
    m: StepModel,
    threads: Seq<Thread>,
    spawned: Seq<Thread>,
    mem: MemoryGrid,
    pre_mem: MemoryGrid,
    inp0: Seq<InputEvent>,
    inp1: Seq<InputEvent>,
    out0: OutputSink,
    out1: OutputSink,
) -> bool {
    &&& m.fail is None
    &&& m.exit is None
    &&& threads.len() == 1
    &&& threads[0]@ == m.thread
    &&& match m.spawn {
        Some(tm) => spawned.len() == 1 && spawned[0]@ == tm,
        None => spawned.len() == 0,
    }
    &&& forall|c: Coord| mem.at(c) == mem_after(pre_mem, m.write, c)
    &&& inp1 == if m.consumed { inp0.skip(1) } else { inp0 }
    &&& out1.bytes@ == (match m.emitted {
        Some(b) => out0.bytes@.push(b),
        None => out0.bytes@,
    })
}

impl Program {
    /// The scheduler's invariant: the code grid is well formed, and every
    /// live thread's instruction pointer addresses a stored code cell.
    pub open spec fn wf(self) -> bool {
        &&& self.code.wf()
        &&& forall|i: int|
            0 <= i < self.threads@.len()
                ==> self.code.in_bounds((#[trigger] self.threads@[i]).inst_ptr)
    }

    /// A program over the given code, with empty memory and no threads;
    /// the initial thread is placed lazily by the first tick.
    pub fn new(code: CodeGrid) -> (r: Self)
        requires
            code.wf(),
        ensures
            r.code == code,
            r.mem.rows@.len() == 0,
            forall|c: Coord| r.mem.at(c) == 0u32,
            r.threads@.len() == 0,
            r.wf(),
    {
        Program { code, mem: MemoryGrid::new(), threads: Vec::new() }
    }

    /// The program's code grid.
    pub fn code(&self) -> (r: &CodeGrid)
        ensures
            *r == self.code,
    {
        &self.code
    }

    /// The program's memory grid.
    pub fn memory(&self) -> (r: &MemoryGrid)
        ensures
            *r == self.mem,
    {
        &self.mem
    }

    /// The live threads, in scheduling-relevant order.
    pub fn threads(&self) -> (r: &[Thread])
        ensures
            r@ == self.threads@,
    {
        self.threads.as_slice()
    }

    /// One tick: places the initial thread on the first call, then steps
    /// every live thread exactly once, in reverse index order, buffering
    /// spawned children and appending them after the pass.  A thread that
    /// terminates is removed at once; when the last one goes, memory is
    /// reset and the whole program reports that thread's exit value.  Any
    /// step failure aborts the tick and propagates.
    #[verifier::rlimit(100)]
    pub fn step(&mut self, input: &mut InputQueue, output: &mut OutputSink) -> (r: StepResult)
        requires
            old(self).wf(),
        ensures
            final(self).code == old(self).code,
            final(output).mode == old(output).mode,
            // the missing-start contract: an entirely blank grid cannot
            // yield an initial thread
            (old(self).threads@.len() == 0 && old(self).code.all_blank())
                <==> r == StepResult::Failed(EngineError::NoStart),
            r == StepResult::Failed(EngineError::NoStart)
                ==> *final(self) == *old(self)
                    && final(input).events@ == old(input).events@
                    && *final(output) == *old(output),
            r matches StepResult::Finished(v)
                ==> final(self).threads@.len() == 0
                    && forall|c: Coord| final(self).mem.at(c) == 0u32,
            r == StepResult::Running
                ==> final(self).wf() && final(self).threads@.len() > 0,
            r matches StepResult::Failed(e) ==> e != EngineError::InvalidChar,
            // a tick over a single live thread is exactly that thread's
            // one step, for some value of the random draw
            old(self).threads@.len() == 1 ==> exists|rnd: u32|
                solo_tick_post(
                    #[trigger] step_model(
                        old(self).code, old(self).mem, old(self).threads@[0]@,
                        old(input).events@, old(output).mode, rnd,
                    ),
                    old(self).mem, *final(self),
                    old(input).events@, final(input).events@,
                    *old(output), *final(output), r,
                ),
            // the first tick places the initial thread on the start cell
            // and is exactly that thread's one step
            old(self).threads@.len() == 0 && !old(self).code.all_blank()
                ==> exists|rnd: u32, c: Coord|
                    old(self).code.start_choice(c) && solo_tick_post(
                        #[trigger] step_model(
                            old(self).code, old(self).mem, initial_thread_model(c),
                            old(input).events@, old(output).mode, rnd,
                        ),
                        old(self).mem, *final(self),
                        old(input).events@, final(input).events@,
                        *old(output), *final(output), r,
                    ),
    {
        if self.threads.len() == 0 {
            match self.code.find_start() {
                Some(c) => {
                    let t = Thread::start(c);
                    self.threads.push(t);
                },
                None => {
                    return StepResult::Failed(EngineError::NoStart);
                },
            }
        }

        let mut spawned: Vec<Thread> = Vec::new();
        let ghost solo = self.threads@.len() == 1;
        let ghost t0 = self.threads@[0]@;
        proof {
            if old(self).threads@.len() == 0 {
                assert(t0.stack =~= Seq::<Coord>::empty());
            }
        }
        let mut idx: usize = self.threads.len();
        while idx > 0
            invariant
                idx <= self.threads@.len(),
                idx == 0 ==> self.threads@.len() > 0,
                self.code == old(self).code,
                self.code.wf(),
                !(old(self).threads@.len() == 0 && old(self).code.all_blank()),
                forall|i: int|
                    0 <= i < self.threads@.len()
                        ==> self.code.in_bounds((#[trigger] self.threads@[i]).inst_ptr),
                forall|i: int|
                    0 <= i < spawned@.len()
                        ==> self.code.in_bounds((#[trigger] spawned@[i]).inst_ptr),
                output.mode == old(output).mode,
                solo ==> idx <= 1,
                old(self).threads@.len() == 1 ==> solo && t0 == old(self).threads@[0]@,
                old(self).threads@.len() == 0
                    ==> solo && t0 == initial_thread_model(t0.ip)
                        && old(self).code.start_choice(t0.ip),
                solo && idx == 1 ==> {
                    &&& self.threads@.len() == 1
                    &&& self.threads@[0]@ == t0
                    &&& self.mem == old(self).mem
                    &&& input.events@ == old(input).events@
                    &&& *output == *old(output)
                    &&& spawned@.len() == 0
                },
                solo && idx == 0 ==> exists|rnd: u32|
                    solo_pass_done(
                        #[trigger] step_model(
                            old(self).code, old(self).mem, t0,
                            old(input).events@, old(output).mode, rnd,
                        ),
                        self.threads@, spawned@, self.mem, old(self).mem,
                        old(input).events@, input.events@, *old(output), *output,
                    ),
            decreases idx,
        {
            idx -= 1;
            let ghost threads_b = self.threads@;
            let mut t = self.threads.remove(idx);
            let ghost tb = t@;
            let ghost memb = self.mem;
            let ghost inpb = input.events@;
            let ghost outb = *output;
            let ghost spb = spawned@;
            let res = t.step(&self.code, &mut self.mem, input, output, &mut spawned);
            let ghost ta = t@;
            let ghost mema = self.mem;
            proof {
                let rnd = choose|rnd: u32|
                    step_post(
                        #[trigger] step_model(self.code, memb, tb, inpb, outb.mode, rnd),
                        memb, self.mem, t@, inpb, input.events@, outb, *output,
                        spb, spawned@, res,
                    );
                lemma_step_model_wf(self.code, memb, tb, inpb, outb.mode, rnd);
                let m = step_model(self.code, memb, tb, inpb, outb.mode, rnd);
                assert forall|i: int|
                    0 <= i < spawned@.len()
                        implies self.code.in_bounds((#[trigger] spawned@[i]).inst_ptr) by {
                    if m.spawn is Some {
                        if i < spb.len() {
                            assert(spawned@[i]
                                == spawned@.subrange(0, spb.len() as int)[i]);
                        } else {
                            assert(spawned@[i] == spawned@.last());
                        }
                    } else {
                        assert(spawned@[i] == spb[i]);
                    }
                }
            }
            match res {
                StepResult::Running => {
                    self.threads.insert(idx, t);
                    proof {
                        if solo {
                            let rnd = choose|rnd: u32|
                                step_post(
                                    #[trigger] step_model(
                                        self.code, memb, tb, inpb, outb.mode, rnd,
                                    ),
                                    memb, mema, ta, inpb, input.events@,
                                    outb, *output, spb, spawned@, res,
                                );
                            assert(solo_pass_done(
                                step_model(
                                    old(self).code, old(self).mem, t0,
                                    old(input).events@, old(output).mode, rnd,
                                ),
                                self.threads@, spawned@, self.mem, old(self).mem,
                                old(input).events@, input.events@, *old(output), *output,
                            ));
                        }
                        assert forall|i: int|
                            0 <= i < self.threads@.len()
                                implies self.code.in_bounds(
                                    (#[trigger] self.threads@[i]).inst_ptr,
                                ) by {
                            if i < idx {
                                assert(self.threads@[i] == threads_b[i]);
                            } else if i > idx {
                                assert(self.threads@[i] == threads_b[i]);
                            }
                        }
                    }
                },
                StepResult::Finished(_v) => {
                    if self.threads.len() == 0 {
                        self.mem.reset();
                        proof {
                            if solo {
                                let rnd = choose|rnd: u32|
                                    step_post(
                                        #[trigger] step_model(
                                            self.code, memb, tb, inpb, outb.mode, rnd,
                                        ),
                                        memb, mema, ta, inpb, input.events@,
                                        outb, *output, spb, spawned@, res,
                                    );
                                assert(solo_tick_post(
                                    step_model(
                                        old(self).code, old(self).mem, t0,
                                        old(input).events@, old(output).mode, rnd,
                                    ),
                                    old(self).mem, *self,
                                    old(input).events@, input.events@,
                                    *old(output), *output, res,
                                ));
                            }
                        }
                        return res;
                    }
                },
                StepResult::Failed(_e) => {
                    self.threads.insert(idx, t);
                    proof {
                        if solo {
                            let rnd = choose|rnd: u32|
                                step_post(
                                    #[trigger] step_model(
                                        self.code, memb, tb, inpb, outb.mode, rnd,
                                    ),
                                    memb, mema, ta, inpb, input.events@,
                                    outb, *output, spb, spawned@, res,
                                );
                            assert(solo_tick_post(
                                step_model(
                                    old(self).code, old(self).mem, t0,
                                    old(input).events@, old(output).mode, rnd,
                                ),
                                old(self).mem, *self,
                                old(input).events@, input.events@,
                                *old(output), *output, res,
                            ));
                        }
                    }
                    return res;
                },
            }
        }
        let ghost survivors = self.threads@;
        let ghost spawned_g = spawned@;
        self.threads.append(&mut spawned);
        proof {
            assert forall|i: int|
                0 <= i < self.threads@.len()
                    implies self.code.in_bounds((#[trigger] self.threads@[i]).inst_ptr) by {
                if i < survivors.len() {
                    assert(self.threads@[i] == survivors[i]);
                } else {
                    assert(self.threads@[i] == spawned_g[i - survivors.len()]);
                }
            }
        }
        proof {
            if solo {
                let rnd = choose|rnd: u32|
                    solo_pass_done(
                        #[trigger] step_model(
                            old(self).code, old(self).mem, t0,
                            old(input).events@, old(output).mode, rnd,
                        ),
                        survivors, spawned_g, self.mem, old(self).mem,
                        old(input).events@, input.events@, *old(output), *output,
                    );
                assert(solo_tick_post(
                    step_model(
                        old(self).code, old(self).mem, t0,
                        old(input).events@, old(output).mode, rnd,
                    ),
                    old(self).mem, *self,
                    old(input).events@, input.events@,
                    *old(output), *output, StepResult::Running,
                ));
            }
        }
        StepResult::Running
    }
}

} // verus!
