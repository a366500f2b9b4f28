//! Plain-value models of the driver's I/O adapters, and the engine's
//! result and error types.
//!
//! The engine never blocks and owns no I/O: the driver hands it a queue of
//! input events and a sink for output bytes, and each READ or WRITE
//! instruction consumes or produces exactly one event per execution.

use vstd::prelude::*;

verus! {

/// One answer of the input adapter: a byte, "no data yet", or a fatal
/// I/O failure.
#[derive(Debug, Clone, Copy, PartialEq, Eq, Structural)]
pub enum InputEvent {
    /// One byte of input is available.
    Byte(u8),
    /// No data yet: the issuing thread retries the same instruction later.
    WouldBlock,
    /// A fatal input failure: it aborts the whole tick.
    Fatal,
}

/// The state of the output adapter for the coming write calls.
#[derive(Debug, Clone, Copy, PartialEq, Eq, Structural)]
pub enum OutputMode {
    /// Writes are accepted.
    Ready,
    /// No capacity yet: the issuing thread retries the same instruction later.
    WouldBlock,
    /// A fatal output failure: it aborts the whole tick.
    Fatal,
}

/// The engine's failure taxonomy.
#[derive(Debug, Clone, Copy, PartialEq, Eq, Structural)]
pub enum EngineError {
    /// A source byte that is neither blank nor printable-graphic ASCII.
    InvalidChar,
    /// Memory-pointer motion left of / above `(0,0)`, or past the
    /// representable coordinate range: fatal to the whole program.
    OutOfBounds,
    /// The code grid is entirely blank, so no initial thread can be placed.
    NoStart,
    /// A fatal I/O failure reported by an adapter.
    Io,
}

/// What one step or one tick reports.
#[derive(Debug, Clone, Copy, PartialEq, Eq, Structural)]
pub enum StepResult {
    /// Work remains: step again.
    Running,
    /// The thread (or, from the scheduler, the whole program) terminated
    /// with this exit value.
    Finished(u32),
    /// A fatal failure: the tick is aborted and the value names the cause.
    Failed(EngineError),
}

/// A queue of pending input events, consumed front first.
///
/// An empty queue means the input adapter has nothing yet: a READ then
/// behaves as if the adapter had answered "would block".
#[derive(Debug, Clone)]
pub struct InputQueue {
    pub events: Vec<InputEvent>,
}

impl InputQueue {
    /// An empty queue: every READ would block until events are pushed.
    pub fn new() -> (r: InputQueue)
        ensures
            r.events@ =~= Seq::<InputEvent>::empty(),
    {
        InputQueue { events: Vec::new() }
    }

    /// Appends one event at the back of the queue.
    pub fn push(&mut self, e: InputEvent)
        ensures
            final(self).events@ == old(self).events@.push(e),
    {
        self.events.push(e);
    }

    /// One call of the input adapter: the front event, or `WouldBlock`
    /// when the queue is empty.
    pub fn poll(&mut self) -> (r: InputEvent)
        ensures
            old(self).events@.len() == 0 ==> r == InputEvent::WouldBlock
                && final(self).events@ == old(self).events@,
            old(self).events@.len() > 0 ==> r == old(self).events@[0]
                && final(self).events@ == old(self).events@.skip(1),
    {
        if self.events.len() == 0 {
            InputEvent::WouldBlock
        } else {
            let e = self.events.remove(0);
            proof {
                assert(self.events@ =~= old(self).events@.skip(1));
            }
            e
        }
    }
}

/// The output adapter: a mode that says how write calls are answered, and
/// the bytes accepted so far.
#[derive(Debug, Clone)]
pub struct OutputSink {
    pub mode: OutputMode,
    pub bytes: Vec<u8>,
}

impl OutputSink {
    /// An empty sink in the given mode.
    pub fn new(mode: OutputMode) -> (r: OutputSink)
        ensures
            r.mode == mode,
            r.bytes@ =~= Seq::<u8>::empty(),
    {
        OutputSink { mode, bytes: Vec::new() }
    }

    /// One call of the output adapter with byte `b`: in `Ready` mode the
    /// byte is accepted, otherwise nothing is, and the mode is reported back.
    pub fn put(&mut self, b: u8) -> (r: OutputMode)
        ensures
            r == old(self).mode,
            final(self).mode == old(self).mode,
            old(self).mode == OutputMode::Ready
                ==> final(self).bytes@ == old(self).bytes@.push(b),
            old(self).mode != OutputMode::Ready
                ==> final(self).bytes@ == old(self).bytes@,
    {
        match self.mode {
            OutputMode::Ready => {
                self.bytes.push(b);
                OutputMode::Ready
            },
            OutputMode::WouldBlock => OutputMode::WouldBlock,
            OutputMode::Fatal => OutputMode::Fatal,
        }
    }
}

} // verus!
