use snusp::{
    CodeGrid, Program, InputQueue, InputEvent, OutputSink, OutputMode, StepResult, EngineError,
};

#[test]
fn single_thread_program_outputs_and_exits_four() {
    let code = CodeGrid::parse(b"$++++.#").unwrap();
    let mut p = Program::new(code);
    let mut input = InputQueue::new();
    let mut output = OutputSink::new(OutputMode::Ready);
    let mut exit = None;
    for _ in 0..100 {
        match p.step(&mut input, &mut output) {
            StepResult::Running => {},
            StepResult::Finished(v) => {
                exit = Some(v);
                break;
            },
            StepResult::Failed(e) => panic!("unexpected failure: {:?}", e),
        }
    }
    assert_eq!(exit, Some(4));
    assert_eq!(output.bytes, vec![4u8]);
    assert_eq!(p.threads().len(), 0);
    assert_eq!(p.memory().rows().len(), 0);
}

#[test]
fn split_spawns_a_second_thread_after_one_tick() {
    let code = CodeGrid::parse(b"$&++").unwrap();
    let mut p = Program::new(code);
    let mut input = InputQueue::new();
    let mut output = OutputSink::new(OutputMode::Ready);
    // first tick: the initial thread is placed on `$` and moves to `&`
    assert_eq!(p.step(&mut input, &mut output), StepResult::Running);
    assert_eq!(p.threads().len(), 1);
    assert_eq!(p.threads()[0].instruction_pointer(), (1, 0));
    // second tick: the split spawns a child at the cell ahead and the
    // acting thread skips past it
    assert_eq!(p.step(&mut input, &mut output), StepResult::Running);
    assert_eq!(p.threads().len(), 2);
    assert_eq!(p.threads()[0].instruction_pointer(), (3, 0));
    assert_eq!(p.threads()[1].instruction_pointer(), (2, 0));
}

#[test]
fn split_at_the_trailing_edge_spawns_nothing() {
    let code = CodeGrid::parse(b"$&").unwrap();
    let mut p = Program::new(code);
    let mut input = InputQueue::new();
    let mut output = OutputSink::new(OutputMode::Ready);
    assert_eq!(p.step(&mut input, &mut output), StepResult::Running);
    assert_eq!(p.threads().len(), 1);
    // the split has no cell ahead: no spawn is buffered, and the acting
    // thread's own advance runs over the same edge and terminates it
    assert_eq!(p.step(&mut input, &mut output), StepResult::Finished(0));
    assert_eq!(p.threads().len(), 0);
}

#[test]
fn read_would_block_holds_the_instruction_pointer() {
    let code = CodeGrid::parse(b"$,.#").unwrap();
    let mut p = Program::new(code);
    let mut input = InputQueue::new();
    let mut output = OutputSink::new(OutputMode::Ready);
    assert_eq!(p.step(&mut input, &mut output), StepResult::Running);
    assert_eq!(p.threads()[0].instruction_pointer(), (1, 0));
    // nothing to read: the thread stays on `,`
    assert_eq!(p.step(&mut input, &mut output), StepResult::Running);
    assert_eq!(p.threads()[0].instruction_pointer(), (1, 0));
    assert_eq!(p.step(&mut input, &mut output), StepResult::Running);
    assert_eq!(p.threads()[0].instruction_pointer(), (1, 0));
    // data arrives: the read consumes it and the pointer moves on
    input.push(InputEvent::Byte(65));
    assert_eq!(p.step(&mut input, &mut output), StepResult::Running);
    assert_eq!(p.threads()[0].instruction_pointer(), (2, 0));
    assert_eq!(p.memory().rows()[0][0], 65);
    // the write copies the byte to the sink
    assert_eq!(p.step(&mut input, &mut output), StepResult::Running);
    assert_eq!(output.bytes, vec![65u8]);
    assert_eq!(p.step(&mut input, &mut output), StepResult::Finished(65));
}

#[test]
fn write_would_block_holds_the_instruction_pointer() {
    let code = CodeGrid::parse(b"$+.#").unwrap();
    let mut p = Program::new(code);
    let mut input = InputQueue::new();
    let mut output = OutputSink::new(OutputMode::WouldBlock);
    assert_eq!(p.step(&mut input, &mut output), StepResult::Running);
    assert_eq!(p.step(&mut input, &mut output), StepResult::Running);
    assert_eq!(p.threads()[0].instruction_pointer(), (2, 0));
    // the sink has no capacity: the thread stays on `.`
    assert_eq!(p.step(&mut input, &mut output), StepResult::Running);
    assert_eq!(p.threads()[0].instruction_pointer(), (2, 0));
    assert!(output.bytes.is_empty());
    output.mode = OutputMode::Ready;
    assert_eq!(p.step(&mut input, &mut output), StepResult::Running);
    assert_eq!(p.threads()[0].instruction_pointer(), (3, 0));
    assert_eq!(output.bytes, vec![1u8]);
}

#[test]
fn increment_wraps_to_zero_at_the_32_bit_maximum() {
    let code = CodeGrid::parse(b"$+").unwrap();
    let mut p = Program::new(code);
    p.mem.set((0, 0), u32::MAX);
    let mut input = InputQueue::new();
    let mut output = OutputSink::new(OutputMode::Ready);
    assert_eq!(p.step(&mut input, &mut output), StepResult::Running);
    // the increment wraps the cell to 0, and the thread then falls off
    // the edge reporting that value
    assert_eq!(p.step(&mut input, &mut output), StepResult::Finished(0));
}

#[test]
fn decrement_wraps_to_the_32_bit_maximum_at_zero() {
    let code = CodeGrid::parse(b"$-").unwrap();
    let mut p = Program::new(code);
    let mut input = InputQueue::new();
    let mut output = OutputSink::new(OutputMode::Ready);
    assert_eq!(p.step(&mut input, &mut output), StepResult::Running);
    assert_eq!(p.step(&mut input, &mut output), StepResult::Finished(u32::MAX));
}

#[test]
fn memory_pointer_underflow_fails_the_whole_tick() {
    let code = CodeGrid::parse(b"$<").unwrap();
    let mut p = Program::new(code);
    let mut input = InputQueue::new();
    let mut output = OutputSink::new(OutputMode::Ready);
    assert_eq!(p.step(&mut input, &mut output), StepResult::Running);
    assert_eq!(
        p.step(&mut input, &mut output),
        StepResult::Failed(EngineError::OutOfBounds)
    );
}

#[test]
fn memory_pointer_up_underflow_fails_the_whole_tick() {
    let code = CodeGrid::parse(b"$:").unwrap();
    let mut p = Program::new(code);
    let mut input = InputQueue::new();
    let mut output = OutputSink::new(OutputMode::Ready);
    assert_eq!(p.step(&mut input, &mut output), StepResult::Running);
    assert_eq!(
        p.step(&mut input, &mut output),
        StepResult::Failed(EngineError::OutOfBounds)
    );
}

#[test]
fn fatal_input_failure_propagates() {
    let code = CodeGrid::parse(b"$,").unwrap();
    let mut p = Program::new(code);
    let mut input = InputQueue::new();
    input.push(InputEvent::Fatal);
    let mut output = OutputSink::new(OutputMode::Ready);
    assert_eq!(p.step(&mut input, &mut output), StepResult::Running);
    assert_eq!(p.step(&mut input, &mut output), StepResult::Failed(EngineError::Io));
}

#[test]
fn fatal_output_failure_propagates() {
    let code = CodeGrid::parse(b"$.").unwrap();
    let mut p = Program::new(code);
    let mut input = InputQueue::new();
    let mut output = OutputSink::new(OutputMode::Fatal);
    assert_eq!(p.step(&mut input, &mut output), StepResult::Running);
    assert_eq!(p.step(&mut input, &mut output), StepResult::Failed(EngineError::Io));
}

#[test]
fn blank_grid_reports_no_start() {
    let code = CodeGrid::parse(b"   ").unwrap();
    let mut p = Program::new(code);
    let mut input = InputQueue::new();
    let mut output = OutputSink::new(OutputMode::Ready);
    assert_eq!(
        p.step(&mut input, &mut output),
        StepResult::Failed(EngineError::NoStart)
    );
}

#[test]
fn leave_with_saved_caller_returns_past_the_enter() {
    let code = CodeGrid::parse(b"$@+#+#").unwrap();
    let mut p = Program::new(code);
    let mut input = InputQueue::new();
    let mut output = OutputSink::new(OutputMode::Ready);
    let mut exit = None;
    for _ in 0..100 {
        match p.step(&mut input, &mut output) {
            StepResult::Running => {},
            StepResult::Finished(v) => {
                exit = Some(v);
                break;
            },
            StepResult::Failed(e) => panic!("unexpected failure: {:?}", e),
        }
    }
    // `@` saves its own cell, `+` sets the cell to 1, and the first `#`
    // pops: the pointer re-enters at the `@` and steps two cells past it,
    // landing on that same `#` with an empty stack, which exits with the
    // cell's value
    assert_eq!(exit, Some(1));
}

#[test]
fn skip_jumps_over_the_next_cell() {
    let code = CodeGrid::parse(b"$!+-").unwrap();
    let mut p = Program::new(code);
    let mut input = InputQueue::new();
    let mut output = OutputSink::new(OutputMode::Ready);
    assert_eq!(p.step(&mut input, &mut output), StepResult::Running);
    assert_eq!(p.step(&mut input, &mut output), StepResult::Running);
    // the `!` skipped the `+`, landing on `-`
    assert_eq!(p.threads()[0].instruction_pointer(), (3, 0));
    assert_eq!(p.step(&mut input, &mut output), StepResult::Finished(u32::MAX));
}

#[test]
fn skipz_skips_only_on_a_zero_cell() {
    // cell is zero: the `?` skips the `+` and the program exits with 0
    let code = CodeGrid::parse(b"$?+").unwrap();
    let mut p = Program::new(code);
    let mut input = InputQueue::new();
    let mut output = OutputSink::new(OutputMode::Ready);
    assert_eq!(p.step(&mut input, &mut output), StepResult::Running);
    assert_eq!(p.step(&mut input, &mut output), StepResult::Finished(0));

    // cell is one: the `?` does not skip, the second `+` runs
    let code2 = CodeGrid::parse(b"$+?+").unwrap();
    let mut p2 = Program::new(code2);
    let mut exit = None;
    for _ in 0..100 {
        match p2.step(&mut input, &mut output) {
            StepResult::Running => {},
            StepResult::Finished(v) => {
                exit = Some(v);
                break;
            },
            StepResult::Failed(e) => panic!("unexpected failure: {:?}", e),
        }
    }
    assert_eq!(exit, Some(2));
}

#[test]
fn mirrors_turn_the_thread_into_the_second_row() {
    let code = CodeGrid::parse(b"$\\\n #").unwrap();
    let mut p = Program::new(code);
    let mut input = InputQueue::new();
    let mut output = OutputSink::new(OutputMode::Ready);
    assert_eq!(p.step(&mut input, &mut output), StepResult::Running);
    // the `\` turns the rightbound thread downward onto the `#`
    assert_eq!(p.step(&mut input, &mut output), StepResult::Running);
    assert_eq!(p.threads()[0].instruction_pointer(), (1, 1));
    assert_eq!(p.step(&mut input, &mut output), StepResult::Finished(0));
}

#[test]
fn random_overwrites_the_cell_and_the_program_terminates() {
    let code = CodeGrid::parse(b"$%#").unwrap();
    let mut p = Program::new(code);
    let mut input = InputQueue::new();
    let mut output = OutputSink::new(OutputMode::Ready);
    let mut exit = None;
    for _ in 0..100 {
        match p.step(&mut input, &mut output) {
            StepResult::Running => {},
            StepResult::Finished(v) => {
                exit = Some(v);
                break;
            },
            StepResult::Failed(e) => panic!("unexpected failure: {:?}", e),
        }
    }
    // whatever the draw, the program halts and reports the drawn value
    assert!(exit.is_some());
    assert_eq!(p.threads().len(), 0);
}

#[test]
fn memory_pointer_moves_between_rows_and_columns() {
    // `>` and `;` move the memory pointer right and down; the later
    // increments land on a distinct cell, whose value is the exit value
    let code = CodeGrid::parse(b"$+>;++#").unwrap();
    let mut p = Program::new(code);
    let mut input = InputQueue::new();
    let mut output = OutputSink::new(OutputMode::Ready);
    let mut exit = None;
    for _ in 0..100 {
        match p.step(&mut input, &mut output) {
            StepResult::Running => {},
            StepResult::Finished(v) => {
                exit = Some(v);
                break;
            },
            StepResult::Failed(e) => panic!("unexpected failure: {:?}", e),
        }
    }
    assert_eq!(exit, Some(2));
}

#[test]
fn unknown_graphic_bytes_are_no_ops() {
    let code = CodeGrid::parse(b"$ab+").unwrap();
    let mut p = Program::new(code);
    let mut input = InputQueue::new();
    let mut output = OutputSink::new(OutputMode::Ready);
    let mut exit = None;
    for _ in 0..100 {
        match p.step(&mut input, &mut output) {
            StepResult::Running => {},
            StepResult::Finished(v) => {
                exit = Some(v);
                break;
            },
            StepResult::Failed(e) => panic!("unexpected failure: {:?}", e),
        }
    }
    assert_eq!(exit, Some(1));
}

#[test]
fn input_queue_polls_front_first() {
    let mut q = InputQueue::new();
    assert_eq!(q.poll(), InputEvent::WouldBlock);
    q.push(InputEvent::Byte(1));
    q.push(InputEvent::Byte(2));
    assert_eq!(q.poll(), InputEvent::Byte(1));
    assert_eq!(q.poll(), InputEvent::Byte(2));
    assert_eq!(q.poll(), InputEvent::WouldBlock);
}

#[test]
fn output_sink_accepts_only_when_ready() {
    let mut s = OutputSink::new(OutputMode::WouldBlock);
    assert_eq!(s.put(9), OutputMode::WouldBlock);
    assert!(s.bytes.is_empty());
    s.mode = OutputMode::Ready;
    assert_eq!(s.put(9), OutputMode::Ready);
    assert_eq!(s.bytes, vec![9u8]);
}

#[test]
fn threads_step_in_reverse_order_within_a_tick() {
    let code = CodeGrid::parse(b"$&+.").unwrap();
    let mut p = Program::new(code);
    let mut input = InputQueue::new();
    let mut output = OutputSink::new(OutputMode::Ready);
    assert_eq!(p.step(&mut input, &mut output), StepResult::Running);
    // the split leaves the parent on `.` and the child on `+`
    assert_eq!(p.step(&mut input, &mut output), StepResult::Running);
    assert_eq!(p.threads().len(), 2);
    // within one tick the child (the higher index) steps first: its
    // increment lands before the parent writes the shared cell
    assert_eq!(p.step(&mut input, &mut output), StepResult::Running);
    assert_eq!(output.bytes, vec![1u8]);
    assert_eq!(p.threads().len(), 1);
    assert_eq!(p.step(&mut input, &mut output), StepResult::Finished(1));
    assert_eq!(output.bytes, vec![1u8, 1u8]);
}

#[test]
fn accessors_expose_the_owned_grids() {
    let code = CodeGrid::parse(b"$+").unwrap();
    let mut p = Program::new(code);
    assert_eq!(p.code().get((0, 0)), Some(b'$'));
    assert_eq!(p.code().size(), (1, 2));
    assert_eq!(p.memory().get((0, 0)), 0);
    let mut input = InputQueue::new();
    let mut output = OutputSink::new(OutputMode::Ready);
    assert_eq!(p.step(&mut input, &mut output), StepResult::Running);
    let t = &p.threads()[0];
    assert_eq!(t.instruction_pointer(), (1, 0));
    assert_eq!(t.memory_pointer(), (0, 0));
    assert_eq!(t.direction(), snusp::Direction::Right);
    assert!(t.call_stack().is_empty());
}

#[test]
fn backslash_path_runs_down_then_right() {
    let code = CodeGrid::parse(b"$+\\\n  \\").unwrap();
    let mut p = Program::new(code);
    let mut input = InputQueue::new();
    let mut output = OutputSink::new(OutputMode::Ready);
    assert_eq!(p.step(&mut input, &mut output), StepResult::Running);
    assert_eq!(p.step(&mut input, &mut output), StepResult::Running);
    // the first mirror turns the thread downward
    assert_eq!(p.step(&mut input, &mut output), StepResult::Running);
    assert_eq!(p.threads()[0].instruction_pointer(), (2, 1));
    assert_eq!(p.threads()[0].direction(), snusp::Direction::Down);
    // the second mirror turns it right again, over the edge
    assert_eq!(p.step(&mut input, &mut output), StepResult::Finished(1));
}

#[test]
fn slash_path_terminates_over_the_left_edge() {
    let code = CodeGrid::parse(b"$\\\n /").unwrap();
    let mut p = Program::new(code);
    let mut input = InputQueue::new();
    let mut output = OutputSink::new(OutputMode::Ready);
    assert_eq!(p.step(&mut input, &mut output), StepResult::Running);
    assert_eq!(p.step(&mut input, &mut output), StepResult::Running);
    // the `/` turns the downbound thread leftward onto the blank cell
    assert_eq!(p.step(&mut input, &mut output), StepResult::Running);
    assert_eq!(p.threads()[0].instruction_pointer(), (0, 1));
    assert_eq!(p.threads()[0].direction(), snusp::Direction::Left);
    // leftward motion off the grid is a graceful termination, not an error
    assert_eq!(p.step(&mut input, &mut output), StepResult::Finished(0));
}
