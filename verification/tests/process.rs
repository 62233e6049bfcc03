use intcode::breakpoint::{Breakpoint, Breakpoints};
use intcode::fault::Fault;
use intcode::instruction::Instruction;
use intcode::ipc::Channel;
use intcode::machine::{Progress, Reply, Request, Stop};
use intcode::parameter::Parameter;
use intcode::process::{Process, State};
use intcode::program::ParseError;

fn run(program: &str, input: &[isize]) -> (Process, Vec<isize>, Result<Stop, Fault>) {
    let mut process = Process::new(program).unwrap();
    let mut source = Channel::new();
    for value in input {
        source.send(*value);
    }
    let mut sink = Channel::new();
    let end = process.run(&mut source, &mut sink, 100_000);
    (process, sink.buffer(), end)
}

#[test]
fn add_program_halts_with_two_at_index_zero() {
    let (process, output, end) = run("1,0,0,0,99", &[]);
    assert_eq!(end, Ok(Stop::Halted));
    assert_eq!(process.state().memory, vec![2, 0, 0, 0, 99]);
    assert!(process.state().halted);
    assert!(output.is_empty());
}

#[test]
fn add_then_multiply_halts_with_thirty_at_index_zero() {
    let (process, _, end) = run("1,1,1,4,99,5,6,0,99", &[]);
    assert_eq!(end, Ok(Stop::Halted));
    assert_eq!(process.state().memory, vec![30, 1, 1, 4, 2, 5, 6, 0, 99]);
}

#[test]
fn echo_program_emits_its_input() {
    let (process, output, end) = run("3,0,4,0,99", &[42]);
    assert_eq!(end, Ok(Stop::Halted));
    assert_eq!(output, vec![42]);
    assert_eq!(process.state().last_input, Some(42));
    assert_eq!(process.state().last_output, Some(42));
}

#[test]
fn equals_eight_program_emits_one_for_eight() {
    let (_, output, end) = run("3,9,8,9,10,9,4,9,99,-1,8", &[8]);
    assert_eq!(end, Ok(Stop::Halted));
    assert_eq!(output, vec![1]);
}

#[test]
fn equals_eight_program_emits_zero_for_seven() {
    let (_, output, end) = run("3,9,8,9,10,9,4,9,99,-1,8", &[7]);
    assert_eq!(end, Ok(Stop::Halted));
    assert_eq!(output, vec![0]);
}

#[test]
fn immediate_output_of_a_large_value() {
    let (_, output, end) = run("104,1125899906842624,99", &[]);
    assert_eq!(end, Ok(Stop::Halted));
    assert_eq!(output, vec![1125899906842624]);
}

#[test]
fn relative_base_program_emits_sixteen_values() {
    let text = "109,1,204,-1,1001,100,1,100,1008,100,16,101,1006,101,0,99";
    let (process, output, end) = run(text, &[]);
    assert_eq!(end, Ok(Stop::Halted));
    assert_eq!(output.len(), 16);
    assert_eq!(
        output,
        vec![109, 1, 204, -1, 1001, 100, 1, 100, 1008, 100, 16, 101, 1006, 101, 0, 99]
    );
    let state = process.state();
    assert_eq!(state.relative_base, 16);
    assert_eq!(state.additional_memory.get(&100), Some(&16));
    assert_eq!(state.additional_memory.get(&101), Some(&1));
    assert_eq!(state.len(), 18);
}

#[test]
fn multiply_with_immediate_operand() {
    let (process, _, end) = run("1002,4,3,4,33", &[]);
    assert_eq!(end, Ok(Stop::Halted));
    assert_eq!(process.state().memory, vec![1002, 4, 3, 4, 99]);
}

#[test]
fn less_than_and_jumps() {
    // Emits 0 for an input of 0 and 1 for anything else, with position mode jumps.
    let text = "3,12,6,12,15,1,13,14,13,4,13,99,-1,0,1,9";
    assert_eq!(run(text, &[0]).1, vec![0]);
    assert_eq!(run(text, &[5]).1, vec![1]);
    // The same with immediate mode jumps.
    let text = "3,3,1105,-1,9,1101,0,0,12,4,12,99,1";
    assert_eq!(run(text, &[0]).1, vec![0]);
    assert_eq!(run(text, &[-3]).1, vec![1]);
    // Less than 8, in position and immediate mode.
    assert_eq!(run("3,9,7,9,10,9,4,9,99,-1,8", &[7]).1, vec![1]);
    assert_eq!(run("3,9,7,9,10,9,4,9,99,-1,8", &[8]).1, vec![0]);
    assert_eq!(run("3,3,1107,-1,8,3,4,3,99", &[7]).1, vec![1]);
    assert_eq!(run("3,3,1107,-1,8,3,4,3,99", &[9]).1, vec![0]);
}

#[test]
fn state_starts_at_zero() {
    let state = State::new(vec![1, 2, 3]);
    assert_eq!(state.memory, vec![1, 2, 3]);
    assert!(state.additional_memory.is_empty());
    assert_eq!(state.instruction_pointer, 0);
    assert_eq!(state.relative_base, 0);
    assert_eq!(state.last_input, None);
    assert_eq!(state.last_output, None);
    assert!(!state.halted);
    assert_eq!(state.len(), 3);
    assert!(!state.is_empty());
    assert!(State::new(vec![]).is_empty());
    assert_eq!(State::new(vec![]).len(), 0);
}

#[test]
fn read_returns_what_was_written_dense_and_sparse() {
    let mut state = State::new(vec![10, 20, 30]);
    state.write(1, 7);
    assert_eq!(state.read(1), 7);
    assert_eq!(state.memory, vec![10, 7, 30]);
    assert!(state.additional_memory.is_empty());
    assert_eq!(state.read(1000), 0);
    state.write(1000, -5);
    assert_eq!(state.read(1000), -5);
    assert_eq!(state.memory, vec![10, 7, 30]);
    assert_eq!(state.additional_memory.get(&1000), Some(&-5));
    state.write(1000, 9);
    assert_eq!(state.read(1000), 9);
    assert_eq!(state.len(), 4);
    assert_eq!(state.read(0), 10);
    assert_eq!(state.read(3), 0);
    assert_eq!(state.read(usize::MAX), 0);
}

#[test]
fn set_memory_writes_before_the_run() {
    let mut process = Process::new("1,0,0,0,99").unwrap();
    process.set_memory(1, 4);
    process.set_memory(2, 4);
    process.set_memory(50, 3);
    let state = process.state();
    assert_eq!(state.memory, vec![1, 4, 4, 0, 99]);
    assert_eq!(state.read(50), 3);
    let mut source = Channel::new();
    let mut sink = Channel::new();
    assert_eq!(process.run(&mut source, &mut sink, 10), Ok(Stop::Halted));
    assert_eq!(process.state().memory[0], 198);
}

#[test]
fn next_instruction_decodes_operands_and_size() {
    let state = State::new(vec![1002, 4, 3, 4, 33]);
    assert_eq!(
        state.next_instruction(),
        Ok(Some((
            Instruction::Multiply(
                Parameter::Position(4),
                Parameter::Immediate(3),
                Parameter::Position(4)
            ),
            4
        )))
    );
    let state = State::new(vec![204, -1]);
    assert_eq!(
        state.next_instruction(),
        Ok(Some((Instruction::Output(Parameter::Relative(-1)), 2)))
    );
    let state = State::new(vec![1105, 1, 7]);
    assert_eq!(
        state.next_instruction(),
        Ok(Some((
            Instruction::JumpIfTrue(Parameter::Immediate(1), Parameter::Immediate(7)),
            3
        )))
    );
    let state = State::new(vec![99]);
    assert_eq!(state.next_instruction(), Ok(Some((Instruction::Halt, 1))));
}

#[test]
fn next_instruction_reads_zero_beyond_the_program() {
    // The operands of the addition lie beyond the program and read as 0.
    let state = State::new(vec![1]);
    assert_eq!(
        state.next_instruction(),
        Ok(Some((
            Instruction::Add(
                Parameter::Position(0),
                Parameter::Position(0),
                Parameter::Position(0)
            ),
            4
        )))
    );
}

#[test]
fn next_instruction_is_absent_when_halted() {
    let mut state = State::new(vec![99]);
    state.halted = true;
    assert_eq!(state.next_instruction(), Ok(None));
}

#[test]
fn unknown_opcode_is_a_fault() {
    assert_eq!(State::new(vec![0]).next_instruction(), Err(Fault::InvalidOpcode));
    assert_eq!(State::new(vec![10]).next_instruction(), Err(Fault::InvalidOpcode));
    assert_eq!(State::new(vec![98]).next_instruction(), Err(Fault::InvalidOpcode));
    assert_eq!(State::new(vec![-1]).next_instruction(), Err(Fault::InvalidOpcode));
    assert_eq!(State::new(vec![-99]).next_instruction(), Err(Fault::InvalidOpcode));
    assert_eq!(State::new(vec![]).next_instruction(), Err(Fault::InvalidOpcode));
    let mut process = Process::new("1,0,0,0").unwrap();
    assert_eq!(process.step(Reply::Nothing), Ok(Progress::Advanced));
    assert_eq!(process.step(Reply::Nothing), Err(Fault::InvalidOpcode));
    assert_eq!(process.state().instruction_pointer, 4);
}

#[test]
fn unknown_mode_is_a_fault() {
    assert_eq!(State::new(vec![301, 0, 0, 0]).next_instruction(), Err(Fault::InvalidMode));
    assert_eq!(State::new(vec![3001, 0, 0, 0]).next_instruction(), Err(Fault::InvalidMode));
    assert_eq!(State::new(vec![90001, 0, 0, 0]).next_instruction(), Err(Fault::InvalidMode));
}

#[test]
fn negative_position_is_a_fault() {
    assert_eq!(State::new(vec![1, -1, 0, 0]).next_instruction(), Err(Fault::InvalidAddress));
}

#[test]
fn instruction_at_the_end_of_the_index_range_is_a_fault() {
    let mut state = State::new(vec![]);
    state.instruction_pointer = usize::MAX;
    state.write(usize::MAX, 1);
    assert_eq!(state.next_instruction(), Err(Fault::InvalidAddress));
    state.write(usize::MAX, 99);
    assert_eq!(state.next_instruction(), Err(Fault::InvalidAddress));
}

#[test]
fn immediate_write_destination_is_a_fault() {
    let mut process = Process::new("11101,1,1,0,99").unwrap();
    let before = process.state();
    assert_eq!(process.request(), Ok(Request::Nothing));
    assert_eq!(process.step(Reply::Nothing), Err(Fault::InvalidWrite));
    assert_eq!(process.state().memory, before.memory);
    assert_eq!(process.state().instruction_pointer, 0);
    let mut process = Process::new("103,0,99").unwrap();
    assert_eq!(process.request(), Err(Fault::InvalidWrite));
    assert_eq!(process.step(Reply::Received(Some(1))), Err(Fault::InvalidWrite));
}

#[test]
fn relative_address_below_zero_is_a_fault() {
    let mut process = Process::new("204,-1,99").unwrap();
    assert_eq!(process.request(), Err(Fault::InvalidAddress));
    assert_eq!(process.step(Reply::Sent(true)), Err(Fault::InvalidAddress));
    let mut process = Process::new("21101,1,1,-5,99").unwrap();
    assert_eq!(process.step(Reply::Nothing), Err(Fault::InvalidAddress));
}

#[test]
fn negative_jump_target_is_a_fault() {
    let mut process = Process::new("1105,1,-7,99").unwrap();
    assert_eq!(process.step(Reply::Nothing), Err(Fault::InvalidAddress));
    assert_eq!(process.state().instruction_pointer, 0);
    // A jump that is not taken does not look at its target.
    let mut process = Process::new("1105,0,-7,99").unwrap();
    assert_eq!(process.step(Reply::Nothing), Ok(Progress::Advanced));
    assert_eq!(process.state().instruction_pointer, 3);
}

#[test]
fn overflow_is_a_fault() {
    let text = format!("1101,{},1,0,99", isize::MAX);
    let mut process = Process::new(&text).unwrap();
    assert_eq!(process.step(Reply::Nothing), Err(Fault::Overflow));
    assert_eq!(process.state().memory[0], 1101);
    let text = format!("1102,{},2,0,99", isize::MAX);
    let mut process = Process::new(&text).unwrap();
    assert_eq!(process.step(Reply::Nothing), Err(Fault::Overflow));
    let text = format!("109,{},109,1,99", isize::MAX);
    let mut process = Process::new(&text).unwrap();
    assert_eq!(process.step(Reply::Nothing), Ok(Progress::Advanced));
    assert_eq!(process.step(Reply::Nothing), Err(Fault::Overflow));
    assert_eq!(process.state().relative_base, isize::MAX);
    let text = format!("1101,{},-1,0,99", isize::MIN);
    let mut process = Process::new(&text).unwrap();
    assert_eq!(process.step(Reply::Nothing), Err(Fault::Overflow));
    let text = format!("1101,{},{},0,99", isize::MAX, isize::MIN);
    let mut process = Process::new(&text).unwrap();
    assert_eq!(process.step(Reply::Nothing), Ok(Progress::Advanced));
    assert_eq!(process.state().memory[0], -1);
}

#[test]
fn advancing_step_moves_by_one_plus_arity() {
    let programs = [
        ("1101,1,1,0", 4usize),
        ("1102,2,3,0", 4),
        ("1107,1,2,0", 4),
        ("1108,1,2,0", 4),
        ("109,5", 2),
        ("1105,0,9", 3),
        ("1106,1,9", 3),
    ];
    for (text, size) in programs {
        let mut process = Process::new(text).unwrap();
        let (instruction, decoded) = process.state().next_instruction().unwrap().unwrap();
        assert_eq!(decoded, size);
        assert_eq!(instruction.parameter_count() + 1, size);
        assert_eq!(process.step(Reply::Nothing), Ok(Progress::Advanced));
        assert_eq!(process.state().instruction_pointer, size);
    }
    let mut process = Process::new("3,0").unwrap();
    assert_eq!(process.step(Reply::Received(Some(5))), Ok(Progress::Advanced));
    assert_eq!(process.state().instruction_pointer, 2);
    let mut process = Process::new("104,5").unwrap();
    assert_eq!(process.step(Reply::Sent(true)), Ok(Progress::Advanced));
    assert_eq!(process.state().instruction_pointer, 2);
}

#[test]
fn taken_jump_sets_the_instruction_pointer() {
    let mut process = Process::new("1105,1,7,99").unwrap();
    assert_eq!(process.step(Reply::Nothing), Ok(Progress::Jumped));
    assert_eq!(process.state().instruction_pointer, 7);
    let mut process = Process::new("1106,0,5,99").unwrap();
    assert_eq!(process.step(Reply::Nothing), Ok(Progress::Jumped));
    assert_eq!(process.state().instruction_pointer, 5);
    let mut process = Process::new("5,1,0,99").unwrap();
    assert_eq!(process.step(Reply::Nothing), Ok(Progress::Jumped));
    assert_eq!(process.state().instruction_pointer, 5);
}

#[test]
fn halt_does_not_advance() {
    let mut process = Process::new("99").unwrap();
    assert!(!process.halted());
    assert_eq!(process.step(Reply::Nothing), Ok(Progress::Halted));
    assert!(process.halted());
    assert_eq!(process.state().instruction_pointer, 0);
}

#[test]
fn step_on_a_halted_process_does_nothing() {
    let mut process = Process::new("104,7,99").unwrap();
    assert_eq!(process.step(Reply::Sent(true)), Ok(Progress::Advanced));
    assert_eq!(process.step(Reply::Nothing), Ok(Progress::Halted));
    let halted = process.state();
    for reply in [Reply::Nothing, Reply::Received(Some(3)), Reply::Sent(true), Reply::Sent(false)] {
        assert_eq!(process.request(), Ok(Request::Nothing));
        assert_eq!(process.step(reply), Ok(Progress::Idle));
        let state = process.state();
        assert_eq!(state.memory, halted.memory);
        assert_eq!(state.additional_memory, halted.additional_memory);
        assert_eq!(state.instruction_pointer, halted.instruction_pointer);
        assert_eq!(state.relative_base, halted.relative_base);
        assert_eq!(state.last_input, halted.last_input);
        assert_eq!(state.last_output, halted.last_output);
        assert!(state.halted);
    }
}

#[test]
fn input_without_a_value_stalls_and_can_be_resumed() {
    let mut process = Process::new("3,0,99").unwrap();
    assert_eq!(process.request(), Ok(Request::Receive));
    for reply in [Reply::Received(None), Reply::Nothing, Reply::Sent(true)] {
        assert_eq!(process.step(reply), Ok(Progress::Stalled));
        let state = process.state();
        assert_eq!(state.instruction_pointer, 0);
        assert_eq!(state.memory, vec![3, 0, 99]);
        assert_eq!(state.last_input, None);
        assert!(!state.halted);
    }
    assert_eq!(process.step(Reply::Received(Some(-4))), Ok(Progress::Advanced));
    let state = process.state();
    assert_eq!(state.memory, vec![-4, 0, 99]);
    assert_eq!(state.last_input, Some(-4));
    assert_eq!(state.instruction_pointer, 2);
}

#[test]
fn output_that_is_not_taken_stalls_with_the_value_recorded() {
    let mut process = Process::new("104,31,99").unwrap();
    assert_eq!(process.request(), Ok(Request::Send(31)));
    for reply in [Reply::Sent(false), Reply::Nothing, Reply::Received(Some(1))] {
        assert_eq!(process.step(reply), Ok(Progress::Stalled));
        let state = process.state();
        assert_eq!(state.instruction_pointer, 0);
        assert_eq!(state.last_output, Some(31));
    }
    assert_eq!(process.step(Reply::Sent(true)), Ok(Progress::Advanced));
    assert_eq!(process.state().instruction_pointer, 2);
}

#[test]
fn input_to_a_relative_destination() {
    let mut process = Process::new("109,10,203,-3,99").unwrap();
    assert_eq!(process.step(Reply::Nothing), Ok(Progress::Advanced));
    assert_eq!(process.request(), Ok(Request::Receive));
    assert_eq!(process.step(Reply::Received(Some(77))), Ok(Progress::Advanced));
    assert_eq!(process.state().read(7), 77);
    assert_eq!(process.state().additional_memory.get(&7), Some(&77));
}

#[test]
fn exchange_takes_from_input_and_adds_to_output() {
    let mut process = Process::new("3,0,4,0,99").unwrap();
    let mut source = Channel::new();
    let mut sink = Channel::new();
    assert_eq!(process.exchange(&mut source, &mut sink), Ok(Progress::Stalled));
    source.send(5);
    source.send(6);
    assert_eq!(process.exchange(&mut source, &mut sink), Ok(Progress::Advanced));
    assert_eq!(source.buffer(), vec![6]);
    assert_eq!(process.exchange(&mut source, &mut sink), Ok(Progress::Advanced));
    assert_eq!(sink.buffer(), vec![5]);
    assert_eq!(source.buffer(), vec![6]);
    assert_eq!(process.exchange(&mut source, &mut sink), Ok(Progress::Halted));
    assert_eq!(process.exchange(&mut source, &mut sink), Ok(Progress::Idle));
}

#[test]
fn run_stalls_on_an_empty_input_channel() {
    let (process, output, end) = run("104,1,3,0,4,0,99", &[]);
    assert_eq!(end, Ok(Stop::Stalled));
    assert_eq!(output, vec![1]);
    assert_eq!(process.state().instruction_pointer, 2);
    assert!(!process.halted());
    assert_eq!(process.request(), Ok(Request::Receive));
}

#[test]
fn run_stops_at_its_limit() {
    // Jumps to itself for ever.
    let mut process = Process::new("1105,1,0").unwrap();
    let mut source = Channel::new();
    let mut sink = Channel::new();
    assert_eq!(process.run(&mut source, &mut sink, 1000), Ok(Stop::Limit));
    assert!(!process.halted());
    let mut process = Process::new("1101,1,1,0,99").unwrap();
    assert_eq!(process.run(&mut source, &mut sink, 0), Ok(Stop::Limit));
    assert_eq!(process.state().instruction_pointer, 0);
    assert_eq!(process.run(&mut source, &mut sink, 1), Ok(Stop::Limit));
    assert_eq!(process.state().instruction_pointer, 4);
    assert_eq!(process.run(&mut source, &mut sink, 1), Ok(Stop::Halted));
}

#[test]
fn run_ends_with_the_fault_it_meets() {
    let (process, output, end) = run("104,3,55,1,2", &[]);
    assert_eq!(end, Err(Fault::InvalidOpcode));
    assert_eq!(output, vec![3]);
    assert_eq!(process.state().instruction_pointer, 2);
}

#[test]
fn run_until_stops_before_a_matching_instruction() {
    let mut process = Process::new("1101,1,1,0,104,5,1102,2,2,0,99").unwrap();
    let mut source = Channel::new();
    let mut sink = Channel::new();
    let mut breakpoints = Breakpoints::default();
    breakpoints.add(Breakpoint::Instruction(Instruction::from_name("MUL").unwrap()));
    assert_eq!(
        process.run_until(&breakpoints, &mut source, &mut sink, 100),
        Ok(Stop::Breakpoint)
    );
    let state = process.state();
    assert_eq!(state.instruction_pointer, 6);
    assert_eq!(state.memory[0], 2);
    assert_eq!(sink.buffer(), vec![5]);
    let (next, _) = state.next_instruction().unwrap().unwrap();
    assert!(breakpoints.evaluate(&state, &next));
    // The breakpoint still matches, so another run does not move.
    assert_eq!(
        process.run_until(&breakpoints, &mut source, &mut sink, 100),
        Ok(Stop::Breakpoint)
    );
    assert_eq!(process.state().instruction_pointer, 6);
}

#[test]
fn run_until_stops_at_a_memory_location() {
    let mut process = Process::new("1101,1,1,0,104,5,1102,2,2,0,99").unwrap();
    let mut source = Channel::new();
    let mut sink = Channel::new();
    let mut breakpoints = Breakpoints::default();
    breakpoints.add(Breakpoint::MemoryLocation(5));
    assert_eq!(
        process.run_until(&breakpoints, &mut source, &mut sink, 100),
        Ok(Stop::Breakpoint)
    );
    assert_eq!(process.state().instruction_pointer, 4);
    assert!(sink.is_empty());
}

#[test]
fn run_until_without_a_match_ends_when_the_process_halts() {
    let mut process = Process::new("1101,1,1,0,99").unwrap();
    let mut source = Channel::new();
    let mut sink = Channel::new();
    let mut breakpoints = Breakpoints::default();
    breakpoints.add(Breakpoint::Instruction(Instruction::from_name("OUT").unwrap()));
    breakpoints.add(Breakpoint::MemoryLocation(40));
    assert_eq!(process.run_until(&breakpoints, &mut source, &mut sink, 100), Ok(Stop::Halted));
    assert!(process.halted());
}

#[test]
fn run_until_ends_on_a_stalled_channel() {
    let mut process = Process::new("3,0,99").unwrap();
    let mut source = Channel::new();
    let mut sink = Channel::new();
    let mut breakpoints = Breakpoints::default();
    breakpoints.add(Breakpoint::Instruction(Instruction::Halt));
    assert_eq!(process.run_until(&breakpoints, &mut source, &mut sink, 100), Ok(Stop::Stalled));
    source.send(1);
    assert_eq!(
        process.run_until(&breakpoints, &mut source, &mut sink, 100),
        Ok(Stop::Breakpoint)
    );
    assert_eq!(process.state().instruction_pointer, 2);
    assert!(!process.halted());
}

#[test]
fn a_chain_of_processes_passes_values_along() {
    // Each process adds its phase to what it receives.
    let text = "3,11,3,12,1,11,12,13,4,13,99,0,0,0";
    let mut first = Process::new(text).unwrap();
    let mut second = Process::new(text).unwrap();
    let mut a = Channel::new();
    let mut b = Channel::new();
    let mut c = Channel::new();
    a.send(10);
    a.send(1);
    b.send(20);
    assert_eq!(second.run(&mut b, &mut c, 100), Ok(Stop::Stalled));
    assert_eq!(first.run(&mut a, &mut b, 100), Ok(Stop::Halted));
    assert_eq!(b.buffer(), vec![11]);
    assert_eq!(second.run(&mut b, &mut c, 100), Ok(Stop::Halted));
    assert_eq!(c.buffer(), vec![31]);
    assert!(a.is_empty());
    assert!(b.is_empty());
}

#[test]
fn program_text_that_is_no_program_gives_no_process() {
    assert_eq!(Process::new("1,x,3").err(), Some(ParseError { token: 1 }));
    assert_eq!(Process::new("").err(), Some(ParseError { token: 0 }));
}

#[test]
fn program_text_may_have_white_space_around_it() {
    let process = Process::new("  1,0,0,0,99\n").unwrap();
    assert_eq!(process.state().memory, vec![1, 0, 0, 0, 99]);
}

#[test]
fn state_is_a_copy() {
    let mut process = Process::new("1101,1,1,0,99").unwrap();
    let before = process.state();
    assert_eq!(process.step(Reply::Nothing), Ok(Progress::Advanced));
    assert_eq!(before.memory, vec![1101, 1, 1, 0, 99]);
    assert_eq!(process.state().memory, vec![2, 1, 1, 0, 99]);
    let copy = before.clone();
    assert_eq!(copy.memory, before.memory);
    assert_eq!(copy.instruction_pointer, before.instruction_pointer);
}
