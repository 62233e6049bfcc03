use intcode::breakpoint::{Breakpoint, Breakpoints};
use intcode::instruction::Instruction;
use intcode::parameter::Parameter;
use intcode::process::State;

fn addition() -> Instruction {
    Instruction::Add(Parameter::Position(9), Parameter::Immediate(8), Parameter::Relative(7))
}

#[test]
fn instruction_breakpoint_compares_the_kind_only() {
    let state = State::new(vec![1, 0, 0, 0, 99]);
    let breakpoint = Breakpoint::Instruction(Instruction::from_name("ADD").unwrap());
    assert!(breakpoint.evaluate(&state, &addition()));
    assert!(!breakpoint.evaluate(
        &state,
        &Instruction::Multiply(Parameter::Position(0), Parameter::Position(0), Parameter::Position(0))
    ));
    assert!(!breakpoint.evaluate(&state, &Instruction::Halt));
    // Equal as values or not, the kind decides.
    assert_ne!(Instruction::from_name("ADD").unwrap(), addition());
    let halt = Breakpoint::Instruction(Instruction::Halt);
    assert!(halt.evaluate(&state, &Instruction::Halt));
    assert!(!halt.evaluate(&state, &addition()));
}

#[test]
fn memory_breakpoint_matches_the_words_of_the_instruction() {
    let mut state = State::new(vec![0; 20]);
    state.instruction_pointer = 10;
    let instruction = addition();
    for location in 0..20 {
        let expected = (10..14).contains(&location);
        assert_eq!(
            Breakpoint::MemoryLocation(location).evaluate(&state, &instruction),
            expected
        );
    }
    let output = Instruction::Output(Parameter::Position(0));
    assert!(Breakpoint::MemoryLocation(10).evaluate(&state, &output));
    assert!(Breakpoint::MemoryLocation(11).evaluate(&state, &output));
    assert!(!Breakpoint::MemoryLocation(12).evaluate(&state, &output));
    assert!(Breakpoint::MemoryLocation(10).evaluate(&state, &Instruction::Halt));
    assert!(!Breakpoint::MemoryLocation(11).evaluate(&state, &Instruction::Halt));
    assert!(!Breakpoint::MemoryLocation(9).evaluate(&state, &Instruction::Halt));
}

#[test]
fn memory_breakpoint_at_the_end_of_the_index_range() {
    let mut state = State::new(vec![]);
    state.instruction_pointer = usize::MAX - 1;
    let instruction = addition();
    assert!(Breakpoint::MemoryLocation(usize::MAX).evaluate(&state, &instruction));
    assert!(Breakpoint::MemoryLocation(usize::MAX - 1).evaluate(&state, &instruction));
    assert!(!Breakpoint::MemoryLocation(usize::MAX - 2).evaluate(&state, &instruction));
    assert!(!Breakpoint::MemoryLocation(0).evaluate(&state, &instruction));
}

#[test]
fn breakpoints_match_if_any_does() {
    let state = State::new(vec![1, 0, 0, 0, 99]);
    let mut breakpoints = Breakpoints::default();
    assert!(!breakpoints.evaluate(&state, &addition()));
    assert!(breakpoints.to_vec().is_empty());
    breakpoints.add(Breakpoint::MemoryLocation(17));
    assert!(!breakpoints.evaluate(&state, &addition()));
    breakpoints.add(Breakpoint::Instruction(Instruction::Halt));
    assert!(!breakpoints.evaluate(&state, &addition()));
    assert!(breakpoints.evaluate(&state, &Instruction::Halt));
    breakpoints.add(Breakpoint::MemoryLocation(3));
    assert!(breakpoints.evaluate(&state, &addition()));
    assert!(!breakpoints.evaluate(&state, &Instruction::Input(Parameter::Position(0))));
    assert_eq!(
        breakpoints.to_vec(),
        vec![
            Breakpoint::MemoryLocation(17),
            Breakpoint::Instruction(Instruction::Halt),
            Breakpoint::MemoryLocation(3)
        ]
    );
    let copy = breakpoints.clone();
    assert_eq!(copy.to_vec(), breakpoints.to_vec());
}
