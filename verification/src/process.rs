//! The state of a program and the process that advances it.
use std::collections::HashMap;
use vstd::prelude::*;
use crate::fault::Fault;
use crate::instruction::Instruction;
use crate::machine::Machine;
use crate::machine::operation_arity;
use crate::machine::Progress;
use crate::machine::Reply;
use crate::machine::Request;
use crate::machine::Run;
use crate::machine::Stop;
use crate::machine::lemma_request_guards;
use crate::breakpoint::Breakpoint;
use crate::breakpoint::Breakpoints;
use crate::ipc::Channel;
use crate::program::ParseError;
use crate::program::parse;
use crate::parameter::Parameter;
use crate::parameter::is_index;
use crate::parameter::relative_index;
use crate::parameter::remainder;

verus! {

broadcast use vstd::std_specs::hash::group_hash_axioms;

/// The state of the Intcode computer.
#[derive(Debug)]
pub struct State {
    /// The memory of the computer.
    pub memory: Vec<isize>,
    /// Any additional memory that the computer can use.
    pub additional_memory: HashMap<usize, isize>,
    /// The current instruction pointer.
    pub instruction_pointer: usize,
    /// The current relative base.
    pub relative_base: isize,
    /// The last output value sent to the output channel.
    pub last_output: Option<isize>,
    /// The last input value received from the input channel.
    pub last_input: Option<isize>,
    /// Whether the computer has halted.
    pub halted: bool,
}

impl View for State {
    type V = Machine;

    open spec fn view(&self) -> Machine {
        Machine {
            memory: self.memory@,
            additional_memory: self.additional_memory@,
            instruction_pointer: self.instruction_pointer,
            relative_base: self.relative_base,
            last_output: self.last_output,
            last_input: self.last_input,
            halted: self.halted,
        }
    }
}

impl Clone for State {
    fn clone(&self) -> (copy: Self)
        ensures
            copy@ == self@,
    {
        State {
            memory: self.memory.clone(),
            additional_memory: self.additional_memory.clone(),
            instruction_pointer: self.instruction_pointer,
            relative_base: self.relative_base,
            last_output: self.last_output,
            last_input: self.last_input,
            halted: self.halted,
        }
    }
}

impl State {
    /// The state of a program that was just loaded: `memory` is the program,
    /// nothing is stored beyond it, and execution starts at index 0 with the
    /// relative base 0.
    pub fn new(memory: Vec<isize>) -> (state: Self)
        ensures
            state@ == Machine::load(memory@),
    {
        Self {
            memory,
            additional_memory: HashMap::new(),
            instruction_pointer: 0,
            relative_base: 0,
            last_output: None,
            last_input: None,
            halted: false,
        }
    }

    /// Check if the memory is empty.
    pub fn is_empty(&self) -> (empty: bool)
        ensures
            empty == (self@.size() == 0),
    {
        self.memory.is_empty() && self.additional_memory.is_empty()
    }

    /// Get the length of the memory: the number of cells that are stored. A
    /// count beyond `usize::MAX` is given as `usize::MAX`.
    pub fn len(&self) -> (len: usize)
        ensures
            len == if self@.size() <= usize::MAX {
                self@.size()
            } else {
                usize::MAX as nat
            },
    {
        match self.memory.len().checked_add(self.additional_memory.len()) {
            Some(len) => len,
            None => usize::MAX,
        }
    }

    /// The value of the cell at `index`: 0 where nothing was stored.
    pub fn read(&self, index: usize) -> (value: isize)
        ensures
            value == self@.read(index as int),
    {
        if index < self.memory.len() {
            self.memory[index]
        } else {
            match self.additional_memory.get(&index) {
                Some(value) => *value,
                None => 0,
            }
        }
    }

    /// Store `value` in the cell at `index`.
    pub fn write(&mut self, index: usize, value: isize)
        ensures
            final(self)@ == old(self)@.write(index, value),
    {
        if index < self.memory.len() {
            self.memory.set(index, value);
        } else {
            self.additional_memory.insert(index, value);
        }
    }

    /// The word `offset` cells after the instruction pointer.
    fn word(&self, offset: usize) -> (word: isize)
        ensures
            word == self@.word(offset as int),
    {
        match self.instruction_pointer.checked_add(offset) {
            Some(index) => self.read(index),
            None => {
                assert(self.memory.len() <= usize::MAX);
                0
            },
        }
    }

    /// Get the next instruction and the size of the instruction: the number
    /// of words it takes, which is what the instruction pointer moves by. If
    /// the computer has halted, then this will return `None`.
    pub fn next_instruction(&self) -> (next: Result<Option<(Instruction, usize)>, Fault>)
        ensures
            next == self@.decode(),
    {
        if self.halted {
            return Ok(None);
        }
        let opcode = self.word(0);
        let operation = opcode % 100;
        let arity: usize = if operation == 1 || operation == 2 || operation == 7 || operation == 8 {
            3
        } else if operation == 5 || operation == 6 {
            2
        } else if operation == 3 || operation == 4 || operation == 9 {
            1
        } else if operation == 99 {
            0
        } else {
            return Err(Fault::InvalidOpcode);
        };
        if self.instruction_pointer > usize::MAX - 1 - arity {
            return Err(Fault::InvalidAddress);
        }
        let mut operands: Vec<Parameter> = Vec::new();
        let mut position: usize = 1;
        while position <= arity
            invariant
                !self.halted,
                opcode == self@.word(0),
                operation == remainder(opcode as int, 100),
                operation_arity(operation as int) == Some(arity as nat),
                is_index(self.instruction_pointer + 1 + arity),
                1 <= position <= arity + 1,
                operands@.len() == position - 1,
                self@.operands((position - 1) as nat) == Ok::<Seq<Parameter>, Fault>(operands@),
            decreases arity + 1 - position,
        {
            let word = self.word(position);
            match Parameter::new(opcode, position as isize, word) {
                Ok(parameter) => {
                    operands.push(parameter);
                },
                Err(fault) => {
                    proof {
                        lemma_operands_fail(self@, position as nat, arity as nat);
                    }
                    return Err(fault);
                },
            }
            position = position + 1;
        }
        let instruction = if operation == 1 {
            Instruction::Add(operands[0], operands[1], operands[2])
        } else if operation == 2 {
            Instruction::Multiply(operands[0], operands[1], operands[2])
        } else if operation == 3 {
            Instruction::Input(operands[0])
        } else if operation == 4 {
            Instruction::Output(operands[0])
        } else if operation == 5 {
            Instruction::JumpIfTrue(operands[0], operands[1])
        } else if operation == 6 {
            Instruction::JumpIfFalse(operands[0], operands[1])
        } else if operation == 7 {
            Instruction::LessThan(operands[0], operands[1], operands[2])
        } else if operation == 8 {
            Instruction::Equals(operands[0], operands[1], operands[2])
        } else if operation == 9 {
            Instruction::AdjustRelativeBaseOffset(operands[0])
        } else {
            Instruction::Halt
        };
        Ok(Some((instruction, arity + 1)))
    }
}

impl State {
    /// The value of a read operand.
    fn value(&self, parameter: Parameter) -> (value: Result<isize, Fault>)
        ensures
            value == self@.value(parameter),
    {
        match parameter {
            Parameter::Position(index) => Ok(self.read(index)),
            Parameter::Immediate(value) => Ok(value),
            Parameter::Relative(offset) => match relative_index(self.relative_base, offset) {
                Some(index) => Ok(self.read(index)),
                None => Err(Fault::InvalidAddress),
            },
        }
    }

    /// The index that a write operand names.
    fn target(&self, parameter: Parameter) -> (index: Result<usize, Fault>)
        ensures
            index == self@.target(parameter),
    {
        match parameter {
            Parameter::Position(index) => Ok(index),
            Parameter::Immediate(_) => Err(Fault::InvalidWrite),
            Parameter::Relative(offset) => match relative_index(self.relative_base, offset) {
                Some(index) => Ok(index),
                None => Err(Fault::InvalidAddress),
            },
        }
    }

    /// Resolve the operands of an instruction that stores a result: first
    /// the destination, then the two values.
    fn resolve(&self, left: Parameter, right: Parameter, dest: Parameter) -> (resolved: Result<
        (usize, isize, isize),
        Fault,
    >)
        ensures
            resolved == match self@.target(dest) {
                Err(fault) => Err::<(usize, isize, isize), Fault>(fault),
                Ok(index) => match self@.value(left) {
                    Err(fault) => Err(fault),
                    Ok(left) => match self@.value(right) {
                        Err(fault) => Err(fault),
                        Ok(right) => Ok((index, left, right)),
                    },
                },
            },
    {
        let index = match self.target(dest) {
            Ok(index) => index,
            Err(fault) => return Err(fault),
        };
        let left = match self.value(left) {
            Ok(left) => left,
            Err(fault) => return Err(fault),
        };
        let right = match self.value(right) {
            Ok(right) => right,
            Err(fault) => return Err(fault),
        };
        Ok((index, left, right))
    }

    /// Resolve the operands of a conditional jump: the condition, then the
    /// target.
    fn resolve_jump(&self, condition: Parameter, target: Parameter) -> (resolved: Result<
        (isize, isize),
        Fault,
    >)
        ensures
            resolved == match self@.value(condition) {
                Err(fault) => Err::<(isize, isize), Fault>(fault),
                Ok(condition) => match self@.value(target) {
                    Err(fault) => Err(fault),
                    Ok(target) => Ok((condition, target)),
                },
            },
    {
        let condition = match self.value(condition) {
            Ok(condition) => condition,
            Err(fault) => return Err(fault),
        };
        let target = match self.value(target) {
            Ok(target) => target,
            Err(fault) => return Err(fault),
        };
        Ok((condition, target))
    }
}

/// A process that runs an Intcode program. It holds the program's state and
/// leaves the channels to its host, which answers each `Request` with a
/// `Reply`.
pub struct Process {
    state: State,
}

impl View for Process {
    type V = Machine;

    closed spec fn view(&self) -> Machine {
        self.state@
    }
}

impl Process {
    /// Create a new process with the given program: a line of decimal
    /// integers with commas between them and, at most, white space around
    /// it. Text that is no such line gives no process.
    pub fn new(program: &str) -> (process: Result<Self, ParseError>)
        ensures
            match crate::program::program(program@) {
                Ok(cells) => process is Ok && process->Ok_0@ == Machine::load(cells),
                Err(error) => process is Err && process->Err_0 == error,
            },
    {
        match parse(program) {
            Ok(memory) => Ok(Self { state: State::new(memory) }),
            Err(error) => Err(error),
        }
    }

    /// Set the memory at the given index to the given value.
    pub fn set_memory(&mut self, index: usize, value: isize)
        ensures
            final(self)@ == old(self)@.write(index, value),
    {
        self.state.write(index, value);
    }

    /// Whether the process has halted.
    pub fn halted(&self) -> (halted: bool)
        ensures
            halted == self@.halted,
    {
        self.state.halted
    }

    /// Get a copy of the current state of this process.
    pub fn state(&self) -> (state: State)
        ensures
            state@ == self@,
    {
        self.state.clone()
    }

    /// What the next step needs from the channels: nothing, one value from
    /// the receiver, or a value taken by the sender.
    pub fn request(&self) -> (request: Result<Request, Fault>)
        ensures
            request == self@.request(),
    {
        match self.state.next_instruction() {
            Err(fault) => Err(fault),
            Ok(None) => Ok(Request::Nothing),
            Ok(Some((instruction, _))) => match instruction {
                Instruction::Input(dest) => match self.state.target(dest) {
                    Err(fault) => Err(fault),
                    Ok(_) => Ok(Request::Receive),
                },
                Instruction::Output(value) => match self.state.value(value) {
                    Err(fault) => Err(fault),
                    Ok(value) => Ok(Request::Send(value)),
                },
                _ => Ok(Request::Nothing),
            },
        }
    }

    /// Run a single step of the process, given what the channels answered to
    /// its `request`. If the instruction ran to its end, the instruction
    /// pointer moves past it. An input instruction that is given no value,
    /// and an output instruction that is not told that its value was taken,
    /// stall: they are still to run. A fault leaves the process as it was.
    pub fn step(&mut self, reply: Reply) -> (progress: Result<Progress, Fault>)
        ensures
            match old(self)@.step(reply) {
                Ok((after, made)) => progress == Ok::<Progress, Fault>(made) && final(self)@
                    == after,
                Err(fault) => progress == Err::<Progress, Fault>(fault) && final(self)@ == old(
                    self,
                )@,
            },
    {
        match self.state.next_instruction() {
            Err(fault) => Err(fault),
            Ok(None) => Ok(Progress::Idle),
            Ok(Some((instruction, instruction_size))) => {
                match self.evaluate_instruction(instruction, reply) {
                    Err(fault) => Err(fault),
                    Ok(true) => {
                        self.state.instruction_pointer = self.state.instruction_pointer
                            + instruction_size;
                        Ok(Progress::Advanced)
                    },
                    Ok(false) => Ok(
                        match instruction {
                            Instruction::JumpIfTrue(_, _)
                            | Instruction::JumpIfFalse(_, _) => Progress::Jumped,
                            Instruction::Halt => Progress::Halted,
                            _ => Progress::Stalled,
                        },
                    ),
                }
            },
        }
    }

    /// Run a single step of the process between two channels of this
    /// library: an input instruction takes the oldest value of `input` and
    /// stalls where there is none, an output instruction adds its value to
    /// `output`. A fault leaves the process and both channels as they were.
    pub fn exchange(&mut self, input: &mut Channel, output: &mut Channel) -> (progress: Result<
        Progress,
        Fault,
    >)
        ensures
            match old(self)@.exchange(old(input)@, old(output)@) {
                Ok((after, input_after, output_after, made)) => {
                    &&& progress == Ok::<Progress, Fault>(made)
                    &&& final(self)@ == after
                    &&& final(input)@ == input_after
                    &&& final(output)@ == output_after
                },
                Err(fault) => {
                    &&& progress == Err::<Progress, Fault>(fault)
                    &&& final(self)@ == old(self)@
                    &&& final(input)@ == old(input)@
                    &&& final(output)@ == old(output)@
                },
            },
    {
        let request = match self.request() {
            Ok(request) => request,
            Err(fault) => return Err(fault),
        };
        let reply = match request {
            Request::Nothing => Reply::Nothing,
            Request::Receive => Reply::Received(input.recv()),
            Request::Send(value) => {
                output.send(value);
                Reply::Sent(true)
            },
        };
        proof {
            if request != Request::Nothing {
                lemma_request_guards(self@, reply);
            }
        }
        self.step(reply)
    }

    /// Whether a run until one of `breakpoints` matches is to rest before
    /// the next step: `Stop::Halted` if the process has halted,
    /// `Stop::Breakpoint` if one of the breakpoints matches the instruction
    /// that would run next, `None` if the run goes on.
    pub fn rest(&self, breakpoints: &Breakpoints) -> (rest: Result<Option<Stop>, Fault>)
        ensures
            rest == self@.rest(breakpoints@),
    {
        match self.state.next_instruction() {
            Err(fault) => Err(fault),
            Ok(None) => Ok(Some(Stop::Halted)),
            Ok(Some((instruction, _))) => if breakpoints.evaluate(&self.state, &instruction) {
                Ok(Some(Stop::Breakpoint))
            } else {
                Ok(None)
            },
        }
    }

    /// Run the process between two channels of this library until it halts,
    /// stalls on an empty input channel, or has made `limit` steps.
    pub fn run(&mut self, input: &mut Channel, output: &mut Channel, limit: usize) -> (end: Result<
        Stop,
        Fault,
    >)
        ensures
            (Run { machine: final(self)@, input: final(input)@, output: final(output)@, end })
                == old(self)@.run_until(
                Seq::<Breakpoint>::empty(),
                old(input)@,
                old(output)@,
                limit as nat,
            ),
    {
        let none = Breakpoints::default();
        self.run_until(&none, input, output, limit)
    }

    /// Run the process between two channels of this library until one of
    /// `breakpoints` matches the instruction that would run next. The run
    /// also ends where the process halts, stalls on an empty input channel,
    /// or has made `limit` steps.
    pub fn run_until(
        &mut self,
        breakpoints: &Breakpoints,
        input: &mut Channel,
        output: &mut Channel,
        limit: usize,
    ) -> (end: Result<Stop, Fault>)
        ensures
            (Run { machine: final(self)@, input: final(input)@, output: final(output)@, end })
                == old(self)@.run_until(breakpoints@, old(input)@, old(output)@, limit as nat),
    {
        let ghost whole = self@.run_until(breakpoints@, input@, output@, limit as nat);
        let mut left: usize = limit;
        loop
            invariant
                whole == old(self)@.run_until(
                    breakpoints@,
                    old(input)@,
                    old(output)@,
                    limit as nat,
                ),
                whole == self@.run_until(breakpoints@, input@, output@, left as nat),
            decreases left,
        {
            match self.rest(breakpoints) {
                Err(fault) => return Err(fault),
                Ok(Some(stop)) => return Ok(stop),
                Ok(None) => {
                    if left == 0 {
                        return Ok(Stop::Limit);
                    }
                    match self.exchange(input, output) {
                        Err(fault) => return Err(fault),
                        Ok(Progress::Stalled) => return Ok(Stop::Stalled),
                        Ok(_) => {
                            left = left - 1;
                        },
                    }
                },
            }
        }
    }

    /// Carry out `instruction` on the state, given what the channels
    /// answered, and say whether the instruction pointer is to move past it.
    /// The instruction pointer itself changes only where a jump is taken.
    fn evaluate_instruction(&mut self, instruction: Instruction, reply: Reply) -> (advance: Result<
        bool,
        Fault,
    >)
        ensures
            match old(self)@.evaluate(instruction, reply) {
                Ok((after, moves)) => advance == Ok::<bool, Fault>(moves) && final(self)@ == after,
                Err(fault) => advance == Err::<bool, Fault>(fault) && final(self)@ == old(self)@,
            },
    {
        // If the process is halted, then we don't want to run any more instructions.
        if self.state.halted {
            return Ok(false);
        }
        match instruction {
            Instruction::Add(left, right, dest) => {
                let (index, left, right) = match self.state.resolve(left, right, dest) {
                    Ok(resolved) => resolved,
                    Err(fault) => return Err(fault),
                };
                match left.checked_add(right) {
                    Some(sum) => self.state.write(index, sum),
                    None => return Err(Fault::Overflow),
                }
            },
            Instruction::Multiply(left, right, dest) => {
                let (index, left, right) = match self.state.resolve(left, right, dest) {
                    Ok(resolved) => resolved,
                    Err(fault) => return Err(fault),
                };
                match left.checked_mul(right) {
                    Some(product) => self.state.write(index, product),
                    None => return Err(Fault::Overflow),
                }
            },
            Instruction::LessThan(left, right, dest) => {
                let (index, left, right) = match self.state.resolve(left, right, dest) {
                    Ok(resolved) => resolved,
                    Err(fault) => return Err(fault),
                };
                self.state.write(index, if left < right { 1 } else { 0 });
            },
            Instruction::Equals(left, right, dest) => {
                let (index, left, right) = match self.state.resolve(left, right, dest) {
                    Ok(resolved) => resolved,
                    Err(fault) => return Err(fault),
                };
                self.state.write(index, if left == right { 1 } else { 0 });
            },
            Instruction::Input(dest) => {
                let index = match self.state.target(dest) {
                    Ok(index) => index,
                    Err(fault) => return Err(fault),
                };
                match reply {
                    Reply::Received(Some(value)) => {
                        self.state.write(index, value);
                        self.state.last_input = Some(value);
                    },
                    _ => return Ok(false),
                }
            },
            Instruction::Output(value) => {
                let value = match self.state.value(value) {
                    Ok(value) => value,
                    Err(fault) => return Err(fault),
                };
                self.state.last_output = Some(value);
                match reply {
                    Reply::Sent(true) => {},
                    _ => return Ok(false),
                }
            },
            Instruction::JumpIfTrue(condition, target) => {
                let (condition, target) = match self.state.resolve_jump(condition, target) {
                    Ok(resolved) => resolved,
                    Err(fault) => return Err(fault),
                };
                if condition != 0 {
                    if target < 0 {
                        return Err(Fault::InvalidAddress);
                    }
                    self.state.instruction_pointer = target as usize;
                    // We don't want to update the instruction pointer.
                    return Ok(false);
                }
            },
            Instruction::JumpIfFalse(condition, target) => {
                let (condition, target) = match self.state.resolve_jump(condition, target) {
                    Ok(resolved) => resolved,
                    Err(fault) => return Err(fault),
                };
                if condition == 0 {
                    if target < 0 {
                        return Err(Fault::InvalidAddress);
                    }
                    self.state.instruction_pointer = target as usize;
                    // We don't want to update the instruction pointer.
                    return Ok(false);
                }
            },
            Instruction::AdjustRelativeBaseOffset(value) => {
                let value = match self.state.value(value) {
                    Ok(value) => value,
                    Err(fault) => return Err(fault),
                };
                match self.state.relative_base.checked_add(value) {
                    Some(base) => self.state.relative_base = base,
                    None => return Err(Fault::Overflow),
                }
            },
            Instruction::Halt => {
                self.state.halted = true;
                return Ok(false);
            },
        };
        Ok(true)
    }
}

/// Once the operand at `position` fails to decode, so does every longer run
/// of operands, with the same fault.
proof fn lemma_operands_fail(machine: Machine, position: nat, count: nat)
    requires
        1 <= position <= count,
        machine.operands((position - 1) as nat) is Ok,
        machine.operand(position as int) is Err,
    ensures
        machine.operands(count) == Err::<Seq<Parameter>, Fault>(
            machine.operand(position as int)->Err_0,
        ),
    decreases count,
{
    if count > position {
        lemma_operands_fail(machine, position, (count - 1) as nat);
    }
}

} // verus!
