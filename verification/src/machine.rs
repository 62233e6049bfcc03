//! The mathematical model of a running program: what its memory holds, what
//! the word under the instruction pointer decodes to, and what one step makes
//! of it. The executor in `process` is proved against this model, and the
//! laws at the end of this file are proved of the model itself.
use vstd::prelude::*;
use crate::breakpoint::Breakpoint;
use crate::breakpoint::any_matches;
use crate::fault::Fault;
use crate::instruction::Instruction;
use crate::parameter::Parameter;
use crate::parameter::is_index;
use crate::parameter::remainder;

verus! {

/// What the instruction under the instruction pointer asks of the channels
/// before it can complete.
#[derive(Debug, Clone, Copy, PartialEq, Eq, Structural)]
pub enum Request {
    /// The instruction completes by itself.
    Nothing,
    /// An input instruction waits for one value from the receiver.
    Receive,
    /// An output instruction wants this value handed to the sender.
    Send(isize),
}

/// What the channels answered to a `Request`.
#[derive(Debug, Clone, Copy, PartialEq, Eq, Structural)]
pub enum Reply {
    /// No channel was used.
    Nothing,
    /// What the receiver gave: a value, or nothing because the channel is
    /// closed or empty.
    Received(Option<isize>),
    /// Whether the sender took the value.
    Sent(bool),
}

impl Reply {
    /// The value that an input instruction gets from this reply.
    pub open spec fn received(self) -> Option<isize> {
        match self {
            Reply::Received(value) => value,
            _ => None,
        }
    }

    /// Whether an output instruction has had its value taken.
    pub open spec fn sent(self) -> bool {
        self == Reply::Sent(true)
    }
}

/// What a step did.
#[derive(Debug, Clone, Copy, PartialEq, Eq, Structural)]
pub enum Progress {
    /// The instruction completed and the instruction pointer moved past it.
    Advanced,
    /// A jump was taken: the instruction pointer is at its target.
    Jumped,
    /// The halt instruction ran: the machine is halted from now on.
    Halted,
    /// The channel did not serve the instruction, which is still to run.
    Stalled,
    /// The machine was halted already and nothing happened.
    Idle,
}

/// Why a run came to rest.
#[derive(Debug, Clone, Copy, PartialEq, Eq, Structural)]
pub enum Stop {
    /// The machine is halted.
    Halted,
    /// A breakpoint matches the instruction that would run next.
    Breakpoint,
    /// An input instruction found its channel empty.
    Stalled,
    /// The allowance of steps is used up.
    Limit,
}

/// A machine between the channel it reads and the channel it writes, and
/// how the run that led here ended.
pub struct Run {
    /// The machine after the run.
    pub machine: Machine,
    /// What is left in the input channel.
    pub input: Seq<isize>,
    /// What the output channel holds.
    pub output: Seq<isize>,
    /// Why the run ended, or the fault that ended it.
    pub end: Result<Stop, Fault>,
}

/// The state of a machine as a mathematical value.
pub struct Machine {
    /// The program as loaded: the dense prefix of the tape.
    pub memory: Seq<isize>,
    /// The cells written beyond the dense prefix.
    pub additional_memory: Map<usize, isize>,
    /// The index of the next opcode word.
    pub instruction_pointer: usize,
    /// What relative operands are added to.
    pub relative_base: isize,
    /// The last value handed to the output channel.
    pub last_output: Option<isize>,
    /// The last value taken from the input channel.
    pub last_input: Option<isize>,
    /// Whether the halt instruction has run.
    pub halted: bool,
}

/// The number of operands of the operation with the code `operation`, or
/// `None` where no operation has that code.
pub open spec fn operation_arity(operation: int) -> Option<nat> {
    if operation == 1 || operation == 2 || operation == 7 || operation == 8 {
        Some(3)
    } else if operation == 5 || operation == 6 {
        Some(2)
    } else if operation == 3 || operation == 4 || operation == 9 {
        Some(1)
    } else if operation == 99 {
        Some(0)
    } else {
        None
    }
}

/// The instruction with the code `operation` and the operands `operands`,
/// which are as many as the operation takes.
pub open spec fn assemble(operation: int, operands: Seq<Parameter>) -> Instruction {
    if operation == 1 {
        Instruction::Add(operands[0], operands[1], operands[2])
    } else if operation == 2 {
        Instruction::Multiply(operands[0], operands[1], operands[2])
    } else if operation == 3 {
        Instruction::Input(operands[0])
    } else if operation == 4 {
        Instruction::Output(operands[0])
    } else if operation == 5 {
        Instruction::JumpIfTrue(operands[0], operands[1])
    } else if operation == 6 {
        Instruction::JumpIfFalse(operands[0], operands[1])
    } else if operation == 7 {
        Instruction::LessThan(operands[0], operands[1], operands[2])
    } else if operation == 8 {
        Instruction::Equals(operands[0], operands[1], operands[2])
    } else if operation == 9 {
        Instruction::AdjustRelativeBaseOffset(operands[0])
    } else {
        Instruction::Halt
    }
}

/// Whether `value` fits a memory cell.
pub open spec fn fits(value: int) -> bool {
    isize::MIN <= value <= isize::MAX
}

impl Machine {
    /// The machine that a freshly loaded program starts as.
    pub open spec fn load(memory: Seq<isize>) -> Machine {
        Machine {
            memory,
            additional_memory: Map::empty(),
            instruction_pointer: 0,
            relative_base: 0,
            last_output: None,
            last_input: None,
            halted: false,
        }
    }

    /// The number of cells that are stored: the dense prefix and the cells
    /// written beyond it.
    pub open spec fn size(self) -> nat {
        self.memory.len() + self.additional_memory.len()
    }

    /// The value of the cell at `index`. The tape has no end and holds 0
    /// wherever nothing was stored.
    pub open spec fn read(self, index: int) -> isize {
        if 0 <= index < self.memory.len() {
            self.memory[index]
        } else if is_index(index) && self.additional_memory.contains_key(index as usize) {
            self.additional_memory[index as usize]
        } else {
            0
        }
    }

    /// The machine after `value` is stored in the cell at `index`: in the
    /// dense prefix where the index falls in it, beyond it otherwise.
    pub open spec fn write(self, index: usize, value: isize) -> Machine {
        if index < self.memory.len() {
            Machine { memory: self.memory.update(index as int, value), ..self }
        } else {
            Machine { additional_memory: self.additional_memory.insert(index, value), ..self }
        }
    }

    /// The word `offset` cells after the instruction pointer.
    pub open spec fn word(self, offset: int) -> isize {
        self.read(self.instruction_pointer + offset)
    }

    /// The operand at the 1-based `position` of the instruction under the
    /// instruction pointer.
    pub open spec fn operand(self, position: int) -> Result<Parameter, Fault> {
        Parameter::decoded(self.word(0) as int, position, self.word(position))
    }

    /// The first `count` operands of the instruction under the instruction
    /// pointer, or the fault of the first among them that does not decode.
    pub open spec fn operands(self, count: nat) -> Result<Seq<Parameter>, Fault>
        decreases count,
    {
        if count == 0 {
            Ok(Seq::empty())
        } else {
            match self.operands((count - 1) as nat) {
                Err(fault) => Err(fault),
                Ok(before) => match self.operand(count as int) {
                    Err(fault) => Err(fault),
                    Ok(last) => Ok(before.push(last)),
                },
            }
        }
    }

    /// The instruction under the instruction pointer. The operation is the
    /// opcode word modulo 100, with the sign of the word; it must be one of
    /// the ten. The index after the last word of the instruction must be
    /// within the range of indices, so that the instruction pointer can move
    /// there, and each operand must decode.
    pub open spec fn fetch(self) -> Result<Instruction, Fault> {
        let operation = remainder(self.word(0) as int, 100);
        match operation_arity(operation) {
            None => Err(Fault::InvalidOpcode),
            Some(arity) => if !is_index(self.instruction_pointer + 1 + arity) {
                Err(Fault::InvalidAddress)
            } else {
                match self.operands(arity) {
                    Err(fault) => Err(fault),
                    Ok(operands) => Ok(assemble(operation, operands)),
                }
            },
        }
    }

    /// The next instruction with the number of words it takes, `None` once
    /// the machine is halted.
    pub open spec fn decode(self) -> Result<Option<(Instruction, usize)>, Fault> {
        if self.halted {
            Ok(None)
        } else {
            match self.fetch() {
                Err(fault) => Err(fault),
                Ok(instruction) => Ok(Some((instruction, (1 + instruction.arity()) as usize))),
            }
        }
    }

    /// The value of a read operand: the cell that a position names, the
    /// literal of an immediate, the cell at the relative base plus the offset.
    pub open spec fn value(self, parameter: Parameter) -> Result<isize, Fault> {
        match parameter {
            Parameter::Position(index) => Ok(self.read(index as int)),
            Parameter::Immediate(value) => Ok(value),
            Parameter::Relative(offset) => if is_index(self.relative_base + offset) {
                Ok(self.read(self.relative_base + offset))
            } else {
                Err(Fault::InvalidAddress)
            },
        }
    }

    /// The index that a write operand names. An immediate names none.
    pub open spec fn target(self, parameter: Parameter) -> Result<usize, Fault> {
        match parameter {
            Parameter::Position(index) => Ok(index),
            Parameter::Immediate(_) => Err(Fault::InvalidWrite),
            Parameter::Relative(offset) => if is_index(self.relative_base + offset) {
                Ok((self.relative_base + offset) as usize)
            } else {
                Err(Fault::InvalidAddress)
            },
        }
    }

    /// The machine after an instruction that stores `result`, computed from
    /// `left` and `right`, at `dest`. The destination is resolved first, then
    /// the two operands; the result must fit a cell.
    pub open spec fn store(
        self,
        left: Parameter,
        right: Parameter,
        dest: Parameter,
        result: spec_fn(int, int) -> int,
    ) -> Result<(Machine, bool), Fault> {
        match self.target(dest) {
            Err(fault) => Err(fault),
            Ok(index) => match self.value(left) {
                Err(fault) => Err(fault),
                Ok(left) => match self.value(right) {
                    Err(fault) => Err(fault),
                    Ok(right) => if fits(result(left as int, right as int)) {
                        Ok((self.write(index, result(left as int, right as int) as isize), true))
                    } else {
                        Err(Fault::Overflow)
                    },
                },
            },
        }
    }

    /// The machine after a conditional jump that is taken where `taken` holds
    /// of the condition. Both operands are read before the test; a target
    /// that is taken must be an index.
    pub open spec fn jump(self, condition: Parameter, target: Parameter, taken: spec_fn(int) -> bool)
        -> Result<(Machine, bool), Fault> {
        match self.value(condition) {
            Err(fault) => Err(fault),
            Ok(condition) => match self.value(target) {
                Err(fault) => Err(fault),
                Ok(target) => if !taken(condition as int) {
                    Ok((self, true))
                } else if target >= 0 {
                    Ok((Machine { instruction_pointer: target as usize, ..self }, false))
                } else {
                    Err(Fault::InvalidAddress)
                },
            },
        }
    }

    /// What `instruction` makes of the machine, given what the channels
    /// answered, and whether the instruction pointer is to move past the
    /// instruction afterwards. A halted machine stays as it is.
    pub open spec fn evaluate(self, instruction: Instruction, reply: Reply) -> Result<
        (Machine, bool),
        Fault,
    > {
        if self.halted {
            Ok((self, false))
        } else {
            match instruction {
                Instruction::Add(left, right, dest) => self.store(
                    left,
                    right,
                    dest,
                    |a: int, b: int| a + b,
                ),
                Instruction::Multiply(left, right, dest) => self.store(
                    left,
                    right,
                    dest,
                    |a: int, b: int| a * b,
                ),
                Instruction::LessThan(left, right, dest) => self.store(
                    left,
                    right,
                    dest,
                    |a: int, b: int| if a < b { 1int } else { 0int },
                ),
                Instruction::Equals(left, right, dest) => self.store(
                    left,
                    right,
                    dest,
                    |a: int, b: int| if a == b { 1int } else { 0int },
                ),
                Instruction::Input(dest) => match self.target(dest) {
                    Err(fault) => Err(fault),
                    Ok(index) => match reply.received() {
                        Some(value) => Ok(
                            (Machine { last_input: Some(value), ..self.write(index, value) }, true),
                        ),
                        None => Ok((self, false)),
                    },
                },
                Instruction::Output(value) => match self.value(value) {
                    Err(fault) => Err(fault),
                    Ok(value) => Ok((Machine { last_output: Some(value), ..self }, reply.sent())),
                },
                Instruction::JumpIfTrue(condition, target) => self.jump(
                    condition,
                    target,
                    |c: int| c != 0,
                ),
                Instruction::JumpIfFalse(condition, target) => self.jump(
                    condition,
                    target,
                    |c: int| c == 0,
                ),
                Instruction::AdjustRelativeBaseOffset(value) => match self.value(value) {
                    Err(fault) => Err(fault),
                    Ok(value) => if fits(self.relative_base + value) {
                        Ok(
                            (
                                Machine {
                                    relative_base: (self.relative_base + value) as isize,
                                    ..self
                                },
                                true,
                            ),
                        )
                    } else {
                        Err(Fault::Overflow)
                    },
                },
                Instruction::Halt => Ok((Machine { halted: true, ..self }, false)),
            }
        }
    }

    /// What an instruction that did not advance did instead.
    pub open spec fn held(instruction: Instruction) -> Progress {
        match instruction {
            Instruction::JumpIfTrue(_, _) | Instruction::JumpIfFalse(_, _) => Progress::Jumped,
            Instruction::Halt => Progress::Halted,
            _ => Progress::Stalled,
        }
    }

    /// One step: decode the instruction under the instruction pointer,
    /// evaluate it, and move past it if the evaluation says so. A fault
    /// leaves no machine behind; the caller keeps the one it had.
    pub open spec fn step(self, reply: Reply) -> Result<(Machine, Progress), Fault> {
        match self.decode() {
            Err(fault) => Err(fault),
            Ok(None) => Ok((self, Progress::Idle)),
            Ok(Some((instruction, size))) => match self.evaluate(instruction, reply) {
                Err(fault) => Err(fault),
                Ok((after, advance)) => if advance {
                    Ok(
                        (
                            Machine {
                                instruction_pointer: (self.instruction_pointer + size) as usize,
                                ..after
                            },
                            Progress::Advanced,
                        ),
                    )
                } else {
                    Ok((after, Machine::held(instruction)))
                },
            },
        }
    }

    /// What the next step asks of the channels. A fault that the step would
    /// meet before it uses a channel shows here already.
    pub open spec fn request(self) -> Result<Request, Fault> {
        match self.decode() {
            Err(fault) => Err(fault),
            Ok(None) => Ok(Request::Nothing),
            Ok(Some((instruction, _))) => match instruction {
                Instruction::Input(dest) => match self.target(dest) {
                    Err(fault) => Err(fault),
                    Ok(_) => Ok(Request::Receive),
                },
                Instruction::Output(value) => match self.value(value) {
                    Err(fault) => Err(fault),
                    Ok(value) => Ok(Request::Send(value)),
                },
                _ => Ok(Request::Nothing),
            },
        }
    }

    /// What a channel that holds `input` answers to `request`, and what a
    /// channel without bound answers to a value it is handed.
    pub open spec fn answer(request: Request, input: Seq<isize>) -> Reply {
        match request {
            Request::Nothing => Reply::Nothing,
            Request::Receive => Reply::Received(
                if input.len() > 0 {
                    Some(input.first())
                } else {
                    None
                },
            ),
            Request::Send(_) => Reply::Sent(true),
        }
    }

    /// One step between two channels: the request is answered from `input`
    /// and into `output`, and the step is made with that answer. The result
    /// is the machine and the two channels after the step, and what the step
    /// did. A fault leaves no result; the caller keeps what it had.
    pub open spec fn exchange(self, input: Seq<isize>, output: Seq<isize>) -> Result<
        (Machine, Seq<isize>, Seq<isize>, Progress),
        Fault,
    > {
        match self.request() {
            Err(fault) => Err(fault),
            Ok(request) => match self.step(Machine::answer(request, input)) {
                Err(fault) => Err(fault),
                Ok((after, progress)) => Ok(
                    (
                        after,
                        if request == Request::Receive && input.len() > 0 {
                            input.drop_first()
                        } else {
                            input
                        },
                        match request {
                            Request::Send(value) => output.push(value),
                            _ => output,
                        },
                        progress,
                    ),
                ),
            },
        }
    }

    /// Whether a run is to rest before the next step, and why: on a halted
    /// machine, or before an instruction that one of `breakpoints` matches.
    /// `None` says that the run goes on.
    pub open spec fn rest(self, breakpoints: Seq<Breakpoint>) -> Result<Option<Stop>, Fault> {
        match self.decode() {
            Err(fault) => Err(fault),
            Ok(None) => Ok(Some(Stop::Halted)),
            Ok(Some((instruction, _))) => if any_matches(breakpoints, self, instruction) {
                Ok(Some(Stop::Breakpoint))
            } else {
                Ok(None)
            },
        }
    }

    /// A run of at most `limit` steps between two channels. Before each
    /// step the run ends if the machine is halted or one of `breakpoints`
    /// matches the next instruction; after a step it ends if the step
    /// stalled. A fault ends it with the machine and channels as the faulty
    /// step found them.
    pub open spec fn run_until(
        self,
        breakpoints: Seq<Breakpoint>,
        input: Seq<isize>,
        output: Seq<isize>,
        limit: nat,
    ) -> Run
        decreases limit,
    {
        match self.rest(breakpoints) {
            Err(fault) => Run { machine: self, input, output, end: Err(fault) },
            Ok(Some(stop)) => Run { machine: self, input, output, end: Ok(stop) },
            Ok(None) => if limit == 0 {
                Run { machine: self, input, output, end: Ok(Stop::Limit) }
            } else {
                match self.exchange(input, output) {
                    Err(fault) => Run { machine: self, input, output, end: Err(fault) },
                    Ok((after, input, output, progress)) => if progress == Progress::Stalled {
                        Run { machine: after, input, output, end: Ok(Stop::Stalled) }
                    } else {
                        after.run_until(breakpoints, input, output, (limit - 1) as nat)
                    },
                }
            },
        }
    }
}

/// A step that advances moves the instruction pointer by one plus the arity
/// of the instruction that ran, and by nothing else.
pub proof fn lemma_advance(machine: Machine, reply: Reply)
    requires
        machine.step(reply) is Ok,
        machine.step(reply)->Ok_0.1 == Progress::Advanced,
    ensures
        machine.decode() is Ok,
        machine.decode()->Ok_0 is Some,
        machine.step(reply)->Ok_0.0.instruction_pointer == machine.instruction_pointer + 1
            + machine.decode()->Ok_0->Some_0.0.arity(),
{
    let instruction = machine.decode()->Ok_0->Some_0.0;
    instruction.lemma_operands_len();
}

/// A cell holds what was last written to it, in the dense prefix and beyond
/// it alike, and a write changes no other cell.
pub proof fn lemma_write_read(machine: Machine, index: usize, value: isize, other: int)
    ensures
        machine.write(index, value).read(index as int) == value,
        other != index ==> machine.write(index, value).read(other) == machine.read(other),
{
}

/// A step of a halted machine does nothing, whatever the channels answer,
/// and asks nothing of them.
pub proof fn lemma_halted_is_idle(machine: Machine, reply: Reply)
    requires
        machine.halted,
    ensures
        machine.step(reply) == Ok::<(Machine, Progress), Fault>((machine, Progress::Idle)),
        machine.request() == Ok::<Request, Fault>(Request::Nothing),
{
}

/// Only the halt instruction halts a machine, and nothing starts it again.
pub proof fn lemma_halt(machine: Machine, reply: Reply)
    requires
        machine.step(reply) is Ok,
    ensures
        machine.halted ==> machine.step(reply)->Ok_0.0.halted,
        machine.step(reply)->Ok_0.1 == Progress::Halted <==> !machine.halted
            && machine.step(reply)->Ok_0.0.halted,
{
}

/// A step whose request was answered from a channel does not fault: what
/// could go wrong showed in the request.
pub proof fn lemma_request_guards(machine: Machine, reply: Reply)
    requires
        machine.request() is Ok,
        machine.request()->Ok_0 != Request::Nothing,
    ensures
        machine.step(reply) is Ok,
{
}

/// A step stalls only on a channel: on an input instruction that was given
/// no value, or an output instruction whose value was not taken. It leaves
/// the instruction to run again.
pub proof fn lemma_stall(machine: Machine, reply: Reply)
    requires
        machine.step(reply) is Ok,
        machine.step(reply)->Ok_0.1 == Progress::Stalled,
    ensures
        machine.request() == Ok::<Request, Fault>(Request::Receive) && reply.received() is None
            || machine.request() is Ok && machine.request()->Ok_0 is Send && !reply.sent(),
        machine.step(reply)->Ok_0.0.instruction_pointer == machine.instruction_pointer,
        machine.step(reply)->Ok_0.0.memory == machine.memory,
        machine.step(reply)->Ok_0.0.additional_memory == machine.additional_memory,
        !machine.step(reply)->Ok_0.0.halted,
{
}

/// Where a run comes to rest: on a halted machine, or before an instruction
/// that one of the breakpoints matches, or on an input instruction that its
/// channel had nothing for, or at the end of its allowance, or on the fault
/// that the next step meets.
pub proof fn lemma_run_until(
    machine: Machine,
    breakpoints: Seq<Breakpoint>,
    input: Seq<isize>,
    output: Seq<isize>,
    limit: nat,
)
    ensures
        ({
            let run = machine.run_until(breakpoints, input, output, limit);
            match run.end {
                Ok(Stop::Halted) => run.machine.halted,
                Ok(Stop::Breakpoint) => !run.machine.halted && run.machine.decode() is Ok
                    && any_matches(breakpoints, run.machine, run.machine.decode()->Ok_0->Some_0.0),
                Ok(Stop::Stalled) => !run.machine.halted && run.input.len() == 0
                    && run.machine.request() == Ok::<Request, Fault>(Request::Receive),
                Ok(Stop::Limit) => !run.machine.halted,
                Err(fault) => !run.machine.halted && (run.machine.decode() == Err::<
                    Option<(Instruction, usize)>,
                    Fault,
                >(fault) || run.machine.exchange(run.input, run.output) == Err::<
                    (Machine, Seq<isize>, Seq<isize>, Progress),
                    Fault,
                >(fault)),
            }
        }),
    decreases limit,
{
    if machine.rest(breakpoints) == Ok::<Option<Stop>, Fault>(None) && limit > 0 {
        match machine.exchange(input, output) {
            Ok((after, input_after, output_after, progress)) => {
                if progress == Progress::Stalled {
                    let request = machine.request()->Ok_0;
                    lemma_stall(machine, Machine::answer(request, input));
                } else {
                    lemma_run_until(
                        after,
                        breakpoints,
                        input_after,
                        output_after,
                        (limit - 1) as nat,
                    );
                }
            },
            Err(_) => {},
        }
    }
}

} // verus!
