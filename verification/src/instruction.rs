//! The ten instructions, their operands and what tools may ask of them.
use vstd::prelude::*;
use vstd::string::StringExecFns;
use crate::parameter::Parameter;
use crate::parameter::is_index;
use crate::parameter::relative_index;
use crate::program::characters;

verus! {

/// An instruction that can be executed by the Intcode computer.
#[derive(Debug, Clone, Copy, PartialEq, Eq, Structural)]
pub enum Instruction {
    /// Store the sum of the first two operands at the third.
    Add(Parameter, Parameter, Parameter),
    /// Store the product of the first two operands at the third.
    Multiply(Parameter, Parameter, Parameter),
    /// Take a value from the input channel and store it at the operand.
    Input(Parameter),
    /// Hand the operand to the output channel.
    Output(Parameter),
    /// Continue at the second operand if the first is not zero.
    JumpIfTrue(Parameter, Parameter),
    /// Continue at the second operand if the first is zero.
    JumpIfFalse(Parameter, Parameter),
    /// Store 1 at the third operand if the first is less than the second,
    /// otherwise 0.
    LessThan(Parameter, Parameter, Parameter),
    /// Store 1 at the third operand if the first equals the second,
    /// otherwise 0.
    Equals(Parameter, Parameter, Parameter),
    /// Add the operand to the relative base.
    AdjustRelativeBaseOffset(Parameter),
    /// Stop the program.
    Halt,
}

/// The memory indices that the position-mode operands among `operands` name,
/// in operand order.
pub open spec fn position_indices(operands: Seq<Parameter>) -> Seq<usize>
    decreases operands.len(),
{
    if operands.len() == 0 {
        Seq::empty()
    } else {
        let before = position_indices(operands.drop_last());
        match operands.last() {
            Parameter::Position(index) => before.push(index),
            _ => before,
        }
    }
}

/// The memory indices `base + offset` that the relative-mode operands among
/// `operands` name, in operand order. An operand whose sum is no memory
/// index names no cell and is passed over.
pub open spec fn relative_indices(operands: Seq<Parameter>, base: int) -> Seq<usize>
    decreases operands.len(),
{
    if operands.len() == 0 {
        Seq::empty()
    } else {
        let before = relative_indices(operands.drop_last(), base);
        match operands.last() {
            Parameter::Relative(offset) => if is_index(base + offset) {
                before.push((base + offset) as usize)
            } else {
                before
            },
            _ => before,
        }
    }
}

/// The indices that `position_indices` lists are those that some operand
/// in position mode names, and no others.
pub proof fn lemma_position_indices(operands: Seq<Parameter>, index: usize)
    ensures
        position_indices(operands).contains(index) <==> operands.contains(
            Parameter::Position(index),
        ),
    decreases operands.len(),
{
    let listed = position_indices(operands);
    if operands.len() > 0 {
        let shorter = operands.drop_last();
        let before = position_indices(shorter);
        lemma_position_indices(shorter, index);
        if listed.contains(index) {
            let at = choose|at: int| 0 <= at < listed.len() && listed[at] == index;
            if at < before.len() {
                assert(before[at] == index);
                let found = choose|found: int|
                    0 <= found < shorter.len() && shorter[found] == Parameter::Position(index);
                assert(operands[found] == Parameter::Position(index));
            } else {
                assert(operands[operands.len() - 1] == Parameter::Position(index));
            }
        }
        if operands.contains(Parameter::Position(index)) {
            let found = choose|found: int|
                0 <= found < operands.len() && operands[found] == Parameter::Position(index);
            if found < shorter.len() {
                assert(shorter[found] == Parameter::Position(index));
                let at = choose|at: int| 0 <= at < before.len() && before[at] == index;
                assert(listed[at] == index);
            } else {
                assert(listed[listed.len() - 1] == index);
            }
        }
    }
}

/// The indices that `relative_indices` lists are those that some operand
/// in relative mode names under the base, and no others.
pub proof fn lemma_relative_indices(operands: Seq<Parameter>, base: int, index: usize)
    ensures
        relative_indices(operands, base).contains(index) <==> operands.contains(
            Parameter::Relative((index - base) as isize),
        ) && isize::MIN <= index - base <= isize::MAX,
    decreases operands.len(),
{
    let listed = relative_indices(operands, base);
    let wanted = Parameter::Relative((index - base) as isize);
    let fits = isize::MIN <= index - base <= isize::MAX;
    if operands.len() > 0 {
        let shorter = operands.drop_last();
        let before = relative_indices(shorter, base);
        lemma_relative_indices(shorter, base, index);
        if listed.contains(index) {
            let at = choose|at: int| 0 <= at < listed.len() && listed[at] == index;
            if at < before.len() {
                assert(before[at] == index);
                let found = choose|found: int| 0 <= found < shorter.len() && shorter[found] == wanted;
                assert(operands[found] == wanted);
            } else {
                assert(operands[operands.len() - 1] == wanted);
            }
        }
        if operands.contains(wanted) && fits {
            let found = choose|found: int| 0 <= found < operands.len() && operands[found] == wanted;
            if found < shorter.len() {
                assert(shorter[found] == wanted);
                let at = choose|at: int| 0 <= at < before.len() && before[at] == index;
                assert(listed[at] == index);
            } else {
                assert(listed[listed.len() - 1] == index);
            }
        }
    }
}

impl Instruction {
    /// The list of the names of all the instructions.
    pub const NAMES: [&'static str; 10] = [
        "ADD", "MUL", "INP", "OUT", "JIT", "JIF", "LST", "EQL", "ARO", "HLT",
    ];

    /// The operands, in the order of their words in memory.
    pub open spec fn operands(self) -> Seq<Parameter> {
        match self {
            Instruction::Add(left, right, dest) => seq![left, right, dest],
            Instruction::Multiply(left, right, dest) => seq![left, right, dest],
            Instruction::Input(dest) => seq![dest],
            Instruction::Output(value) => seq![value],
            Instruction::JumpIfTrue(value, dest) => seq![value, dest],
            Instruction::JumpIfFalse(value, dest) => seq![value, dest],
            Instruction::LessThan(left, right, dest) => seq![left, right, dest],
            Instruction::Equals(left, right, dest) => seq![left, right, dest],
            Instruction::AdjustRelativeBaseOffset(value) => seq![value],
            Instruction::Halt => seq![],
        }
    }

    /// The number of operand words that follow the opcode word.
    pub open spec fn arity(self) -> nat {
        match self {
            Instruction::Add(_, _, _) => 3,
            Instruction::Multiply(_, _, _) => 3,
            Instruction::Input(_) => 1,
            Instruction::Output(_) => 1,
            Instruction::JumpIfTrue(_, _) => 2,
            Instruction::JumpIfFalse(_, _) => 2,
            Instruction::LessThan(_, _, _) => 3,
            Instruction::Equals(_, _, _) => 3,
            Instruction::AdjustRelativeBaseOffset(_) => 1,
            Instruction::Halt => 0,
        }
    }

    /// The operation code: the two low digits of the opcode word.
    pub open spec fn operation(self) -> int {
        match self {
            Instruction::Add(_, _, _) => 1,
            Instruction::Multiply(_, _, _) => 2,
            Instruction::Input(_) => 3,
            Instruction::Output(_) => 4,
            Instruction::JumpIfTrue(_, _) => 5,
            Instruction::JumpIfFalse(_, _) => 6,
            Instruction::LessThan(_, _, _) => 7,
            Instruction::Equals(_, _, _) => 8,
            Instruction::AdjustRelativeBaseOffset(_) => 9,
            Instruction::Halt => 99,
        }
    }

    /// The three-letter name of this kind of instruction.
    pub open spec fn mnemonic(self) -> Seq<char> {
        match self {
            Instruction::Add(_, _, _) => seq!['A', 'D', 'D'],
            Instruction::Multiply(_, _, _) => seq!['M', 'U', 'L'],
            Instruction::Input(_) => seq!['I', 'N', 'P'],
            Instruction::Output(_) => seq!['O', 'U', 'T'],
            Instruction::JumpIfTrue(_, _) => seq!['J', 'I', 'T'],
            Instruction::JumpIfFalse(_, _) => seq!['J', 'I', 'F'],
            Instruction::LessThan(_, _, _) => seq!['L', 'S', 'T'],
            Instruction::Equals(_, _, _) => seq!['E', 'Q', 'L'],
            Instruction::AdjustRelativeBaseOffset(_) => seq!['A', 'R', 'O'],
            Instruction::Halt => seq!['H', 'L', 'T'],
        }
    }

    /// The instruction of the operation `operation`, one of the ten, with
    /// position 0 in place of each operand.
    pub open spec fn blank(operation: int) -> Instruction {
        let placeholder = Parameter::Position(0);
        if operation == 1 {
            Instruction::Add(placeholder, placeholder, placeholder)
        } else if operation == 2 {
            Instruction::Multiply(placeholder, placeholder, placeholder)
        } else if operation == 3 {
            Instruction::Input(placeholder)
        } else if operation == 4 {
            Instruction::Output(placeholder)
        } else if operation == 5 {
            Instruction::JumpIfTrue(placeholder, placeholder)
        } else if operation == 6 {
            Instruction::JumpIfFalse(placeholder, placeholder)
        } else if operation == 7 {
            Instruction::LessThan(placeholder, placeholder, placeholder)
        } else if operation == 8 {
            Instruction::Equals(placeholder, placeholder, placeholder)
        } else if operation == 9 {
            Instruction::AdjustRelativeBaseOffset(placeholder)
        } else {
            Instruction::Halt
        }
    }

    /// The blank instruction at the place `index` of the list of names,
    /// counted from 0.
    pub open spec fn listed(index: int) -> Option<Instruction> {
        if 0 <= index < 9 {
            Some(Instruction::blank(index + 1))
        } else if index == 9 {
            Some(Instruction::blank(99))
        } else {
            None
        }
    }

    /// Whether `name` is the three-letter name of the operation `operation`.
    pub open spec fn names(operation: int, name: Seq<char>) -> bool {
        Instruction::blank(operation).mnemonic() == name
    }

    /// The instruction that `name` stands for: the blank instruction whose
    /// three-letter name it is, if it is the name of any.
    pub open spec fn named(name: Seq<char>) -> Option<Instruction> {
        if Instruction::names(1, name) {
            Some(Instruction::blank(1))
        } else if Instruction::names(2, name) {
            Some(Instruction::blank(2))
        } else if Instruction::names(3, name) {
            Some(Instruction::blank(3))
        } else if Instruction::names(4, name) {
            Some(Instruction::blank(4))
        } else if Instruction::names(5, name) {
            Some(Instruction::blank(5))
        } else if Instruction::names(6, name) {
            Some(Instruction::blank(6))
        } else if Instruction::names(7, name) {
            Some(Instruction::blank(7))
        } else if Instruction::names(8, name) {
            Some(Instruction::blank(8))
        } else if Instruction::names(9, name) {
            Some(Instruction::blank(9))
        } else if Instruction::names(99, name) {
            Some(Instruction::blank(99))
        } else {
            None
        }
    }

    /// Whether `self` and `other` are the same kind of instruction, whatever
    /// their operands hold.
    pub open spec fn same_variant(self, other: Instruction) -> bool {
        self.operation() == other.operation()
    }

    /// The three-letter name of an instruction stands for an instruction of
    /// the same kind, and for no other kind.
    pub proof fn lemma_named(self)
        ensures
            Instruction::named(self.mnemonic()) == Some(Instruction::blank(self.operation())),
            Instruction::blank(self.operation()).same_variant(self),
    {
        let name = self.mnemonic();
        assert(name.len() == 3);
        assert(Instruction::blank(1).mnemonic()[0] == 'A' && Instruction::blank(1).mnemonic()[1]
            == 'D');
        assert(Instruction::blank(2).mnemonic()[0] == 'M');
        assert(Instruction::blank(3).mnemonic()[0] == 'I');
        assert(Instruction::blank(4).mnemonic()[0] == 'O');
        assert(Instruction::blank(5).mnemonic()[0] == 'J' && Instruction::blank(5).mnemonic()[2]
            == 'T');
        assert(Instruction::blank(6).mnemonic()[0] == 'J' && Instruction::blank(6).mnemonic()[2]
            == 'F');
        assert(Instruction::blank(7).mnemonic()[0] == 'L');
        assert(Instruction::blank(8).mnemonic()[0] == 'E');
        assert(Instruction::blank(9).mnemonic()[0] == 'A' && Instruction::blank(9).mnemonic()[1]
            == 'R');
        assert(Instruction::blank(99).mnemonic()[0] == 'H');
        assert(Instruction::blank(self.operation()).mnemonic() =~= name);
    }

    /// An instruction has as many operands as its arity says.
    pub proof fn lemma_operands_len(self)
        ensures
            self.operands().len() == self.arity(),
            self.arity() <= 3,
    {
    }

    /// Get the number of parameters for a given instruction: what a viewer
    /// highlights after the opcode word, and one less than what the
    /// instruction pointer moves by.
    pub fn parameter_count(&self) -> (count: usize)
        ensures
            count == self.arity(),
    {
        match self {
            Instruction::Add(_, _, _) => 3,
            Instruction::Multiply(_, _, _) => 3,
            Instruction::Input(_) => 1,
            Instruction::Output(_) => 1,
            Instruction::JumpIfTrue(_, _) => 2,
            Instruction::JumpIfFalse(_, _) => 2,
            Instruction::LessThan(_, _, _) => 3,
            Instruction::Equals(_, _, _) => 3,
            Instruction::AdjustRelativeBaseOffset(_) => 1,
            Instruction::Halt => 0,
        }
    }

    /// The instruction as a viewer shows it: its three-letter name and its
    /// operands, with the sign of the operation between the operands it
    /// works on and an arrow before the operand it stores to or jumps to.
    pub open spec fn text(self) -> Seq<char> {
        let arrow = seq![' ', '-', '>', ' '];
        let space = seq![' '];
        match self {
            Instruction::Add(left, right, dest) => self.mnemonic() + space + left.text() + seq![
                ' ',
                '+',
                ' ',
            ] + right.text() + arrow + dest.text(),
            Instruction::Multiply(left, right, dest) => self.mnemonic() + space + left.text()
                + seq![' ', '*', ' '] + right.text() + arrow + dest.text(),
            Instruction::LessThan(left, right, dest) => self.mnemonic() + space + left.text()
                + seq![' ', '<', ' '] + right.text() + arrow + dest.text(),
            Instruction::Equals(left, right, dest) => self.mnemonic() + space + left.text() + seq![
                ' ',
                '=',
                '=',
                ' ',
            ] + right.text() + arrow + dest.text(),
            Instruction::Input(dest) => self.mnemonic() + arrow + dest.text(),
            Instruction::Output(value) => self.mnemonic() + arrow + value.text(),
            Instruction::JumpIfTrue(value, dest) => self.mnemonic() + space + value.text() + arrow
                + dest.text(),
            Instruction::JumpIfFalse(value, dest) => self.mnemonic() + space + value.text() + arrow
                + dest.text(),
            Instruction::AdjustRelativeBaseOffset(value) => self.mnemonic() + space + value.text(),
            Instruction::Halt => self.mnemonic(),
        }
    }

    /// Write the instruction as a viewer shows it, for one `ADD P[1] + I[2]
    /// -> P[3]`.
    pub fn to_text(&self) -> (text: String)
        ensures
            text@ == self.text(),
    {
        proof {
            reveal_strlit(" ");
            reveal_strlit(" -> ");
            reveal_strlit(" + ");
            reveal_strlit(" * ");
            reveal_strlit(" < ");
            reveal_strlit(" == ");
            assert(" "@ =~= seq![' ']);
            assert(" -> "@ =~= seq![' ', '-', '>', ' ']);
            assert(" + "@ =~= seq![' ', '+', ' ']);
            assert(" * "@ =~= seq![' ', '*', ' ']);
            assert(" < "@ =~= seq![' ', '<', ' ']);
            assert(" == "@ =~= seq![' ', '=', '=', ' ']);
        }
        let mut text = String::from_str(self.name());
        match self {
            Instruction::Add(left, right, dest)
            | Instruction::Multiply(left, right, dest)
            | Instruction::LessThan(left, right, dest)
            | Instruction::Equals(left, right, dest) => {
                text.append(" ");
                left.push_text(&mut text);
                text.append(
                    match self {
                        Instruction::Add(_, _, _) => " + ",
                        Instruction::Multiply(_, _, _) => " * ",
                        Instruction::LessThan(_, _, _) => " < ",
                        _ => " == ",
                    },
                );
                right.push_text(&mut text);
                text.append(" -> ");
                dest.push_text(&mut text);
            },
            Instruction::Input(only) | Instruction::Output(only) => {
                text.append(" -> ");
                only.push_text(&mut text);
            },
            Instruction::JumpIfTrue(value, dest) | Instruction::JumpIfFalse(value, dest) => {
                text.append(" ");
                value.push_text(&mut text);
                text.append(" -> ");
                dest.push_text(&mut text);
            },
            Instruction::AdjustRelativeBaseOffset(value) => {
                text.append(" ");
                value.push_text(&mut text);
            },
            Instruction::Halt => {},
        }
        assert(text@ =~= self.text());
        text
    }

    /// The three-letter name of this kind of instruction.
    pub fn name(&self) -> (name: &'static str)
        ensures
            name@ == self.mnemonic(),
    {
        proof {
            reveal_strlit("ADD");
            reveal_strlit("MUL");
            reveal_strlit("INP");
            reveal_strlit("OUT");
            reveal_strlit("JIT");
            reveal_strlit("JIF");
            reveal_strlit("LST");
            reveal_strlit("EQL");
            reveal_strlit("ARO");
            reveal_strlit("HLT");
        }
        let name = match self {
            Instruction::Add(_, _, _) => "ADD",
            Instruction::Multiply(_, _, _) => "MUL",
            Instruction::Input(_) => "INP",
            Instruction::Output(_) => "OUT",
            Instruction::JumpIfTrue(_, _) => "JIT",
            Instruction::JumpIfFalse(_, _) => "JIF",
            Instruction::LessThan(_, _, _) => "LST",
            Instruction::Equals(_, _, _) => "EQL",
            Instruction::AdjustRelativeBaseOffset(_) => "ARO",
            Instruction::Halt => "HLT",
        };
        assert(name@ =~= self.mnemonic());
        name
    }

    /// The instruction at the place `index` of the list of names, counted
    /// from 0, with placeholders for its operands: each is position 0.
    pub fn from_index(index: usize) -> (instruction: Option<Instruction>)
        ensures
            instruction == Instruction::listed(index as int),
    {
        let placeholder = Parameter::Position(0);
        if index == 0 {
            Some(Instruction::Add(placeholder, placeholder, placeholder))
        } else if index == 1 {
            Some(Instruction::Multiply(placeholder, placeholder, placeholder))
        } else if index == 2 {
            Some(Instruction::Input(placeholder))
        } else if index == 3 {
            Some(Instruction::Output(placeholder))
        } else if index == 4 {
            Some(Instruction::JumpIfTrue(placeholder, placeholder))
        } else if index == 5 {
            Some(Instruction::JumpIfFalse(placeholder, placeholder))
        } else if index == 6 {
            Some(Instruction::LessThan(placeholder, placeholder, placeholder))
        } else if index == 7 {
            Some(Instruction::Equals(placeholder, placeholder, placeholder))
        } else if index == 8 {
            Some(Instruction::AdjustRelativeBaseOffset(placeholder))
        } else if index == 9 {
            Some(Instruction::Halt)
        } else {
            None
        }
    }

    /// The instruction that the three-letter name `name` stands for, with
    /// placeholders for its operands: each is position 0. A name that is
    /// none of the ten stands for no instruction.
    pub fn from_name(name: &str) -> (instruction: Option<Instruction>)
        ensures
            instruction == Instruction::named(name@),
    {
        let letters = characters(name);
        if letters.len() != 3 {
            return None;
        }
        assert(letters@ =~= seq![letters@[0], letters@[1], letters@[2]]);
        let placeholder = Parameter::Position(0);
        let (first, second, third) = (letters[0], letters[1], letters[2]);
        if first == 'A' && second == 'D' && third == 'D' {
            Some(Instruction::Add(placeholder, placeholder, placeholder))
        } else if first == 'M' && second == 'U' && third == 'L' {
            Some(Instruction::Multiply(placeholder, placeholder, placeholder))
        } else if first == 'I' && second == 'N' && third == 'P' {
            Some(Instruction::Input(placeholder))
        } else if first == 'O' && second == 'U' && third == 'T' {
            Some(Instruction::Output(placeholder))
        } else if first == 'J' && second == 'I' && third == 'T' {
            Some(Instruction::JumpIfTrue(placeholder, placeholder))
        } else if first == 'J' && second == 'I' && third == 'F' {
            Some(Instruction::JumpIfFalse(placeholder, placeholder))
        } else if first == 'L' && second == 'S' && third == 'T' {
            Some(Instruction::LessThan(placeholder, placeholder, placeholder))
        } else if first == 'E' && second == 'Q' && third == 'L' {
            Some(Instruction::Equals(placeholder, placeholder, placeholder))
        } else if first == 'A' && second == 'R' && third == 'O' {
            Some(Instruction::AdjustRelativeBaseOffset(placeholder))
        } else if first == 'H' && second == 'L' && third == 'T' {
            Some(Instruction::Halt)
        } else {
            None
        }
    }

    /// The operation code: what the two low digits of the opcode word hold
    /// for this kind of instruction.
    pub fn code(&self) -> (code: isize)
        ensures
            code == self.operation(),
    {
        match self {
            Instruction::Add(_, _, _) => 1,
            Instruction::Multiply(_, _, _) => 2,
            Instruction::Input(_) => 3,
            Instruction::Output(_) => 4,
            Instruction::JumpIfTrue(_, _) => 5,
            Instruction::JumpIfFalse(_, _) => 6,
            Instruction::LessThan(_, _, _) => 7,
            Instruction::Equals(_, _, _) => 8,
            Instruction::AdjustRelativeBaseOffset(_) => 9,
            Instruction::Halt => 99,
        }
    }

    /// The operands in the order of their words in memory.
    pub fn parameters(&self) -> (list: Vec<Parameter>)
        ensures
            list@ == self.operands(),
    {
        let mut list: Vec<Parameter> = Vec::new();
        match self {
            Instruction::Add(left, right, dest)
            | Instruction::Multiply(left, right, dest)
            | Instruction::LessThan(left, right, dest)
            | Instruction::Equals(left, right, dest) => {
                list.push(*left);
                list.push(*right);
                list.push(*dest);
            },
            Instruction::JumpIfTrue(value, dest) | Instruction::JumpIfFalse(value, dest) => {
                list.push(*value);
                list.push(*dest);
            },
            Instruction::Input(only)
            | Instruction::Output(only)
            | Instruction::AdjustRelativeBaseOffset(only) => {
                list.push(*only);
            },
            Instruction::Halt => {},
        }
        assert(list@ =~= self.operands());
        list
    }

    /// Get the parameters in relative mode for a given instruction, each as
    /// the memory index that it names under the relative base `base`: the
    /// cells a viewer highlights as read from or written to.
    pub fn relative_parameters(&self, base: isize) -> (relatives: Vec<usize>)
        ensures
            relatives@ == relative_indices(self.operands(), base as int),
    {
        let operands = self.parameters();
        let mut relatives: Vec<usize> = Vec::new();
        let mut next: usize = 0;
        while next < operands.len()
            invariant
                next <= operands.len(),
                relatives@ == relative_indices(operands@.take(next as int), base as int),
            decreases operands.len() - next,
        {
            proof {
                assert(operands@.take(next + 1).drop_last() =~= operands@.take(next as int));
            }
            if let Parameter::Relative(offset) = operands[next] {
                if let Some(index) = relative_index(base, offset) {
                    relatives.push(index);
                }
            }
            next = next + 1;
        }
        assert(operands@.take(next as int) =~= operands@);
        relatives
    }

    /// Get the parameters in position mode for a given instruction: the
    /// cells a viewer highlights as read from or written to.
    pub fn position_parameters(&self) -> (positions: Vec<usize>)
        ensures
            positions@ == position_indices(self.operands()),
    {
        let operands = self.parameters();
        let mut positions: Vec<usize> = Vec::new();
        let mut next: usize = 0;
        while next < operands.len()
            invariant
                next <= operands.len(),
                positions@ == position_indices(operands@.take(next as int)),
            decreases operands.len() - next,
        {
            proof {
                assert(operands@.take(next + 1).drop_last() =~= operands@.take(next as int));
            }
            if let Parameter::Position(index) = operands[next] {
                positions.push(index);
            }
            next = next + 1;
        }
        assert(operands@.take(next as int) =~= operands@);
        positions
    }
}

} // verus!
