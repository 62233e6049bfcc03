//! Breakpoints: predicates over the state of a process and the instruction it
//! is about to run.
use vstd::prelude::*;
use crate::instruction::Instruction;
use crate::machine::Machine;
use crate::process::State;

verus! {

/// A breakpoint that can be set on the Intcode computer.
#[derive(Debug, Clone, Copy, PartialEq, Eq, Structural)]
pub enum Breakpoint {
    /// Matches when the next instruction covers this memory index with its
    /// opcode word or one of its operand words.
    MemoryLocation(usize),
    /// Matches when the next instruction is of the same kind as this one.
    /// The operands held here are placeholders and are not compared.
    Instruction(Instruction),
}

impl Breakpoint {
    /// Whether the breakpoint matches a machine that is about to run
    /// `instruction`.
    pub open spec fn matches(self, machine: Machine, instruction: Instruction) -> bool {
        match self {
            Breakpoint::Instruction(kind) => kind.same_variant(instruction),
            Breakpoint::MemoryLocation(location) => machine.instruction_pointer <= location
                < machine.instruction_pointer + 1 + instruction.arity(),
        }
    }

    /// Evaluate whether the breakpoint should be triggered.
    pub fn evaluate(&self, state: &State, instruction: &Instruction) -> (hit: bool)
        ensures
            hit == self.matches(state@, *instruction),
    {
        match self {
            Breakpoint::Instruction(kind) => kind.code() == instruction.code(),
            Breakpoint::MemoryLocation(location) => {
                let start = state.instruction_pointer;
                *location >= start && *location - start <= instruction.parameter_count()
            },
        }
    }
}

/// Whether any of `breakpoints` matches a machine that is about to run
/// `instruction`.
pub open spec fn any_matches(
    breakpoints: Seq<Breakpoint>,
    machine: Machine,
    instruction: Instruction,
) -> bool {
    exists|i: int| 0 <= i < breakpoints.len() && (#[trigger] breakpoints[i]).matches(
        machine,
        instruction,
    )
}

/// A collection of breakpoints, in the order in which they were added.
#[derive(Debug)]
pub struct Breakpoints {
    breakpoints: Vec<Breakpoint>,
}

impl View for Breakpoints {
    type V = Seq<Breakpoint>;

    closed spec fn view(&self) -> Seq<Breakpoint> {
        self.breakpoints@
    }
}

impl Default for Breakpoints {
    fn default() -> (empty: Self)
        ensures
            empty@ == Seq::<Breakpoint>::empty(),
    {
        Breakpoints { breakpoints: Vec::new() }
    }
}

impl Clone for Breakpoints {
    fn clone(&self) -> (copy: Self)
        ensures
            copy@ == self@,
    {
        Breakpoints { breakpoints: self.to_vec() }
    }
}

impl Breakpoints {
    /// Add a breakpoint to the collection.
    pub fn add(&mut self, breakpoint: Breakpoint)
        ensures
            final(self)@ == old(self)@.push(breakpoint),
    {
        self.breakpoints.push(breakpoint);
    }

    /// Evaluate whether any of the breakpoints should be triggered.
    pub fn evaluate(&self, state: &State, instruction: &Instruction) -> (hit: bool)
        ensures
            hit == any_matches(self@, state@, *instruction),
    {
        let mut next: usize = 0;
        while next < self.breakpoints.len()
            invariant
                next <= self.breakpoints.len(),
                forall|i: int|
                    0 <= i < next ==> !(#[trigger] self.breakpoints@[i]).matches(
                        state@,
                        *instruction,
                    ),
            decreases self.breakpoints.len() - next,
        {
            if self.breakpoints[next].evaluate(state, instruction) {
                return true;
            }
            next = next + 1;
        }
        false
    }

    /// The breakpoints in the order in which they were added.
    pub fn to_vec(&self) -> (list: Vec<Breakpoint>)
        ensures
            list@ == self@,
    {
        let mut list: Vec<Breakpoint> = Vec::new();
        let mut next: usize = 0;
        while next < self.breakpoints.len()
            invariant
                next <= self.breakpoints.len(),
                list@ == self.breakpoints@.take(next as int),
            decreases self.breakpoints.len() - next,
        {
            list.push(self.breakpoints[next]);
            proof {
                assert(self.breakpoints@.take(next + 1) =~= self.breakpoints@.take(
                    next as int,
                ).push(self.breakpoints@[next as int]));
            }
            next = next + 1;
        }
        assert(self.breakpoints@.take(next as int) =~= self.breakpoints@);
        list
    }
}

} // verus!
