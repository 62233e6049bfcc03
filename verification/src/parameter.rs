//! Operands and the decoding of their modes.
use vstd::prelude::*;
use vstd::arithmetic::power::pow;
use vstd::arithmetic::power::lemma_pow0;
use vstd::arithmetic::power::lemma_pow_positive;
use vstd::arithmetic::power::lemma_pow_increases;
use vstd::arithmetic::div_mod::lemma_div_denominator;
use vstd::arithmetic::div_mod::lemma_basic_div;
use vstd::arithmetic::div_mod::lemma_small_div_converse;
use vstd::string::StringExecFns;
use crate::fault::Fault;
use crate::text::decimal;
use crate::text::push_decimal;

verus! {

/// A parameter to an instruction.
#[derive(Debug, Clone, Copy, PartialEq, Eq, Structural)]
pub enum Parameter {
    /// A pointer to a position in memory.
    Position(usize),
    /// A literal value.
    Immediate(isize),
    /// A relative pointer to a position in memory.
    Relative(isize),
}

/// The quotient of `a` by a positive `b`, rounded toward zero.
pub open spec fn quotient(a: int, b: int) -> int {
    if a >= 0 {
        a / b
    } else {
        -((-a) / b)
    }
}

/// What is left of `a` after taking out `quotient(a, b)` times `b`. It has
/// the sign of `a`.
pub open spec fn remainder(a: int, b: int) -> int {
    if a >= 0 {
        a % b
    } else {
        -((-a) % b)
    }
}

/// The mode digit of the operand at the 1-based `position`: the decimal digit
/// of `opcode` that stands `position + 1` places left of the units, with the
/// sign of `opcode`.
pub open spec fn mode_digit(opcode: int, position: int) -> int {
    remainder(quotient(opcode, pow(10, (position + 1) as nat)), 10)
}

/// For an opcode word that is not negative, the mode digit is
/// `(opcode / 10^(position + 1)) mod 10`, and lies between 0 and 9.
pub proof fn lemma_mode_digit(opcode: int, position: int)
    requires
        0 <= opcode,
        1 <= position,
    ensures
        mode_digit(opcode, position) == (opcode / pow(10, (position + 1) as nat)) % 10,
        0 <= mode_digit(opcode, position) <= 9,
{
    let divisor = pow(10, (position + 1) as nat);
    lemma_pow_positive(10, (position + 1) as nat);
    assert(0 <= opcode / divisor) by (nonlinear_arith)
        requires
            0 <= opcode,
            0 < divisor,
    ;
}

/// Dropping one more decimal digit divides by the next power of ten.
proof fn lemma_quotient_step(opcode: int, digits: nat)
    ensures
        quotient(quotient(opcode, pow(10, digits)), 10) == quotient(opcode, pow(10, digits + 1)),
{
    let low = pow(10, digits);
    lemma_pow_positive(10, digits);
    assert(pow(10, digits + 1) == low * 10) by {
        reveal(pow);
        assert(10 * low == low * 10) by (nonlinear_arith);
    }
    let magnitude = if opcode >= 0 {
        opcode
    } else {
        -opcode
    };
    lemma_div_denominator(magnitude, low, 10);
    assert(0 <= magnitude / low) by (nonlinear_arith)
        requires
            0 <= magnitude,
            0 < low,
    ;
}

/// Once every digit has been dropped, dropping more changes nothing.
proof fn lemma_quotient_exhausted(opcode: int, digits: nat, more: nat)
    requires
        quotient(opcode, pow(10, digits)) == 0,
        digits <= more,
    ensures
        quotient(opcode, pow(10, more)) == 0,
{
    let magnitude = if opcode >= 0 {
        opcode
    } else {
        -opcode
    };
    lemma_pow_positive(10, digits);
    lemma_pow_increases(10, digits, more);
    lemma_small_div_converse(magnitude, pow(10, digits));
    lemma_basic_div(magnitude, pow(10, more));
}

/// Whether `address` is a memory index: not negative, and within the range
/// of indices.
pub open spec fn is_index(address: int) -> bool {
    0 <= address <= usize::MAX
}

/// The memory index `base + offset`, if the sum is one.
pub fn relative_index(base: isize, offset: isize) -> (index: Option<usize>)
    ensures
        index == if is_index(base + offset) {
            Some((base + offset) as usize)
        } else {
            None::<usize>
        },
{
    let sum: i128 = base as i128 + offset as i128;
    if 0 <= sum && sum <= usize::MAX as i128 {
        Some(sum as usize)
    } else {
        None
    }
}

impl Parameter {
    /// What decoding the operand word `value` at the 1-based `position` under
    /// `opcode` gives: mode 0 is a position, mode 1 an immediate, mode 2 a
    /// relative offset. A position cannot be negative, and no other mode
    /// exists.
    pub open spec fn decoded(opcode: int, position: int, value: isize) -> Result<Parameter, Fault> {
        let mode = mode_digit(opcode, position);
        if mode == 0 {
            if value >= 0 {
                Ok(Parameter::Position(value as usize))
            } else {
                Err(Fault::InvalidAddress)
            }
        } else if mode == 1 {
            Ok(Parameter::Immediate(value))
        } else if mode == 2 {
            Ok(Parameter::Relative(value))
        } else {
            Err(Fault::InvalidMode)
        }
    }

    /// The parameter as a viewer shows it: `P`, `I` or `R` for the mode, and
    /// the value in decimal between square brackets.
    pub open spec fn text(self) -> Seq<char> {
        match self {
            Parameter::Position(index) => seq!['P', '['] + decimal(index as int) + seq![']'],
            Parameter::Immediate(value) => seq!['I', '['] + decimal(value as int) + seq![']'],
            Parameter::Relative(offset) => seq!['R', '['] + decimal(offset as int) + seq![']'],
        }
    }

    /// Write the parameter as a viewer shows it: `P[4]`, `I[-3]`, `R[2]`.
    pub fn to_text(&self) -> (text: String)
        ensures
            text@ == self.text(),
    {
        let mut text = String::new();
        self.push_text(&mut text);
        assert(text@ =~= self.text());
        text
    }

    /// Add the parameter, as a viewer shows it, to the end of `text`.
    pub(crate) fn push_text(&self, text: &mut String)
        ensures
            final(text)@ == old(text)@ + self.text(),
    {
        proof {
            reveal_strlit("P[");
            reveal_strlit("I[");
            reveal_strlit("R[");
            reveal_strlit("]");
            assert("P["@ =~= seq!['P', '[']);
            assert("I["@ =~= seq!['I', '[']);
            assert("R["@ =~= seq!['R', '[']);
            assert("]"@ =~= seq![']']);
        }
        match self {
            Parameter::Position(index) => {
                text.append("P[");
                push_decimal(text, *index as i128);
            },
            Parameter::Immediate(value) => {
                text.append("I[");
                push_decimal(text, *value as i128);
            },
            Parameter::Relative(offset) => {
                text.append("R[");
                push_decimal(text, *offset as i128);
            },
        }
        text.append("]");
        assert(text@ =~= old(text)@ + self.text());
    }

    /// The mode digit that `opcode` holds for the operand at the 1-based
    /// `position`.
    pub fn mode(opcode: isize, position: isize) -> (digit: isize)
        requires
            1 <= position,
        ensures
            digit == mode_digit(opcode as int, position as int),
    {
        let mut rest: isize = opcode;
        let places: usize = position as usize;
        let mut dropped: usize = 0;
        proof {
            lemma_pow0(10);
        }
        while dropped <= places && rest != 0
            invariant
                places == position,
                dropped <= places + 1,
                rest == quotient(opcode as int, pow(10, dropped as nat)),
            decreases places + 1 - dropped,
        {
            proof {
                lemma_quotient_step(opcode as int, dropped as nat);
            }
            rest = rest / 10;
            dropped = dropped + 1;
        }
        proof {
            if rest == 0 {
                lemma_quotient_exhausted(opcode as int, dropped as nat, (position + 1) as nat);
            }
        }
        rest % 10
    }

    /// Create a new parameter from an opcode, position, and value. It will use the opcode and
    /// position to determine the parameter mode.
    pub fn new(opcode: isize, position: isize, value: isize) -> (parameter: Result<Self, Fault>)
        requires
            1 <= position,
        ensures
            parameter == Parameter::decoded(opcode as int, position as int, value),
    {
        let mode = Parameter::mode(opcode, position);
        if mode == 0 {
            if value >= 0 {
                Ok(Parameter::Position(value as usize))
            } else {
                Err(Fault::InvalidAddress)
            }
        } else if mode == 1 {
            Ok(Parameter::Immediate(value))
        } else if mode == 2 {
            Ok(Parameter::Relative(value))
        } else {
            Err(Fault::InvalidMode)
        }
    }
}

} // verus!
