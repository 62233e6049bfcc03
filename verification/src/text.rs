//! Integers written out in decimal, as the texts of operands and
//! instructions show them.
use vstd::prelude::*;
use vstd::string::StringExecFns;
use crate::program::all_digits;
use crate::program::integer;
use crate::program::is_digit;
use crate::program::number;

verus! {

/// The character that writes the digit `value`, which is below ten.
pub open spec fn digit(value: int) -> char {
    ('0' as int + value) as char
}

/// The decimal digits of `value`, the highest first. Zero is written with
/// one digit.
pub open spec fn digits(value: nat) -> Seq<char>
    decreases value,
{
    if value < 10 {
        seq![digit(value as int)]
    } else {
        digits(value / 10).push(digit((value % 10) as int))
    }
}

/// `value` in decimal: its digits, after a minus sign where it is negative.
pub open spec fn decimal(value: int) -> Seq<char> {
    if value < 0 {
        seq!['-'] + digits((-value) as nat)
    } else {
        digits(value as nat)
    }
}

/// The digits of `value` that stand left of the units.
pub open spec fn digits_above(value: nat) -> Seq<char> {
    if value < 10 {
        Seq::empty()
    } else {
        digits(value / 10)
    }
}

/// The characters of the digits `low`, which are in the order of rising
/// weight, in the order of falling weight.
pub open spec fn falling(low: Seq<u8>) -> Seq<char> {
    Seq::new(low.len(), |i: int| digit(low[low.len() - 1 - i] as int))
}

/// What `digits` writes is made of digits, and it writes `value`.
pub proof fn lemma_digits(value: nat)
    ensures
        digits(value).len() > 0,
        all_digits(digits(value)),
        number(digits(value)) == value,
    decreases value,
{
    if value < 10 {
        let text = digits(value);
        assert(text.drop_last() =~= Seq::<char>::empty());
        assert(number(text.drop_last()) == 0);
    } else {
        lemma_digits(value / 10);
        let text = digits(value);
        let above = digits(value / 10);
        assert(text.drop_last() =~= above);
        assert forall|i: int| 0 <= i < text.len() implies is_digit(#[trigger] text[i]) by {
            if i < above.len() {
                assert(text[i] == above[i]);
            }
        }
    }
}

/// Reading what was written gives the integer back: the program text reads
/// `decimal(value)` as `value`.
pub proof fn lemma_decimal_reads_back(value: int)
    ensures
        integer(decimal(value)) == Some(value),
{
    if value < 0 {
        let magnitude = (-value) as nat;
        lemma_digits(magnitude);
        assert(decimal(value).drop_first() =~= digits(magnitude));
    } else {
        let text = digits(value as nat);
        lemma_digits(value as nat);
        assert(is_digit(text[0]));
    }
}

/// The text of one digit.
fn digit_text(value: u8) -> (text: &'static str)
    requires
        value < 10,
    ensures
        text@ == seq![digit(value as int)],
{
    proof {
        reveal_strlit("0");
        reveal_strlit("1");
        reveal_strlit("2");
        reveal_strlit("3");
        reveal_strlit("4");
        reveal_strlit("5");
        reveal_strlit("6");
        reveal_strlit("7");
        reveal_strlit("8");
        reveal_strlit("9");
    }
    let text = if value == 0 {
        "0"
    } else if value == 1 {
        "1"
    } else if value == 2 {
        "2"
    } else if value == 3 {
        "3"
    } else if value == 4 {
        "4"
    } else if value == 5 {
        "5"
    } else if value == 6 {
        "6"
    } else if value == 7 {
        "7"
    } else if value == 8 {
        "8"
    } else {
        "9"
    };
    assert(text@ =~= seq![digit(value as int)]);
    text
}

/// Add `value` in decimal to the end of `text`.
pub(crate) fn push_decimal(text: &mut String, value: i128)
    requires
        i128::MIN < value,
    ensures
        final(text)@ == old(text)@ + decimal(value as int),
{
    let magnitude: i128 = if value < 0 {
        text.append("-");
        -value
    } else {
        value
    };
    proof {
        reveal_strlit("-");
        assert("-"@ =~= seq!['-']);
    }
    let ghost signed = text@;
    let mut low: Vec<u8> = Vec::new();
    low.push((magnitude % 10) as u8);
    let mut rest: i128 = magnitude / 10;
    assert(digits(magnitude as nat) =~= digits_above(magnitude as nat) + falling(low@));
    assert(rest > 0 ==> digits_above(magnitude as nat) == digits(rest as nat));
    while rest > 0
        invariant
            0 <= rest,
            low@.len() > 0,
            forall|i: int| 0 <= i < low@.len() ==> low@[i] < 10,
            digits(magnitude as nat) == if rest > 0 {
                digits(rest as nat) + falling(low@)
            } else {
                falling(low@)
            },
        decreases rest,
    {
        let ghost before = low@;
        low.push((rest % 10) as u8);
        proof {
            let above = if rest >= 10 {
                digits((rest / 10) as nat)
            } else {
                Seq::<char>::empty()
            };
            assert(digits(rest as nat) =~= above.push(digit((rest % 10) as int)));
            assert(above.push(digit((rest % 10) as int)) + falling(before) =~= above + falling(
                low@,
            ));
        }
        rest = rest / 10;
    }
    let mut left: usize = low.len();
    while left > 0
        invariant
            left <= low@.len(),
            forall|i: int| 0 <= i < low@.len() ==> low@[i] < 10,
            text@ == signed + falling(low@).take(low@.len() - left),
        decreases left,
    {
        left = left - 1;
        let ghost before = text@;
        text.append(digit_text(low[left]));
        proof {
            assert(falling(low@).take(low@.len() - left) =~= falling(low@).take(
                low@.len() - left - 1,
            ).push(digit(low@[left as int] as int)));
            assert(text@ =~= signed + falling(low@).take(low@.len() - left));
        }
    }
    assert(falling(low@).take(low@.len() as int) =~= falling(low@));
    assert(signed + digits(magnitude as nat) =~= old(text)@ + decimal(value as int));
}

} // verus!
