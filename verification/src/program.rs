//! Program text: one line of decimal integers with commas between them.
use vstd::prelude::*;

verus! {

/// The program text could not be read: the token with this index, counted
/// from 0, is the first that is no integer, or none that fits a memory cell.
#[derive(Debug, Clone, Copy, PartialEq, Eq, Structural)]
pub struct ParseError {
    /// The index of the first token that is no integer.
    pub token: usize,
}

/// Whether `c` is white space: one of the code points with the Unicode
/// property `White_Space`.
pub open spec fn is_space(c: char) -> bool {
    let code = c as u32;
    ||| 0x09 <= code <= 0x0D
    ||| code == 0x20
    ||| code == 0x85
    ||| code == 0xA0
    ||| code == 0x1680
    ||| 0x2000 <= code <= 0x200A
    ||| code == 0x2028
    ||| code == 0x2029
    ||| code == 0x202F
    ||| code == 0x205F
    ||| code == 0x3000
}

/// `text` without the white space it starts with.
pub open spec fn trim_start(text: Seq<char>) -> Seq<char>
    decreases text.len(),
{
    if text.len() > 0 && is_space(text.first()) {
        trim_start(text.drop_first())
    } else {
        text
    }
}

/// `text` without the white space it ends with.
pub open spec fn trim_end(text: Seq<char>) -> Seq<char>
    decreases text.len(),
{
    if text.len() > 0 && is_space(text.last()) {
        trim_end(text.drop_last())
    } else {
        text
    }
}

/// `text` without the white space around it.
pub open spec fn trim(text: Seq<char>) -> Seq<char> {
    trim_end(trim_start(text))
}

/// The tokens of `text`: the stretches between its commas, in order. There
/// is one more token than there are commas, and a token may be empty.
pub open spec fn split(text: Seq<char>) -> Seq<Seq<char>>
    decreases text.len(),
{
    if text.len() == 0 {
        seq![Seq::<char>::empty()]
    } else {
        let before = split(text.drop_last());
        if text.last() == ',' {
            before.push(Seq::<char>::empty())
        } else {
            before.update(before.len() - 1, before.last().push(text.last()))
        }
    }
}

/// `tokens` with a comma between each two: what `split` takes apart.
pub open spec fn join(tokens: Seq<Seq<char>>) -> Seq<char>
    decreases tokens.len(),
{
    if tokens.len() == 0 {
        Seq::empty()
    } else if tokens.len() == 1 {
        tokens[0]
    } else {
        join(tokens.drop_last()) + seq![','] + tokens.last()
    }
}

/// Splitting loses nothing and leaves no comma: there is at least one
/// token, no token holds a comma, and the tokens with commas between them
/// are the text.
pub proof fn lemma_split(text: Seq<char>)
    ensures
        split(text).len() >= 1,
        join(split(text)) == text,
        forall|i: int| 0 <= i < split(text).len() ==> !(#[trigger] split(text)[i]).contains(','),
    decreases text.len(),
{
    let tokens = split(text);
    if text.len() == 0 {
        assert(join(tokens) =~= text);
    } else {
        let before = split(text.drop_last());
        lemma_split(text.drop_last());
        if text.last() == ',' {
            assert(tokens.drop_last() =~= before);
            assert(join(tokens) =~= text);
        } else {
            let grown = before.last().push(text.last());
            if before.len() > 1 {
                assert(tokens.drop_last() =~= before.drop_last());
            }
            assert(join(tokens) =~= join(before).push(text.last()));
            assert(join(tokens) =~= text);
            assert forall|i: int| 0 <= i < tokens.len() implies !(#[trigger] tokens[i]).contains(
                ',',
            ) by {
                if i == tokens.len() - 1 {
                    assert(!before.last().contains(','));
                    if grown.contains(',') {
                        let at = choose|at: int| 0 <= at < grown.len() && grown[at] == ',';
                        if at < before.last().len() {
                            assert(before.last()[at] == ',');
                        }
                    }
                } else {
                    assert(tokens[i] == before[i]);
                }
            }
        }
    }
}

/// Trimming takes white space away and nothing else: what is left starts
/// and ends with something that is no white space, and the text is what is
/// left with white space before and after it.
pub proof fn lemma_trim(text: Seq<char>)
    ensures
        trim(text).len() > 0 ==> !is_space(trim(text).first()) && !is_space(trim(text).last()),
        exists|before: Seq<char>, after: Seq<char>|
            #![trigger before + trim(text) + after]
            text == before + trim(text) + after && all_space(before) && all_space(after),
{
    lemma_trim_start(text);
    lemma_trim_end(trim_start(text));
    let (before, after) = choose|before: Seq<char>, after: Seq<char>|
        #![trigger before + trim_start(text), trim(text) + after]
        text == before + trim_start(text) && all_space(before) && trim_start(text) == trim(text)
            + after && all_space(after);
    assert(text =~= before + trim(text) + after);
}

/// Whether `text` holds white space and nothing else.
pub open spec fn all_space(text: Seq<char>) -> bool {
    forall|i: int| 0 <= i < text.len() ==> is_space(#[trigger] text[i])
}

/// What `trim_start` takes away is white space, and what it leaves does
/// not start with white space.
proof fn lemma_trim_start(text: Seq<char>)
    ensures
        trim_start(text).len() > 0 ==> !is_space(trim_start(text).first()),
        exists|before: Seq<char>|
            #![trigger before + trim_start(text)]
            text == before + trim_start(text) && all_space(before),
    decreases text.len(),
{
    if text.len() > 0 && is_space(text.first()) {
        lemma_trim_start(text.drop_first());
        let rest = choose|before: Seq<char>|
            #![trigger before + trim_start(text)]
            text.drop_first() == before + trim_start(text) && all_space(before);
        let before = seq![text.first()] + rest;
        assert(text =~= before + trim_start(text)) by {
            assert(text =~= seq![text.first()] + text.drop_first());
        }
        assert(all_space(before));
    } else {
        assert(text =~= Seq::<char>::empty() + trim_start(text));
        assert(all_space(Seq::<char>::empty()));
    }
}

/// What `trim_end` takes away is white space, and what it leaves neither
/// ends with white space nor starts otherwise than the text.
proof fn lemma_trim_end(text: Seq<char>)
    ensures
        trim_end(text).len() > 0 ==> !is_space(trim_end(text).last()) && trim_end(text).first()
            == text.first(),
        exists|after: Seq<char>|
            #![trigger trim_end(text) + after]
            text == trim_end(text) + after && all_space(after),
    decreases text.len(),
{
    if text.len() > 0 && is_space(text.last()) {
        lemma_trim_end(text.drop_last());
        let rest = choose|after: Seq<char>|
            #![trigger trim_end(text) + after]
            text.drop_last() == trim_end(text) + after && all_space(after);
        let after = rest.push(text.last());
        assert(text =~= trim_end(text) + after) by {
            assert(text =~= text.drop_last().push(text.last()));
        }
        assert(all_space(after));
    } else {
        assert(text =~= trim_end(text) + Seq::<char>::empty());
        assert(all_space(Seq::<char>::empty()));
    }
}

/// Whether `c` is a decimal digit.
pub open spec fn is_digit(c: char) -> bool {
    '0' <= c <= '9'
}

/// Whether `digits` holds decimal digits and nothing else.
pub open spec fn all_digits(digits: Seq<char>) -> bool {
    forall|i: int| 0 <= i < digits.len() ==> is_digit(#[trigger] digits[i])
}

/// The number that the decimal digits `digits` write.
pub open spec fn number(digits: Seq<char>) -> int
    decreases digits.len(),
{
    if digits.len() == 0 {
        0
    } else {
        10 * number(digits.drop_last()) + (digits.last() as int - '0' as int)
    }
}

/// The integer that `token` writes: an optional sign, `+` or `-`, and then
/// one decimal digit or more. Anything else writes none.
pub open spec fn integer(token: Seq<char>) -> Option<int> {
    if token.len() == 0 {
        None
    } else {
        let signed = token.first() == '-' || token.first() == '+';
        let digits = if signed {
            token.drop_first()
        } else {
            token
        };
        if digits.len() == 0 || !all_digits(digits) {
            None
        } else if token.first() == '-' {
            Some(-number(digits))
        } else {
            Some(number(digits))
        }
    }
}

/// The value of the memory cell that `token` writes, if it writes an integer
/// and the integer fits.
pub open spec fn cell(token: Seq<char>) -> Option<isize> {
    match integer(token) {
        Some(value) => if isize::MIN <= value <= isize::MAX {
            Some(value as isize)
        } else {
            None
        },
        None => None,
    }
}

/// The cells that `tokens` write, or the index of the first token that
/// writes none.
pub open spec fn cells(tokens: Seq<Seq<char>>) -> Result<Seq<isize>, ParseError>
    decreases tokens.len(),
{
    if tokens.len() == 0 {
        Ok(Seq::empty())
    } else {
        match cells(tokens.drop_last()) {
            Err(error) => Err(error),
            Ok(before) => match cell(tokens.last()) {
                Some(value) => Ok(before.push(value)),
                None => Err(ParseError { token: (tokens.len() - 1) as usize }),
            },
        }
    }
}

/// The memory that the program text `text` loads: the white space around
/// the text is dropped, what is left is split at its commas, and each token
/// is read as an integer.
pub open spec fn program(text: Seq<char>) -> Result<Seq<isize>, ParseError> {
    cells(split(trim(text)))
}

/// The texts that a list of tokens holds.
pub open spec fn texts(tokens: Seq<Vec<char>>) -> Seq<Seq<char>> {
    tokens.map_values(|token: Vec<char>| token@)
}

/// The digits of a number that is longer than another's and starts with it
/// write a number that is no smaller.
proof fn lemma_number_grows(digits: Seq<char>, shorter: int)
    requires
        all_digits(digits),
        0 <= shorter <= digits.len(),
    ensures
        0 <= number(digits.take(shorter)) <= number(digits),
    decreases digits.len() - shorter,
{
    if shorter == digits.len() {
        assert(digits.take(shorter) =~= digits);
        lemma_number_positive(digits);
    } else {
        lemma_number_grows(digits, shorter + 1);
        let longer = digits.take(shorter + 1);
        assert(longer.drop_last() =~= digits.take(shorter));
        assert(is_digit(digits[shorter]));
        lemma_number_positive(digits.take(shorter));
    }
}

/// Decimal digits write a number that is not negative.
proof fn lemma_number_positive(digits: Seq<char>)
    requires
        all_digits(digits),
    ensures
        0 <= number(digits),
    decreases digits.len(),
{
    if digits.len() > 0 {
        assert(is_digit(digits.last()));
        lemma_number_positive(digits.drop_last());
    }
}

/// Whether `c` is white space.
fn space(c: char) -> (white: bool)
    ensures
        white == is_space(c),
{
    let code: u32 = c as u32;
    (0x09 <= code && code <= 0x0D) || code == 0x20 || code == 0x85 || code == 0xA0 || code
        == 0x1680 || (0x2000 <= code && code <= 0x200A) || code == 0x2028 || code == 0x2029
        || code == 0x202F || code == 0x205F || code == 0x3000
}

/// The characters of `text`, in order.
pub(crate) fn characters(text: &str) -> (list: Vec<char>)
    ensures
        list@ == text@,
{
    let mut list: Vec<char> = Vec::new();
    for c in it: text.chars()
        invariant
            it.seq() == text@,
            list@ == it.seq().take(it.index() as int),
    {
        list.push(c);
        proof {
            assert(it.seq().take(it.index() + 1) =~= it.seq().take(it.index() as int).push(c));
        }
    }
    assert(text@.take(text@.len() as int) =~= text@);
    list
}

/// Where `text` without the white space around it starts and ends.
fn bounds(text: &Vec<char>) -> (range: (usize, usize))
    ensures
        range.0 <= range.1 <= text@.len(),
        text@.subrange(range.0 as int, range.1 as int) == trim(text@),
{
    let mut start: usize = 0;
    assert(text@.skip(0) =~= text@);
    while start < text.len() && space(text[start])
        invariant
            start <= text@.len(),
            trim_start(text@) == trim_start(text@.skip(start as int)),
        decreases text@.len() - start,
    {
        proof {
            assert(text@.skip(start as int).drop_first() =~= text@.skip(start + 1));
        }
        start = start + 1;
    }
    assert(text@.skip(start as int) =~= text@.subrange(start as int, text@.len() as int));
    let mut end: usize = text.len();
    while start < end && space(text[end - 1])
        invariant
            start <= end <= text@.len(),
            trim(text@) == trim_end(text@.subrange(start as int, end as int)),
        decreases end,
    {
        proof {
            assert(text@.subrange(start as int, end as int).drop_last() =~= text@.subrange(
                start as int,
                end - 1,
            ));
        }
        end = end - 1;
    }
    (start, end)
}

/// The tokens of the stretch of `text` from `start` to `end`.
fn tokens(text: &Vec<char>, start: usize, end: usize) -> (list: Vec<Vec<char>>)
    requires
        start <= end <= text@.len(),
    ensures
        texts(list@) == split(text@.subrange(start as int, end as int)),
{
    let mut done: Vec<Vec<char>> = Vec::new();
    let mut current: Vec<char> = Vec::new();
    let mut next: usize = start;
    assert(texts(done@).push(current@) =~= seq![Seq::<char>::empty()]);
    while next < end
        invariant
            start <= next <= end <= text@.len(),
            texts(done@).push(current@) == split(text@.subrange(start as int, next as int)),
        decreases end - next,
    {
        let ghost before = texts(done@).push(current@);
        proof {
            assert(text@.subrange(start as int, next + 1).drop_last() =~= text@.subrange(
                start as int,
                next as int,
            ));
        }
        let c = text[next];
        if c == ',' {
            done.push(current);
            current = Vec::new();
            assert(texts(done@).push(current@) =~= before.push(Seq::<char>::empty()));
        } else {
            current.push(c);
            assert(texts(done@).push(current@) =~= before.update(
                before.len() - 1,
                before.last().push(c),
            ));
        }
        next = next + 1;
    }
    let ghost whole = texts(done@).push(current@);
    done.push(current);
    assert(texts(done@) =~= whole);
    done
}

/// The value of the memory cell that `token` writes.
fn read_cell(token: &Vec<char>) -> (value: Option<isize>)
    ensures
        value == cell(token@),
{
    if token.len() == 0 {
        return None;
    }
    let negative = token[0] == '-';
    let first: usize = if negative || token[0] == '+' {
        1
    } else {
        0
    };
    if first == token.len() {
        return None;
    }
    let ghost digits = if first == 1 {
        token@.drop_first()
    } else {
        token@
    };
    assert(digits =~= token@.subrange(first as int, token@.len() as int));
    let mut value: isize = 0;
    let mut next: usize = first;
    assert(digits.take(0) =~= Seq::<char>::empty());
    while next < token.len()
        invariant
            first <= next <= token@.len(),
            first < token@.len(),
            negative == (token@[0] == '-'),
            first == if token@[0] == '-' || token@[0] == '+' {
                1int
            } else {
                0int
            },
            digits == token@.subrange(first as int, token@.len() as int),
            all_digits(digits.take(next - first)),
            value == if negative {
                -number(digits.take(next - first))
            } else {
                number(digits.take(next - first))
            },
        decreases token@.len() - next,
    {
        let c = token[next];
        let ghost longer = digits.take(next - first + 1);
        proof {
            assert(longer.drop_last() =~= digits.take(next - first));
            assert(longer.last() == c);
        }
        if !('0' <= c && c <= '9') {
            assert(!is_digit(digits[next - first]));
            assert(digits =~= if first == 1 {
                token@.drop_first()
            } else {
                token@
            });
            return None;
        }
        assert(all_digits(longer)) by {
            assert forall|i: int| 0 <= i < longer.len() implies is_digit(#[trigger] longer[i]) by {
                if i < longer.len() - 1 {
                    assert(longer[i] == digits.take(next - first)[i]);
                }
            }
        }
        let digit: isize = (c as u32 - '0' as u32) as isize;
        let grown = match value.checked_mul(10) {
            Some(tenfold) => if negative {
                tenfold.checked_sub(digit)
            } else {
                tenfold.checked_add(digit)
            },
            None => None,
        };
        match grown {
            Some(grown) => {
                value = grown;
            },
            None => {
                proof {
                    assert(digits =~= if first == 1 {
                        token@.drop_first()
                    } else {
                        token@
                    });
                    lemma_number_positive(digits.take(next - first));
                    if all_digits(digits) {
                        lemma_number_grows(digits, next - first + 1);
                    }
                }
                return None;
            },
        }
        next = next + 1;
    }
    assert(digits.take(next - first) =~= digits);
    Some(value)
}

/// Read the program text `text`: trim the white space around it, split it
/// at its commas, and read each token as an integer that fits a memory cell.
pub fn parse(text: &str) -> (memory: Result<Vec<isize>, ParseError>)
    ensures
        match program(text@) {
            Ok(cells) => memory is Ok && memory->Ok_0@ == cells,
            Err(error) => memory == Err::<Vec<isize>, ParseError>(error),
        },
{
    let list = characters(text);
    let (start, end) = bounds(&list);
    let tokens = tokens(&list, start, end);
    let mut memory: Vec<isize> = Vec::new();
    let mut next: usize = 0;
    assert(texts(tokens@).take(0) =~= Seq::<Seq<char>>::empty());
    while next < tokens.len()
        invariant
            next <= tokens@.len(),
            texts(tokens@) == split(trim(text@)),
            cells(texts(tokens@).take(next as int)) == Ok::<Seq<isize>, ParseError>(memory@),
        decreases tokens@.len() - next,
    {
        proof {
            assert(texts(tokens@).take(next + 1).drop_last() =~= texts(tokens@).take(next as int));
        }
        match read_cell(&tokens[next]) {
            Some(value) => memory.push(value),
            None => {
                proof {
                    lemma_cells_fail(texts(tokens@), next as int);
                }
                return Err(ParseError { token: next });
            },
        }
        next = next + 1;
    }
    assert(texts(tokens@).take(next as int) =~= texts(tokens@));
    Ok(memory)
}

/// Where the first `failing` tokens write cells and the next one does not,
/// the whole list fails at that token.
proof fn lemma_cells_fail(tokens: Seq<Seq<char>>, failing: int)
    requires
        0 <= failing < tokens.len(),
        cells(tokens.take(failing)) is Ok,
        cell(tokens[failing]) is None,
    ensures
        cells(tokens) == Err::<Seq<isize>, ParseError>(ParseError { token: failing as usize }),
    decreases tokens.len(),
{
    if tokens.len() == failing + 1 {
        assert(tokens.drop_last() =~= tokens.take(failing));
    } else {
        assert(tokens.drop_last().take(failing) =~= tokens.take(failing));
        lemma_cells_fail(tokens.drop_last(), failing);
    }
}

} // verus!
