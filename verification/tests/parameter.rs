use intcode::fault::Fault;
use intcode::parameter::Parameter;

#[test]
fn test_parameter_new() {
    // Does the math check out?
    assert_eq!(Parameter::new(1002, 1, 4), Ok(Parameter::Position(4)));
    assert_eq!(Parameter::new(1002, 2, 3), Ok(Parameter::Immediate(3)));
    assert_eq!(Parameter::new(1002, 3, 2), Ok(Parameter::Position(2)));
}

#[test]
fn parameter_relative_mode() {
    assert_eq!(Parameter::new(204, 1, -1), Ok(Parameter::Relative(-1)));
}

#[test]
fn parameter_unknown_mode_is_a_fault() {
    assert_eq!(Parameter::new(304, 1, 0), Err(Fault::InvalidMode));
}

#[test]
fn parameter_position_cannot_be_negative() {
    assert_eq!(Parameter::new(2, 1, -4), Err(Fault::InvalidAddress));
    assert_eq!(Parameter::new(102, 1, -4), Ok(Parameter::Immediate(-4)));
    assert_eq!(Parameter::new(2, 1, 0), Ok(Parameter::Position(0)));
}

#[test]
fn mode_is_the_digit_of_the_position() {
    assert_eq!(Parameter::mode(1002, 1), 0);
    assert_eq!(Parameter::mode(1002, 2), 1);
    assert_eq!(Parameter::mode(1002, 3), 0);
    assert_eq!(Parameter::mode(21202, 1), 2);
    assert_eq!(Parameter::mode(21202, 2), 1);
    assert_eq!(Parameter::mode(21202, 3), 2);
    assert_eq!(Parameter::mode(987654321, 1), 3);
    assert_eq!(Parameter::mode(987654321, 5), 7);
    assert_eq!(Parameter::mode(987654321, 7), 9);
    assert_eq!(Parameter::mode(987654321, 8), 0);
    assert_eq!(Parameter::mode(isize::MAX, 17), ((isize::MAX as i128 / 10i128.pow(18)) % 10) as isize);
    assert_eq!(Parameter::mode(isize::MAX, 40), 0);
    assert_eq!(Parameter::mode(isize::MAX, isize::MAX), 0);
    assert_eq!(Parameter::mode(0, 1), 0);
}

#[test]
fn mode_of_a_negative_opcode_has_its_sign() {
    assert_eq!(Parameter::mode(-1002, 2), -1);
    assert_eq!(Parameter::mode(-1, 1), 0);
    assert_eq!(Parameter::mode(-299, 1), -2);
    assert_eq!(Parameter::new(-1002, 2, 0), Err(Fault::InvalidMode));
    assert_eq!(Parameter::new(-1, 1, 5), Ok(Parameter::Position(5)));
    for opcode in [-1002isize, -1, -299, 1002, 21202, isize::MIN, isize::MAX] {
        for position in 1..=3u32 {
            let expected = (opcode / 10isize.pow(position + 1)) % 10;
            assert_eq!(Parameter::mode(opcode, position as isize), expected);
        }
    }
}
