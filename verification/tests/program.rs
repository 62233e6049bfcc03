use intcode::program::{parse, ParseError};

#[test]
fn parse_reads_signed_integers() {
    assert_eq!(parse("1,0,0,0,99"), Ok(vec![1, 0, 0, 0, 99]));
    assert_eq!(parse("-1,+2,007,-0"), Ok(vec![-1, 2, 7, 0]));
    assert_eq!(parse("42"), Ok(vec![42]));
    assert_eq!(parse("104,1125899906842624,99"), Ok(vec![104, 1125899906842624, 99]));
}

#[test]
fn parse_trims_the_text_and_nothing_else() {
    assert_eq!(parse(" \t1,2\r\n"), Ok(vec![1, 2]));
    assert_eq!(parse("\u{a0}1,2\u{3000}\u{2028}"), Ok(vec![1, 2]));
    assert_eq!(parse("1, 2"), Err(ParseError { token: 1 }));
    assert_eq!(parse("1 ,2"), Err(ParseError { token: 0 }));
    assert_eq!(parse("1,2\u{200b}"), Err(ParseError { token: 1 }));
}

#[test]
fn parse_names_the_first_token_that_is_no_integer() {
    assert_eq!(parse(""), Err(ParseError { token: 0 }));
    assert_eq!(parse("   "), Err(ParseError { token: 0 }));
    assert_eq!(parse(","), Err(ParseError { token: 0 }));
    assert_eq!(parse("1,"), Err(ParseError { token: 1 }));
    assert_eq!(parse("1,,2"), Err(ParseError { token: 1 }));
    assert_eq!(parse("1,2,x,y"), Err(ParseError { token: 2 }));
    assert_eq!(parse("1,-,3"), Err(ParseError { token: 1 }));
    assert_eq!(parse("+"), Err(ParseError { token: 0 }));
    assert_eq!(parse("1,2,3,+-4"), Err(ParseError { token: 3 }));
    assert_eq!(parse("1,2.5"), Err(ParseError { token: 1 }));
    assert_eq!(parse("1,0x10"), Err(ParseError { token: 1 }));
    assert_eq!(parse("1,٣"), Err(ParseError { token: 1 }));
}

#[test]
fn parse_keeps_to_the_range_of_a_cell() {
    let text = format!("{},{}", isize::MAX, isize::MIN);
    assert_eq!(parse(&text), Ok(vec![isize::MAX, isize::MIN]));
    let text = format!("0,{}0", isize::MAX);
    assert_eq!(parse(&text), Err(ParseError { token: 1 }));
    assert_eq!(parse("9223372036854775808x"), Err(ParseError { token: 0 }));
    if isize::BITS == 64 {
        assert_eq!(parse("9223372036854775807"), Ok(vec![isize::MAX]));
        assert_eq!(parse("9223372036854775808"), Err(ParseError { token: 0 }));
        assert_eq!(parse("-9223372036854775808"), Ok(vec![isize::MIN]));
        assert_eq!(parse("-9223372036854775809"), Err(ParseError { token: 0 }));
        assert_eq!(parse("00000000000000000000000000001"), Ok(vec![1]));
    }
}

#[test]
fn parse_agrees_with_the_standard_library() {
    let texts = [
        "1,2,3", " 7 ", "", ",", "+1,-1", "1,,", "--1", "1,+", "12a", "\n99\n", "0,-0,+0", "1 2",
        "18446744073709551616", "-18446744073709551616", "1,\t2", "٣",
    ];
    for text in texts {
        let expected: Result<Vec<isize>, usize> = text
            .trim()
            .split(',')
            .enumerate()
            .map(|(index, token)| token.parse::<isize>().map_err(|_| index))
            .collect();
        let expected = expected.map_err(|token| ParseError { token });
        assert_eq!(parse(text), expected);
    }
}
