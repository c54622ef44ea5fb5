use marzipan::parser::loadfile_primitives::{
    addr_mode, eol, modifier, number, only_number, opcode, space0, ParseError, ParseErrorKind,
};
use marzipan::redcode::{AddrMode, Modifier, Opcode};

fn syntax(remaining: usize) -> ParseError {
    ParseError {
        kind: ParseErrorKind::Syntax,
        remaining,
    }
}

#[test]
fn loadfile_primitives_check_opcode_parsing() {
    assert_eq!(
        opcode("DAT".as_bytes()),
        Ok(("".as_bytes(), Opcode::Dat)),
        "parse nothing but an opcode"
    );
    assert_eq!(
        opcode("dAtfollowingcrap".as_bytes()),
        Ok(("followingcrap".as_bytes(), Opcode::Dat)),
        "parse opcode with trailing text"
    );
    assert!(
        opcode(" dat".as_bytes()).is_err(),
        "should fail to parse opcode with leading whitespace"
    );
}

#[test]
fn loadfile_primitives_check_mode_parsing() {
    assert_eq!(
        addr_mode("**".as_bytes()),
        Ok(("*".as_bytes(), AddrMode::IndirectA))
    );
    assert_eq!(
        addr_mode("#followingcrap".as_bytes()),
        Ok(("followingcrap".as_bytes(), AddrMode::Immediate))
    );
    assert!(
        addr_mode(" #".as_bytes()).is_err(),
        "should fail to parse mode with leading whitespace"
    );
}

#[test]
fn loadfile_primitives_check_modifier_parsing() {
    assert_eq!(
        modifier("BA".as_bytes()),
        Ok(("".as_bytes(), Modifier::BA))
    );
    assert_eq!(
        modifier("B A".as_bytes()),
        Ok((" A".as_bytes(), Modifier::B))
    );
    assert!(
        modifier(" B".as_bytes()).is_err(),
        "should fail to parse modifier with leading whitespace"
    );
}

#[test]
fn check_number_parsing() {
    let valid_test_cases = vec![
        ("123", 123, "regular positive integer", ""),
        ("+123", 123, "positive integer with leading \"+\"", ""),
        ("-123", -123, "negative integer with leading \"-\"", ""),
        (
            "+123 ",
            123,
            "positive integer with leading \"+\" and trailing whitespace",
            "",
        ),
        (
            "-123 ",
            -123,
            "negative integer with leading \"-\" and trailing whitespace",
            "",
        ),
        ("+0000", 0, "zero with leading zeros and leading \"+\"", ""),
        ("-0000", 0, "zero with leading zeros and leading \"-\"", ""),
        (
            "123followingcrap",
            123,
            "integer with trailing test",
            "followingcrap",
        ),
        (" 123", 123, "integer with leading whitespace", ""),
        ("0xA", 0, "should parse as decimil and never as hex", "xA"),
        (
            "0b111",
            0,
            "should parse as decimil and never as binary",
            "b111",
        ),
        (
            "0o777",
            0,
            "should parse as decimil and never as octal",
            "o777",
        ),
    ];

    let invalid_test_cases = vec![
        ("++1234", "should fail to parse two leading signs"),
        ("+-1234", "should fail to parse two leading signs"),
        ("--1234", "should fail to parse two leading signs"),
        ("-+1234", "should fail to parse two leading signs"),
        (
            "+ 1234",
            "should fail to parse with whitespace separating the sign and \
             number",
        ),
        (
            "- 1234",
            "should fail to parse with whitespace separating the sign and \
             number",
        ),
        ("", "should fail to parse empty input"),
    ];

    for (input, expected, desc, leftover) in valid_test_cases {
        assert_eq!(
            number(input.as_bytes()),
            Ok((leftover.as_bytes(), expected)),
            "should parse {} as {}",
            desc,
            expected
        );
    }

    for (input, desc) in invalid_test_cases {
        assert!(
            number(input.as_bytes()).is_err(),
            "{}: input: {}",
            desc,
            input
        );
    }
}

#[test]
fn a_number_has_at_most_one_sign() {
    assert!(number("++5".as_bytes()).is_err());
    assert_eq!(number("+5".as_bytes()), Ok(("".as_bytes(), 5)));
    assert_eq!(number("-5".as_bytes()), Ok(("".as_bytes(), -5)));
    assert_eq!(only_number("++5".as_bytes()), Err(syntax(3)));
    assert_eq!(only_number("+".as_bytes()), Err(syntax(1)));
    assert_eq!(only_number("-".as_bytes()), Err(syntax(1)));
    assert_eq!(only_number(" 5".as_bytes()), Err(syntax(2)));
    assert_eq!(only_number("5 ".as_bytes()), Ok((" ".as_bytes(), 5)));
}

#[test]
fn a_number_fits_sixty_four_bits() {
    assert_eq!(
        number("9223372036854775807".as_bytes()),
        Ok(("".as_bytes(), i64::MAX))
    );
    assert_eq!(
        number("-9223372036854775808".as_bytes()),
        Ok(("".as_bytes(), i64::MIN))
    );
    assert_eq!(
        number("+9223372036854775807x".as_bytes()),
        Ok(("x".as_bytes(), i64::MAX))
    );
    assert_eq!(number("9223372036854775808".as_bytes()), Err(syntax(19)));
    assert_eq!(number("-9223372036854775809".as_bytes()), Err(syntax(20)));
    assert_eq!(
        number("99999999999999999999999999".as_bytes()),
        Err(syntax(26))
    );
    assert_eq!(
        number("000000000000000000000000000001".as_bytes()),
        Ok(("".as_bytes(), 1))
    );
    assert_eq!(
        number("18446744073709551616".as_bytes()),
        Err(syntax(20))
    );
    assert_eq!(
        number("18446744073709551617".as_bytes()),
        Err(syntax(20))
    );
}

#[test]
fn numbers_are_read_as_nom_reads_them() {
    let inputs = [
        "0",
        "7",
        "-7",
        "+7",
        "12345 rest",
        "-0012x",
        "9223372036854775807",
        "9223372036854775808",
        "-9223372036854775808",
        "-9223372036854775809",
        "123456789012345678901234567890",
        "",
        "-",
        "x1",
        "1x",
        "--1",
        "-+1",
        "٣",
        "1٣",
    ];
    for input in inputs {
        let expected: nom::IResult<&str, i64, nom::error::Error<&str>> =
            nom::character::complete::i64(input);
        let ours = only_number(input.as_bytes());
        match expected {
            Ok((rest, value)) => assert_eq!(ours, Ok((rest.as_bytes(), value)), "{input}"),
            Err(_) => assert_eq!(ours, Err(syntax(input.len())), "{input}"),
        }
    }
}

#[test]
fn space0_skips_spaces_and_tabs_only() {
    assert_eq!(space0("".as_bytes()), "".as_bytes());
    assert_eq!(space0(" \t \tx ".as_bytes()), "x ".as_bytes());
    assert_eq!(space0("\n ".as_bytes()), "\n ".as_bytes());
    assert_eq!(space0("\r".as_bytes()), "\r".as_bytes());
    assert_eq!(space0("   ".as_bytes()), "".as_bytes());
}

#[test]
fn eol_is_a_line_feed_with_or_without_carriage_return() {
    assert_eq!(eol("\nabc".as_bytes()), Ok(("abc".as_bytes(), ())));
    assert_eq!(eol("\r\nabc".as_bytes()), Ok(("abc".as_bytes(), ())));
    assert_eq!(eol("\n\n".as_bytes()), Ok(("\n".as_bytes(), ())));
    assert_eq!(eol("\rabc".as_bytes()), Err(syntax(4)));
    assert_eq!(eol("\r".as_bytes()), Err(syntax(1)));
    assert_eq!(eol("".as_bytes()), Err(syntax(0)));
    assert_eq!(eol(" \n".as_bytes()), Err(syntax(2)));
}

#[test]
fn every_opcode_is_read_in_any_case() {
    let names = [
        ("dat", Opcode::Dat),
        ("mov", Opcode::Mov),
        ("add", Opcode::Add),
        ("sub", Opcode::Sub),
        ("mul", Opcode::Mul),
        ("div", Opcode::Div),
        ("mod", Opcode::Mod),
        ("jmp", Opcode::Jmp),
        ("jmz", Opcode::Jmz),
        ("jmn", Opcode::Jmn),
        ("djn", Opcode::Djn),
        ("spl", Opcode::Spl),
        ("slt", Opcode::Slt),
        ("cmp", Opcode::Cmp),
        ("seq", Opcode::SeqOp),
        ("sne", Opcode::Sne),
        ("nop", Opcode::Nop),
        ("ldp", Opcode::Ldp),
        ("stp", Opcode::Stp),
    ];
    for (name, expected) in names {
        let upper = name.to_uppercase();
        let mixed = format!("{}{}", &upper[..1], &name[1..]);
        for text in [name.to_string(), upper.clone(), mixed] {
            assert_eq!(
                opcode(text.as_bytes()),
                Ok(("".as_bytes(), expected)),
                "{text}"
            );
            assert_eq!(expected.to_string().to_lowercase(), name);
        }
    }
    assert_eq!(opcode("da".as_bytes()), Err(syntax(2)));
    assert_eq!(opcode("org 1".as_bytes()), Err(syntax(5)));
    assert_eq!(opcode("dau".as_bytes()), Err(syntax(3)));
    assert_eq!(opcode("".as_bytes()), Err(syntax(0)));
}

#[test]
fn every_modifier_and_mode_is_read() {
    let modifiers = [
        ("a", Modifier::A),
        ("b", Modifier::B),
        ("ab", Modifier::AB),
        ("ba", Modifier::BA),
        ("f", Modifier::F),
        ("x", Modifier::X),
        ("i", Modifier::I),
    ];
    for (name, expected) in modifiers {
        assert_eq!(modifier(name.as_bytes()), Ok(("".as_bytes(), expected)));
        assert_eq!(
            modifier(name.to_uppercase().as_bytes()),
            Ok(("".as_bytes(), expected))
        );
        assert_eq!(expected.to_string(), name.to_uppercase());
    }
    assert_eq!(modifier("aB ".as_bytes()), Ok((" ".as_bytes(), Modifier::AB)));
    assert_eq!(modifier("aa".as_bytes()), Ok(("a".as_bytes(), Modifier::A)));
    assert_eq!(modifier("bb".as_bytes()), Ok(("b".as_bytes(), Modifier::B)));
    assert_eq!(modifier("c".as_bytes()), Err(syntax(1)));
    assert_eq!(modifier("".as_bytes()), Err(syntax(0)));
    let modes = [
        ("#", AddrMode::Immediate),
        ("$", AddrMode::Direct),
        ("*", AddrMode::IndirectA),
        ("@", AddrMode::IndirectB),
        ("{", AddrMode::PredecA),
        ("<", AddrMode::PredecB),
        ("}", AddrMode::PostincA),
        (">", AddrMode::PostincB),
    ];
    for (symbol, expected) in modes {
        assert_eq!(addr_mode(symbol.as_bytes()), Ok(("".as_bytes(), expected)));
        assert_eq!(expected.to_string(), symbol);
    }
    assert_eq!(addr_mode("1".as_bytes()), Err(syntax(1)));
    assert_eq!(addr_mode("".as_bytes()), Err(syntax(0)));
}
