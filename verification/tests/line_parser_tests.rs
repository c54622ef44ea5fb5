use marzipan::parser::line_parser::{
    comment_line, empty_line, end_line, instr_88_line, instr_94_line, org_line, pin_line,
};
use marzipan::redcode::test_utils::all_instructions;
use marzipan::redcode::{default_modifiers, CompleteInstruction, Instruction};

#[test]
fn test_all_94_instrs() {
    for instruction in all_instructions() {
        let expected = CompleteInstruction {
            instr: instruction.clone(),
            a_field: 1234,
            b_field: 1234,
        };
        let input = expected.to_string();

        assert_eq!(
            instr_94_line(input.as_bytes())
                .map(|(leftover, instr)| (leftover, instr.normalize(8000u32))),
            Ok(("".as_bytes(), expected)),
            "The instruction parser should parse the instruction \"{}\"",
            input
        );
    }
}

#[test]
fn test_all_88_instrs() {
    for instruction in all_instructions() {
        // An instruction in the style of '88 has the default modifier.
        let expected = CompleteInstruction {
            instr: Instruction {
                opcode: instruction.opcode,
                modifier: default_modifiers(
                    instruction.opcode,
                    instruction.a_addr_mode,
                    instruction.b_addr_mode,
                ),
                a_addr_mode: instruction.a_addr_mode,
                b_addr_mode: instruction.b_addr_mode,
            },
            a_field: 1234,
            b_field: 1234,
        };
        let input = format!(
            "{} {}{}, {}{}",
            instruction.opcode.to_string(),
            instruction.a_addr_mode.to_string(),
            1234,
            instruction.b_addr_mode.to_string(),
            1234
        );

        assert_eq!(
            instr_88_line(input.as_bytes())
                .map(|(leftover, instr)| (leftover, instr.normalize(8000u32))),
            Ok(("".as_bytes(), expected)),
            "The instruction parser should parse the instruction \"{}\"",
            input
        );
    }
}

#[test]
fn line_parser_test_comment() {
    assert_eq!(
        comment_line(";1234\nabc".as_bytes()),
        Ok(("\nabc".as_bytes(), "1234".as_bytes())),
        "The comment parser should return the content of the comment \
         excluding the \";\" without consuming the line ending"
    );
    assert_eq!(
        comment_line(";\n".as_bytes()),
        Ok(("\n".as_bytes(), "".as_bytes())),
        "The comment parser should accept empty comments"
    );
    assert_eq!(
        comment_line(";asdf\r\nabc".as_bytes()),
        Ok(("\r\nabc".as_bytes(), "asdf".as_bytes())),
        "The comment parser should accept carriage return + newline style \
         line endings"
    );
    assert_eq!(
        comment_line("; asdf\n".as_bytes()),
        Ok(("\n".as_bytes(), " asdf".as_bytes())),
        "The comment parser shouldn't consume the line ending after a \
         commend"
    );
    assert_eq!(
        comment_line(";\r\n".as_bytes()),
        Ok(("\r\n".as_bytes(), "".as_bytes())),
        "The comment parser should parse an empty comment with a carriage \
         return + newline style line ending"
    );
}

#[test]
fn test_comment_fail() {
    assert!(
        comment_line("1234\n".as_bytes()).is_err(),
        "The comment parser should fail if no semicolon is provided"
    );
    assert!(
        comment_line("".as_bytes()).is_err(),
        "The comment parser should fail if no input is provided"
    );
}

#[test]
fn test_org() {
    assert_eq!(
        org_line("ORG 1234\nabc".as_bytes()),
        Ok(("\nabc".as_bytes(), 1234)),
        "The org parser should return the content of the org excluding \
         the \"ORG\" without consuming the line ending"
    );
    assert!(
        org_line("ORG\n".as_bytes()).is_err(),
        "The org parser should fail if no number is provided"
    );
    assert_eq!(
        org_line("ORG 1234\r\nabc".as_bytes()),
        Ok(("\r\nabc".as_bytes(), 1234))
    );

    assert_eq!(
        org_line("ORG1234".as_bytes()),
        Ok(("".as_bytes(), 1234)),
        "The org parser should accept no space between ORG and the number"
    );
    assert_eq!(
        org_line("oRg 1234\r\n".as_bytes()),
        Ok(("\r\n".as_bytes(), 1234)),
        "The org parser should be case insensitive"
    );
    assert_eq!(
        org_line("org +1234\r\n".as_bytes()),
        Ok(("\r\n".as_bytes(), 1234)),
        "The org parser should accept positive numbers"
    );
    assert_eq!(
        org_line("org -1234\r\n".as_bytes()),
        Ok(("\r\n".as_bytes(), -1234)),
        "The org parser should accept negative numbers"
    );
}

#[test]
fn test_org_fail() {
    assert!(
        org_line("1234\n".as_bytes()).is_err(),
        "The org parser should fail if no \"ORG\" is provided"
    );
    assert!(
        org_line("".as_bytes()).is_err(),
        "The org parser should fail if no input is provided"
    );
    assert!(
        org_line("ORG\n".as_bytes()).is_err(),
        "The org parser should fail if no number is provided"
    );
    assert!(
        org_line("ORG ++1234\n".as_bytes()).is_err(),
        "The org parser should fail if the number has two leading signs"
    );
}

#[test]
fn test_pin() {
    assert_eq!(
        pin_line("PIN 1234\nabc".as_bytes()),
        Ok(("\nabc".as_bytes(), 1234)),
        "The pin parser should return the content of the pin excluding \
         the \"PIN\" without consuming the line ending"
    );
    assert!(
        pin_line("PIN\n".as_bytes()).is_err(),
        "The pin parser should fail if no number is provided"
    );
    assert_eq!(
        pin_line("PIN 1234\r\nabc".as_bytes()),
        Ok(("\r\nabc".as_bytes(), 1234)),
        "The pin parser should accept carriage return + newline style \
         line endings"
    );
}

#[test]
fn test_pin_fail() {
    assert!(
        pin_line("1234\n".as_bytes()).is_err(),
        "The pin parser should fail if no \"PIN\" is provided"
    );
    assert!(
        pin_line("".as_bytes()).is_err(),
        "The pin parser should fail if no input is provided"
    );
    assert!(
        pin_line("PIN\n".as_bytes()).is_err(),
        "The pin parser should fail if no number is provided"
    );
}

#[test]
fn test_end() {
    assert_eq!(
        end_line("END 1234\nabc".as_bytes()),
        Ok(("\nabc".as_bytes(), Some(1234))),
        "The end parser should return the content of the end excluding \
         the \"END\" without consuming the line ending"
    );
    assert_eq!(
        end_line("END\n".as_bytes()),
        Ok(("\n".as_bytes(), None)),
        "The end parser should accept empty ends"
    );
    assert_eq!(
        end_line("END 1234\r\nabc".as_bytes()),
        Ok(("\r\nabc".as_bytes(), Some(1234)))
    );
}

#[test]
fn test_end_fail() {
    assert!(
        end_line("1234\n".as_bytes()).is_err(),
        "The end parser should fail if no \"END\" is provided"
    );
    assert!(
        end_line("".as_bytes()).is_err(),
        "The end parser should fail if no input is provided"
    );
}

#[test]
fn empty_line_takes_spaces_and_tabs() {
    assert_eq!(empty_line("".as_bytes()), Ok(("".as_bytes(), ())));
    assert_eq!(empty_line(" \t\nx".as_bytes()), Ok(("\nx".as_bytes(), ())));
    assert_eq!(empty_line("dat".as_bytes()), Ok(("dat".as_bytes(), ())));
}

#[test]
fn instructions_allow_spaces_between_their_parts() {
    let expected = instr_94_line("Add.AB #16, $32".as_bytes()).unwrap().1;
    assert_eq!(expected.a_field, 16);
    assert_eq!(expected.b_field, 32);
    for text in [
        "  \tadd.ab#16,$32",
        "ADD.AB   #  16  ,  $  32",
        "Add.aB\t#+16\t,\t$+32",
    ] {
        assert_eq!(
            instr_94_line(text.as_bytes()),
            Ok(("".as_bytes(), expected)),
            "{text}"
        );
    }
    // The spaces behind the last number belong to the line.
    assert_eq!(
        instr_94_line("Add.AB #16, $32  \n".as_bytes()),
        Ok(("\n".as_bytes(), expected))
    );
    // No space may stand around the dot or inside a number.
    for text in [
        "Add .AB #16, $32",
        "Add. AB #16, $32",
        "Add.AB #1 6, $32",
        "Add.AB #16 $32",
        "Add.AB #16,",
        "Add.AB #, $32",
        "Add #16, $32",
    ] {
        assert!(instr_94_line(text.as_bytes()).is_err(), "{text}");
    }
    assert!(instr_88_line("Add.AB #16, $32".as_bytes()).is_err());
    assert_eq!(
        instr_88_line("add #-16, $32 ; text".as_bytes()).map(|(rest, instr)| (rest, instr.a_field)),
        Ok(("; text".as_bytes(), -16))
    );
}
