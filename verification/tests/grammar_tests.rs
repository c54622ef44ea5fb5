use marzipan::parser::line_parser as ours_line;
use marzipan::parser::loadfile_parser::{parse, parse_instr, ParseOptions};
use marzipan::parser::loadfile_primitives as ours;
use marzipan::redcode::{default_modifiers, AddrMode, Instruction, Modifier, Opcode};
use marzipan::{RelaxedCompleteInstruction, RelaxedWarrior};

use nom::branch::alt;
use nom::bytes::complete::{is_not, tag, tag_no_case};
use nom::character::complete::{i64 as nom_i64, line_ending, space0};
use nom::combinator;
use nom::combinator::{eof, fail};
use nom::error::VerboseError;
use nom::sequence::{delimited, pair, preceded, terminated, tuple};
use nom::IResult;

// The grammar once more, written with the combinators of the `nom` crate.
// The parsers of the library must agree with it on every input.

type Parsed<'a, T> = IResult<&'a str, T, VerboseError<&'a str>>;

fn nom_only_number(input: &str) -> Parsed<i64> {
    if input.starts_with("+-") || input.starts_with("++") {
        fail(input)
    } else if let Some(stripped_input) = input.strip_prefix('+') {
        nom_i64(stripped_input)
    } else {
        nom_i64(input)
    }
}

fn nom_number(input: &str) -> Parsed<i64> {
    delimited(space0, nom_only_number, space0)(input)
}

fn nom_opcode(input: &str) -> Parsed<Opcode> {
    alt((
        combinator::map(tag_no_case("DAT"), |_| Opcode::Dat),
        combinator::map(tag_no_case("MOV"), |_| Opcode::Mov),
        combinator::map(tag_no_case("ADD"), |_| Opcode::Add),
        combinator::map(tag_no_case("SUB"), |_| Opcode::Sub),
        combinator::map(tag_no_case("MUL"), |_| Opcode::Mul),
        combinator::map(tag_no_case("DIV"), |_| Opcode::Div),
        combinator::map(tag_no_case("MOD"), |_| Opcode::Mod),
        combinator::map(tag_no_case("JMP"), |_| Opcode::Jmp),
        combinator::map(tag_no_case("JMZ"), |_| Opcode::Jmz),
        combinator::map(tag_no_case("JMN"), |_| Opcode::Jmn),
        combinator::map(tag_no_case("DJN"), |_| Opcode::Djn),
        combinator::map(tag_no_case("SPL"), |_| Opcode::Spl),
        combinator::map(tag_no_case("SLT"), |_| Opcode::Slt),
        combinator::map(tag_no_case("CMP"), |_| Opcode::Cmp),
        combinator::map(tag_no_case("SEQ"), |_| Opcode::SeqOp),
        combinator::map(tag_no_case("SNE"), |_| Opcode::Sne),
        combinator::map(tag_no_case("NOP"), |_| Opcode::Nop),
        combinator::map(tag_no_case("LDP"), |_| Opcode::Ldp),
        combinator::map(tag_no_case("STP"), |_| Opcode::Stp),
    ))(input)
}

fn nom_addr_mode(input: &str) -> Parsed<AddrMode> {
    alt((
        combinator::map(tag("#"), |_| AddrMode::Immediate),
        combinator::map(tag("$"), |_| AddrMode::Direct),
        combinator::map(tag("*"), |_| AddrMode::IndirectA),
        combinator::map(tag("@"), |_| AddrMode::IndirectB),
        combinator::map(tag("{"), |_| AddrMode::PredecA),
        combinator::map(tag("<"), |_| AddrMode::PredecB),
        combinator::map(tag("}"), |_| AddrMode::PostincA),
        combinator::map(tag(">"), |_| AddrMode::PostincB),
    ))(input)
}

fn nom_modifier(input: &str) -> Parsed<Modifier> {
    alt((
        combinator::map(tag_no_case("AB"), |_| Modifier::AB),
        combinator::map(tag_no_case("BA"), |_| Modifier::BA),
        combinator::map(tag_no_case("A"), |_| Modifier::A),
        combinator::map(tag_no_case("B"), |_| Modifier::B),
        combinator::map(tag_no_case("X"), |_| Modifier::X),
        combinator::map(tag_no_case("F"), |_| Modifier::F),
        combinator::map(tag_no_case("I"), |_| Modifier::I),
    ))(input)
}

fn nom_instr_94_line(input: &str) -> Parsed<RelaxedCompleteInstruction> {
    let (leftover, parts) = tuple((
        space0,
        nom_opcode,
        tag("."),
        nom_modifier,
        space0,
        nom_addr_mode,
        space0,
        nom_number,
        space0,
        tag(","),
        space0,
        nom_addr_mode,
        space0,
        nom_number,
    ))(input)?;
    let (_, opcode, _, modifier, _, a_addr_mode, _, a_field, _, _, _, b_addr_mode, _, b_field) =
        parts;
    Ok((
        leftover,
        RelaxedCompleteInstruction {
            instr: Instruction {
                opcode,
                modifier,
                a_addr_mode,
                b_addr_mode,
            },
            a_field,
            b_field,
        },
    ))
}

fn nom_instr_88_line(input: &str) -> Parsed<RelaxedCompleteInstruction> {
    let (leftover, parts) = tuple((
        space0,
        nom_opcode,
        space0,
        nom_addr_mode,
        space0,
        nom_number,
        space0,
        tag(","),
        space0,
        nom_addr_mode,
        space0,
        nom_number,
    ))(input)?;
    let (_, opcode, _, a_addr_mode, _, a_field, _, _, _, b_addr_mode, _, b_field) = parts;
    Ok((
        leftover,
        RelaxedCompleteInstruction {
            instr: Instruction {
                opcode,
                modifier: default_modifiers(opcode, a_addr_mode, b_addr_mode),
                a_addr_mode,
                b_addr_mode,
            },
            a_field,
            b_field,
        },
    ))
}

fn nom_comment_line(input: &str) -> Parsed<&str> {
    preceded(preceded(space0, tag(";")), alt((is_not("\r\n"), space0)))(input)
}

fn nom_org_line(input: &str) -> Parsed<i64> {
    let prefix = preceded(space0, tag_no_case("ORG"));
    preceded(prefix, nom_number)(input)
}

fn nom_pin_line(input: &str) -> Parsed<i64> {
    let prefix = preceded(space0, tag_no_case("PIN"));
    preceded(prefix, nom_number)(input)
}

fn nom_end_line(input: &str) -> Parsed<Option<i64>> {
    let prefix = preceded(space0, tag_no_case("END"));
    let maybe_num = alt((combinator::map(nom_number, Some), combinator::map(space0, |_| None)));
    preceded(prefix, maybe_num)(input)
}

fn nom_empty_line(input: &str) -> Parsed<()> {
    combinator::map(space0, |_| ())(input)
}

#[derive(Copy, Clone, Debug, PartialEq, Eq)]
enum Line<'a> {
    Comment(&'a str),
    Instruction(RelaxedCompleteInstruction),
    Empty(),
    Org(i64),
    End(Option<i64>),
    Pin(i64),
}

fn nom_parse_line(input: &str, omit_modifier: bool) -> Parsed<Line> {
    let parse_instr = if omit_modifier {
        nom_instr_88_line
    } else {
        nom_instr_94_line
    };
    let body_content_parser = alt((
        combinator::map(parse_instr, Line::Instruction),
        combinator::map(nom_comment_line, Line::Comment),
        combinator::map(nom_org_line, Line::Org),
        combinator::map(nom_pin_line, Line::Pin),
        combinator::map(nom_empty_line, |_| Line::Empty()),
    ));
    let body_content_parser = terminated(body_content_parser, alt((eof, line_ending)));
    let end_content_parser = alt((
        combinator::map(nom_end_line, Line::End),
        combinator::map(pair(nom_empty_line, eof), |_| Line::End(None)),
    ));
    alt((end_content_parser, body_content_parser))(input)
}

fn nom_parse(warrior: &str, omit: bool, all: bool, nonempty: bool) -> Option<RelaxedWarrior> {
    let mut input = warrior;
    let mut instructions = vec![];
    let mut start = None;
    let mut pin = None;
    loop {
        let (leftover, e) = nom_parse_line(input, omit).ok()?;
        input = leftover;
        match e {
            Line::Empty() | Line::Comment(_) => {}
            Line::Pin(val) => pin = Some(val),
            Line::Instruction(instr) => instructions.push(instr),
            Line::Org(e) => start = Some(e),
            Line::End(Some(e)) => {
                start = Some(e);
                break;
            }
            Line::End(None) => break,
        }
    }
    if all && !input.trim().is_empty() {
        return None;
    }
    if nonempty && instructions.is_empty() {
        return None;
    }
    Some(RelaxedWarrior {
        code: instructions,
        start: start.unwrap_or(0),
        pin,
    })
}

fn nom_parse_instr(input: &str, omit: bool, all: bool) -> Option<RelaxedCompleteInstruction> {
    let mut input = input;
    loop {
        match nom_parse_line(input, omit) {
            Ok((leftovers, Line::Empty())) => {
                input = leftovers;
            }
            Ok((leftovers, Line::Instruction(parsed_instruction))) => {
                if all && !leftovers.trim().is_empty() {
                    return None;
                }
                return Some(parsed_instruction);
            }
            _ => return None,
        }
    }
}

const PIECES: [&str; 64] = [
    "DAT", "mov", "Add", "sub", "MUL", "div", "mod", "jmp", "JMZ", "jmn", "djn", "spl", "slt",
    "cmp", "seq", "sne", "nop", "ldp", "STP", ".", ".", "a", "B", "ab", "BA", "f", "X", "i", "#",
    "$", "*", "@", "{", "<", "}", ">", "0", "1", "23", "-4", "+5", "++6", "-", "+",
    "9223372036854775807", "9223372036854775808", ",", ",", " ", " ", "\t", "\n", "\n", "\r\n",
    "\r", ";", "; text", "ORG", "pin", "END", "end", "\u{a0}", "é", "x",
];

/// A sequence of numbers that looks random and is the same in every run.
struct Numbers(u64);

impl Numbers {
    fn next(&mut self, below: usize) -> usize {
        self.0 = self
            .0
            .wrapping_mul(6364136223846793005)
            .wrapping_add(1442695040888963407);
        ((self.0 >> 33) as usize) % below
    }
}

/// A text made of a few pieces of the grammar in any order.
fn scrambled(numbers: &mut Numbers) -> String {
    let mut text = String::new();
    for _ in 0..numbers.next(14) {
        text.push_str(PIECES[numbers.next(PIECES.len())]);
    }
    text
}

/// A text that is likely to be a line, and sometimes is not quite.
fn line_like(numbers: &mut Numbers) -> String {
    let spaces = ["", "", " ", "  ", "\t"];
    let opcodes = ["DAT", "mov", "Seq", "cmp", "STP", "jmz", "daT", "da", "org"];
    let modifiers = ["a", "B", "ab", "BA", "f", "X", "i", "ba", "c", ""];
    let modes = ["#", "$", "*", "@", "{", "<", "}", ">", "", "%"];
    let values = ["0", "1", "-1", "+7", "007", "8000", "-", "", "++1", "1 2"];
    let ends = ["", "", "\n", "\r\n", "\r", " \n", " ; text\n", "\nEND", "\n\n", " x"];
    let mut pick = |choices: &[&str]| choices[numbers.next(choices.len())].to_string();
    let kind = pick(&["i", "i", "i", "8", "8", "c", "o", "p", "e", "-"]);
    let body = match kind.as_str() {
        "i" => format!(
            "{}{}.{}{}{}{}{}{},{}{}{}{}",
            pick(&spaces),
            pick(&opcodes),
            pick(&modifiers),
            pick(&spaces),
            pick(&modes),
            pick(&spaces),
            pick(&values),
            pick(&spaces),
            pick(&spaces),
            pick(&modes),
            pick(&spaces),
            pick(&values),
        ),
        "8" => format!(
            "{}{}{}{}{}{},{}{}{}",
            pick(&spaces),
            pick(&opcodes),
            pick(&spaces),
            pick(&modes),
            pick(&values),
            pick(&spaces),
            pick(&spaces),
            pick(&modes),
            pick(&values),
        ),
        "c" => format!("{};{}", pick(&spaces), pick(&["", " text", "a;b", "\ttab", "é"])),
        "o" => format!("{}{}{}{}", pick(&spaces), pick(&["ORG", "org", "oRg", "OR"]), pick(&spaces), pick(&values)),
        "p" => format!("{}{}{}{}", pick(&spaces), pick(&["PIN", "pin", "Pin", "PI"]), pick(&spaces), pick(&values)),
        "e" => format!("{}{}{}{}", pick(&spaces), pick(&["END", "end", "eNd", "EN"]), pick(&spaces), pick(&values)),
        _ => pick(&spaces),
    };
    format!("{}{}{}", body, pick(&spaces), pick(&ends))
}

fn texts() -> Vec<String> {
    let mut numbers = Numbers(0x5eed);
    let mut all = vec![];
    for _ in 0..6000 {
        all.push(scrambled(&mut numbers));
    }
    for _ in 0..6000 {
        all.push(line_like(&mut numbers));
    }
    for _ in 0..3000 {
        let mut text = String::new();
        for _ in 0..numbers.next(5) {
            text.push_str(&line_like(&mut numbers));
        }
        all.push(text);
    }
    all
}

/// Holds a result of the library against one of the grammar.
fn agree<T: PartialEq + std::fmt::Debug, U>(
    ours: Result<(&[u8], T), ours::ParseError>,
    theirs: Result<(&str, U), nom::Err<VerboseError<&str>>>,
    same: impl Fn(&T, &U) -> bool,
    input: &str,
) {
    match (ours, theirs) {
        (Ok((our_rest, our_value)), Ok((their_rest, their_value))) => {
            assert_eq!(our_rest, their_rest.as_bytes(), "{input:?}");
            assert!(same(&our_value, &their_value), "{input:?}");
        }
        (Err(e), Err(_)) => {
            assert_eq!(e.kind, ours::ParseErrorKind::Syntax, "{input:?}");
            assert_eq!(e.remaining, input.len(), "{input:?}");
        }
        (ours, theirs) => panic!(
            "{input:?}: the library says {ours:?}, the grammar {:?}",
            theirs.is_ok()
        ),
    }
}

#[test]
fn primitives_agree_with_the_combinators() {
    for text in texts() {
        let input = text.as_str();
        let bytes = input.as_bytes();
        agree(ours::number(bytes), nom_number(input), |a, b| a == b, input);
        agree(ours::only_number(bytes), nom_only_number(input), |a, b| a == b, input);
        agree(ours::opcode(bytes), nom_opcode(input), |a, b| a == b, input);
        agree(ours::modifier(bytes), nom_modifier(input), |a, b| a == b, input);
        agree(ours::addr_mode(bytes), nom_addr_mode(input), |a, b| a == b, input);
        agree(ours::eol(bytes), line_ending(input), |_, _: &&str| true, input);
        let (rest, _) = space0::<&str, VerboseError<&str>>(input).unwrap();
        assert_eq!(ours::space0(bytes), rest.as_bytes());
    }
}

#[test]
fn line_parsers_agree_with_the_combinators() {
    for text in texts() {
        let input = text.as_str();
        let bytes = input.as_bytes();
        agree(ours_line::instr_94_line(bytes), nom_instr_94_line(input), |a, b| a == b, input);
        agree(ours_line::instr_88_line(bytes), nom_instr_88_line(input), |a, b| a == b, input);
        agree(
            ours_line::comment_line(bytes),
            nom_comment_line(input),
            |a, b| *a == b.as_bytes(),
            input,
        );
        agree(ours_line::org_line(bytes), nom_org_line(input), |a, b| a == b, input);
        agree(ours_line::pin_line(bytes), nom_pin_line(input), |a, b| a == b, input);
        agree(ours_line::end_line(bytes), nom_end_line(input), |a, b| a == b, input);
        agree(ours_line::empty_line(bytes), nom_empty_line(input), |a, b| a == b, input);
    }
}

#[test]
fn warriors_agree_with_the_combinators() {
    let mut parsed = 0;
    for text in texts() {
        for omit in [false, true] {
            for all in [false, true] {
                for nonempty in [false, true] {
                    let mut options = ParseOptions::default();
                    if omit {
                        options = options.require_omitted_modifiers();
                    }
                    if all {
                        options = options.must_consume_all();
                    }
                    if nonempty {
                        options = options.disallow_empty_warrior();
                    }
                    let ours = parse(&text, options).ok();
                    if ours.as_ref().is_some_and(|w| !w.code.is_empty()) {
                        parsed += 1;
                    }
                    assert_eq!(ours, nom_parse(&text, omit, all, nonempty), "{text:?}");
                    assert_eq!(
                        parse_instr(&text, options).ok(),
                        nom_parse_instr(&text, omit, all),
                        "{text:?}"
                    );
                }
            }
        }
    }
    // The texts are not all rubbish.
    assert!(parsed > 500, "{parsed}");
}
