//! Parsing of whole warriors and of single instructions in loadfile format.

use crate::parser::line_parser::{
    comment_line, end_line, instr_88_line, instr_94_line, lemma_lines_shrink,
    lemma_space0_shrinks, org_line, pin_line, spec_comment_line, spec_end_line,
    spec_instr_88_line, spec_instr_94_line, spec_org_line, spec_pin_line,
};
use crate::parser::loadfile_primitives::{
    eol, space0, spec_eol, spec_space0, syntax_error, ParseError, ParseErrorKind, ParseResult,
};
use crate::relaxed_redcode::{RelaxedCompleteInstruction, RelaxedWarrior, RelaxedWarriorView};
use vstd::prelude::*;
use vstd::string::*;

verus! {

/// Configures the parser.
///
/// The default options parse ICWS '94 loadfiles and are the most permissive:
/// a warrior may be empty, and what follows an `END` is neither parsed nor
/// checked.
#[non_exhaustive]
#[derive(Copy, Clone, Debug, PartialEq, Eq, Hash, Structural)]
pub struct ParseOptions {
    /// Instructions have no modifiers, in the style of ICWS '88.
    pub omit_modifiers: bool,
    /// The warrior must have at least one instruction.
    pub disallow_empty_warrior: bool,
    /// Nothing but white space may follow the end of the warrior.
    pub must_consume_all: bool,
}

impl Default for ParseOptions {
    /// The default options.
    fn default() -> (r: ParseOptions)
        ensures
            r == ParseOptions::spec_default(),
    {
        ParseOptions::default_options()
    }
}

impl ParseOptions {
    /// The default options: nothing is asked for.
    pub open spec fn spec_default() -> ParseOptions {
        ParseOptions {
            omit_modifiers: false,
            disallow_empty_warrior: false,
            must_consume_all: false,
        }
    }

    /// The default options, which are permissive and parse ICWS '94
    /// loadfiles.
    pub fn default_options() -> (r: ParseOptions)
        ensures
            r == ParseOptions::spec_default(),
    {
        ParseOptions {
            omit_modifiers: false,
            disallow_empty_warrior: false,
            must_consume_all: false,
        }
    }

    /// Options for an ICWS '88 loadfile, whose instructions have no
    /// modifiers.  Each instruction gets the default modifier that ICWS '94
    /// gives for it.
    pub fn icws_88_options() -> (r: ParseOptions)
        ensures
            r == (ParseOptions { omit_modifiers: true, ..ParseOptions::spec_default() }),
    {
        ParseOptions {
            omit_modifiers: true,
            disallow_empty_warrior: false,
            must_consume_all: false,
        }
    }

    /// Options for an ICWS '94 loadfile.  These are the default options.
    pub fn icws_94_options() -> (r: ParseOptions)
        ensures
            r == ParseOptions::spec_default(),
    {
        ParseOptions::default_options()
    }

    /// The strictest options: the warrior must have an instruction, and
    /// nothing may follow its end.
    pub fn strict_options() -> (r: ParseOptions)
        ensures
            r == (ParseOptions {
                omit_modifiers: false,
                disallow_empty_warrior: true,
                must_consume_all: true,
            }),
    {
        ParseOptions {
            omit_modifiers: false,
            disallow_empty_warrior: true,
            must_consume_all: true,
        }
    }

    /// Require that instructions have no modifiers, and give each the default
    /// modifier of ICWS '94.
    #[must_use]
    pub fn require_omitted_modifiers(self) -> (r: Self)
        ensures
            r == (ParseOptions { omit_modifiers: true, ..self }),
    {
        ParseOptions {
            omit_modifiers: true,
            disallow_empty_warrior: self.disallow_empty_warrior,
            must_consume_all: self.must_consume_all,
        }
    }

    /// Reject a warrior without instructions.
    #[must_use]
    pub fn disallow_empty_warrior(self) -> (r: Self)
        ensures
            r == (ParseOptions { disallow_empty_warrior: true, ..self }),
    {
        ParseOptions {
            omit_modifiers: self.omit_modifiers,
            disallow_empty_warrior: true,
            must_consume_all: self.must_consume_all,
        }
    }

    /// Reject an input that holds more than white space behind the line of
    /// the first `END`.
    #[must_use]
    pub fn must_consume_all(self) -> (r: Self)
        ensures
            r == (ParseOptions { must_consume_all: true, ..self }),
    {
        ParseOptions {
            omit_modifiers: self.omit_modifiers,
            disallow_empty_warrior: self.disallow_empty_warrior,
            must_consume_all: true,
        }
    }
}

/// What a line of a loadfile holds.
#[derive(Copy, Clone, Debug, PartialEq, Eq, Structural)]
pub enum LineContent {
    /// A comment.
    Comment,
    /// An instruction.
    Instruction(RelaxedCompleteInstruction),
    /// Nothing but white space.
    Empty,
    /// An `ORG` pseudo-op with the start of the warrior.
    Org(i64),
    /// The end of the warrior: an `END` pseudo-op, with the start of the
    /// warrior if it gives one, or the end of the input.
    End(Option<i64>),
    /// A `PIN` pseudo-op with the pin of the warrior.
    Pin(i64),
}

/// The content of a line that does not end the warrior, and what is left
/// behind it.  A line that is nothing else is empty.
pub open spec fn spec_line_body(input: Seq<u8>, omit_modifiers: bool) -> (Seq<u8>, LineContent) {
    let instruction = if omit_modifiers {
        spec_instr_88_line(input)
    } else {
        spec_instr_94_line(input)
    };
    match instruction {
        Some((rest, instruction)) => (rest, LineContent::Instruction(instruction)),
        None => match spec_comment_line(input) {
            Some((rest, _)) => (rest, LineContent::Comment),
            None => match spec_org_line(input) {
                Some((rest, start)) => (rest, LineContent::Org(start)),
                None => match spec_pin_line(input) {
                    Some((rest, pin)) => (rest, LineContent::Pin(pin)),
                    None => (spec_space0(input), LineContent::Empty),
                },
            },
        },
    }
}

/// A line of a loadfile.  An `END` line ends the warrior, however it ends
/// itself, and so does an input that holds no more than spaces and tabs.  Any
/// other line ends with the input or with a line ending, which is consumed.
pub open spec fn spec_parse_line(input: Seq<u8>, omit_modifiers: bool) -> Option<
    (Seq<u8>, LineContent),
> {
    match spec_end_line(input) {
        Some((rest, start)) => Some((rest, LineContent::End(start))),
        None => if spec_space0(input).len() == 0 {
            Some((spec_space0(input), LineContent::End(None)))
        } else {
            let (rest, content) = spec_line_body(input, omit_modifiers);
            if rest.len() == 0 {
                Some((rest, content))
            } else {
                match spec_eol(rest) {
                    Some((rest, _)) => Some((rest, content)),
                    None => None,
                }
            }
        },
    }
}

/// A line that does not end the warrior leaves less than there was.
pub proof fn lemma_line_consumes(input: Seq<u8>, omit_modifiers: bool)
    ensures
        spec_parse_line(input, omit_modifiers) matches Some((rest, content)) ==> rest.len()
            <= input.len() && (content is End || rest.len() < input.len()),
{
    lemma_lines_shrink(input);
    lemma_space0_shrinks(input);
}

/// The lines of a warrior, up to and with the one that ends it, and what is
/// left of the input behind them.
pub open spec fn spec_lines(input: Seq<u8>, omit_modifiers: bool) -> Result<
    (Seq<LineContent>, Seq<u8>),
    ParseError,
>
    decreases input.len(),
    via spec_lines_terminates
{
    match spec_parse_line(input, omit_modifiers) {
        None => Err(syntax_error(input)),
        Some((rest, content)) => if content is End {
            Ok((seq![content], rest))
        } else {
            match spec_lines(rest, omit_modifiers) {
                Ok((lines, left)) => Ok((seq![content] + lines, left)),
                Err(e) => Err(e),
            }
        },
    }
}

#[via_fn]
proof fn spec_lines_terminates(input: Seq<u8>, omit_modifiers: bool) {
    lemma_line_consumes(input, omit_modifiers);
}

/// The instructions among the lines, in their order.
pub open spec fn code_of(lines: Seq<LineContent>) -> Seq<RelaxedCompleteInstruction>
    decreases lines.len(),
{
    if lines.len() == 0 {
        Seq::empty()
    } else {
        match lines.last() {
            LineContent::Instruction(instruction) => code_of(lines.drop_last()).push(instruction),
            _ => code_of(lines.drop_last()),
        }
    }
}

/// The start that the lines give: that of the last `ORG` or `END` that gives
/// one.
pub open spec fn start_of(lines: Seq<LineContent>) -> Option<i64>
    decreases lines.len(),
{
    if lines.len() == 0 {
        None
    } else {
        match lines.last() {
            LineContent::Org(start) => Some(start),
            LineContent::End(Some(start)) => Some(start),
            _ => start_of(lines.drop_last()),
        }
    }
}

/// The pin that the lines give: that of the last `PIN`.
pub open spec fn pin_of(lines: Seq<LineContent>) -> Option<i64>
    decreases lines.len(),
{
    if lines.len() == 0 {
        None
    } else {
        match lines.last() {
            LineContent::Pin(pin) => Some(pin),
            _ => pin_of(lines.drop_last()),
        }
    }
}

/// The number of bytes of the white space character that the input begins
/// with, or zero if it begins with none.  The input is read as UTF-8, and
/// white space is what Unicode defines as such.
pub open spec fn whitespace_width(input: Seq<u8>) -> nat {
    if input.len() >= 1 && (0x09 <= input[0] <= 0x0d || input[0] == 0x20) {
        1
    } else if input.len() >= 2 && input[0] == 0xc2 && (input[1] == 0x85 || input[1] == 0xa0) {
        2
    } else if input.len() >= 3 && input[0] == 0xe1 && input[1] == 0x9a && input[2] == 0x80 {
        3
    } else if input.len() >= 3 && input[0] == 0xe2 && input[1] == 0x80 && (0x80 <= input[2] <= 0x8a
        || input[2] == 0xa8 || input[2] == 0xa9 || input[2] == 0xaf) {
        3
    } else if input.len() >= 3 && input[0] == 0xe2 && input[1] == 0x81 && input[2] == 0x9f {
        3
    } else if input.len() >= 3 && input[0] == 0xe3 && input[1] == 0x80 && input[2] == 0x80 {
        3
    } else {
        0
    }
}

/// Whether the input holds nothing but white space.
pub open spec fn is_blank(input: Seq<u8>) -> bool
    decreases input.len(),
{
    input.len() == 0 || (whitespace_width(input) > 0 && is_blank(
        input.skip(whitespace_width(input) as int),
    ))
}

/// The warrior that a loadfile holds.  Its lines are read up to the first
/// that ends it.  The start is that of the last `ORG` or `END` that gives
/// one, else zero; the pin is that of the last `PIN`.
pub open spec fn spec_parse(input: Seq<u8>, options: ParseOptions) -> Result<
    RelaxedWarriorView,
    ParseError,
> {
    match spec_lines(input, options.omit_modifiers) {
        Err(e) => Err(e),
        Ok((lines, rest)) => if options.must_consume_all && !is_blank(rest) {
            Err(ParseError { kind: ParseErrorKind::TrailingContent, remaining: rest.len() as usize })
        } else if options.disallow_empty_warrior && code_of(lines).len() == 0 {
            Err(ParseError { kind: ParseErrorKind::EmptyWarrior, remaining: rest.len() as usize })
        } else {
            Ok(
                RelaxedWarriorView {
                    code: code_of(lines),
                    start: match start_of(lines) {
                        Some(start) => start,
                        None => 0,
                    },
                    pin: pin_of(lines),
                },
            )
        },
    }
}

/// The instruction that an input holds on its first line that is not empty.
pub open spec fn spec_parse_instr(input: Seq<u8>, options: ParseOptions) -> Result<
    RelaxedCompleteInstruction,
    ParseError,
>
    decreases input.len(),
    via spec_parse_instr_terminates
{
    match spec_parse_line(input, options.omit_modifiers) {
        None => Err(syntax_error(input)),
        Some((rest, content)) => match content {
            LineContent::Empty => spec_parse_instr(rest, options),
            LineContent::End(_) => Err(
                ParseError {
                    kind: ParseErrorKind::MissingInstruction,
                    remaining: input.len() as usize,
                },
            ),
            LineContent::Comment | LineContent::Pin(_) | LineContent::Org(_) => Err(
                ParseError {
                    kind: ParseErrorKind::UnexpectedStatement,
                    remaining: input.len() as usize,
                },
            ),
            LineContent::Instruction(instruction) => if options.must_consume_all && !is_blank(
                rest,
            ) {
                Err(
                    ParseError {
                        kind: ParseErrorKind::TrailingContent,
                        remaining: rest.len() as usize,
                    },
                )
            } else {
                Ok(instruction)
            },
        },
    }
}

#[via_fn]
proof fn spec_parse_instr_terminates(input: Seq<u8>, options: ParseOptions) {
    lemma_line_consumes(input, options.omit_modifiers);
}

/// Parse the content of a line.  After a line that ends the warrior no
/// further line should be parsed.
pub fn parse_line<'a>(input: &'a [u8], omit_modifiers: bool) -> (r: ParseResult<'a, LineContent>)
    ensures
        match spec_parse_line(input@, omit_modifiers) {
            Some((rest, content)) => r matches Ok((left, read)) && left@ == rest && read
                == content,
            None => r == Err::<(&[u8], LineContent), ParseError>(syntax_error(input@)),
        },
{
    // What ends the warrior is tried first: else an empty line that the input
    // ends with would be taken for a line like any other.
    if let Ok((rest, start)) = end_line(input) {
        return Ok((rest, LineContent::End(start)));
    }
    let trimmed = space0(input);
    if trimmed.len() == 0 {
        return Ok((trimmed, LineContent::End(None)));
    }
    let parsed_instruction = if omit_modifiers {
        instr_88_line(input)
    } else {
        instr_94_line(input)
    };
    let (rest, content) = if let Ok((rest, instruction)) = parsed_instruction {
        (rest, LineContent::Instruction(instruction))
    } else if let Ok((rest, _)) = comment_line(input) {
        (rest, LineContent::Comment)
    } else if let Ok((rest, start)) = org_line(input) {
        (rest, LineContent::Org(start))
    } else if let Ok((rest, pin)) = pin_line(input) {
        (rest, LineContent::Pin(pin))
    } else {
        (trimmed, LineContent::Empty)
    };
    if rest.len() == 0 {
        return Ok((rest, content));
    }
    match eol(rest) {
        Ok((rest, _)) => Ok((rest, content)),
        Err(_) => Err(ParseError { kind: ParseErrorKind::Syntax, remaining: input.len() }),
    }
}

/// Whether the input holds nothing but white space.
pub fn only_whitespace(input: &[u8]) -> (r: bool)
    ensures
        r == is_blank(input@),
{
    let mut i: usize = 0;
    assert(input@.skip(0) =~= input@);
    while i < input.len()
        invariant
            i <= input@.len(),
            is_blank(input@) == is_blank(input@.skip(i as int)),
        decreases input@.len() - i,
    {
        let ghost rest = input@.skip(i as int);
        let left = input.len() - i;
        let first = input[i];
        assert(rest[0] == first);
        let width: usize = if (0x09 <= first && first <= 0x0d) || first == 0x20 {
            1
        } else if left >= 2 && first == 0xc2 && (input[i + 1] == 0x85 || input[i + 1] == 0xa0) {
            assert(rest[1] == input@[i + 1]);
            2
        } else if left >= 3 {
            let second = input[i + 1];
            let third = input[i + 2];
            assert(rest[1] == second && rest[2] == third);
            if first == 0xe1 && second == 0x9a && third == 0x80 {
                3
            } else if first == 0xe2 && second == 0x80 && ((0x80 <= third && third <= 0x8a) || third
                == 0xa8 || third == 0xa9 || third == 0xaf) {
                3
            } else if first == 0xe2 && second == 0x81 && third == 0x9f {
                3
            } else if first == 0xe3 && second == 0x80 && third == 0x80 {
                3
            } else {
                0
            }
        } else {
            0
        };
        assert(width == whitespace_width(rest)) by {
            if left >= 2 {
                assert(rest[1] == input@[i + 1]);
            }
        }
        if width == 0 {
            return false;
        }
        assert(rest.skip(width as int) =~= input@.skip(i + width));
        i += width;
    }
    true
}

/// Parse a warrior in loadfile format.
///
/// The options decide the dialect, whether the warrior may be empty, and
/// whether anything may follow its end.  By default, ICWS '94 instructions are
/// parsed, the warrior may be empty, and anything may follow its end.
///
/// # Errors
///
/// Returns an error with the kind `Syntax` and the number of bytes from the
/// start of the line to the end of the input, if a line is not of the
/// grammar.  Returns an error with the kind `TrailingContent` or
/// `EmptyWarrior`, and the number of bytes left behind the end of the
/// warrior, if the warrior is not what the options ask for.
pub fn parse(warrior: &str, options: ParseOptions) -> (r: Result<RelaxedWarrior, ParseError>)
    ensures
        match spec_parse(warrior.spec_bytes(), options) {
            Ok(loaded) => r matches Ok(parsed) && parsed@ == loaded,
            Err(e) => r == Err::<RelaxedWarrior, ParseError>(e),
        },
{
    let bytes = warrior.as_bytes();
    let mut input: &[u8] = bytes;
    let mut instructions: Vec<RelaxedCompleteInstruction> = Vec::new();
    let mut start: Option<i64> = None;
    let mut pin: Option<i64> = None;
    let ghost mut lines: Seq<LineContent> = Seq::empty();
    assert(Seq::<LineContent>::empty() + seq![LineContent::Empty] =~= seq![LineContent::Empty]);
    loop
        invariant_except_break
            match spec_lines(input@, options.omit_modifiers) {
                Ok((more, left)) => spec_lines(bytes@, options.omit_modifiers) == Ok::<
                    (Seq<LineContent>, Seq<u8>),
                    ParseError,
                >((lines + more, left)),
                Err(e) => spec_lines(bytes@, options.omit_modifiers) == Err::<
                    (Seq<LineContent>, Seq<u8>),
                    ParseError,
                >(e),
            },
        invariant
            bytes@ == warrior.spec_bytes(),
            instructions@ == code_of(lines),
            pin == pin_of(lines),
            !(start_of(lines) matches Some(_)) ==> start is None,
            start_of(lines) matches Some(s) ==> start == Some(s),
        ensures
            instructions@ == code_of(lines),
            pin == pin_of(lines),
            !(start_of(lines) matches Some(_)) ==> start is None,
            start_of(lines) matches Some(s) ==> start == Some(s),
            spec_lines(bytes@, options.omit_modifiers) == Ok::<
                (Seq<LineContent>, Seq<u8>),
                ParseError,
            >((lines, input@)),
        decreases input@.len(),
    {
        proof {
            lemma_line_consumes(input@, options.omit_modifiers);
        }
        let ghost before = lines;
        match parse_line(input, options.omit_modifiers) {
            Ok((leftover, content)) => {
                proof {
                    lines = before.push(content);
                    assert(before.push(content).drop_last() =~= before);
                    assert(before + seq![content] =~= before.push(content));
                    if !(content is End) {
                        match spec_lines(leftover@, options.omit_modifiers) {
                            Ok((more, left)) => {
                                assert(before + (seq![content] + more) =~= before.push(content)
                                    + more);
                            },
                            Err(_) => {},
                        }
                    }
                }
                input = leftover;
                match content {
                    LineContent::Empty | LineContent::Comment => {},
                    LineContent::Pin(val) => {
                        pin = Some(val);
                    },
                    LineContent::Instruction(instruction) => {
                        instructions.push(instruction);
                    },
                    LineContent::Org(e) => {
                        start = Some(e);
                    },
                    LineContent::End(Some(e)) => {
                        start = Some(e);
                        break ;
                    },
                    LineContent::End(None) => {
                        break ;
                    },
                }
            },
            Err(e) => {
                return Err(e);
            },
        }
    }
    if options.must_consume_all {
        // Nothing but white space may follow, neither comments nor further
        // pseudo-ops.
        if !only_whitespace(input) {
            return Err(
                ParseError { kind: ParseErrorKind::TrailingContent, remaining: input.len() },
            );
        }
    }
    if options.disallow_empty_warrior && instructions.len() == 0 {
        return Err(ParseError { kind: ParseErrorKind::EmptyWarrior, remaining: input.len() });
    }
    Ok(
        RelaxedWarrior {
            code: instructions,
            start: match start {
                Some(start) => start,
                None => 0,
            },
            pin,
        },
    )
}

/// Parse one instruction.
///
/// Empty lines may stand before the instruction, but nothing else: neither a
/// comment nor a pseudo-op.  No line ending need follow it.  The options
/// decide the dialect and whether anything may follow the instruction;
/// whether a warrior may be empty has no meaning here.
///
/// # Errors
///
/// Returns an error with the kind `Syntax`, `MissingInstruction` or
/// `UnexpectedStatement` and the number of bytes from the start of the line
/// to the end of the input, if the first line that is not empty is no
/// instruction.  Returns an error with the kind `TrailingContent` and the
/// number of bytes left behind the instruction, if more than white space
/// follows it and the options do not allow that.
#[verifier::loop_isolation(false)]
pub fn parse_instr(input: &str, options: ParseOptions) -> (r: Result<
    RelaxedCompleteInstruction,
    ParseError,
>)
    ensures
        r == spec_parse_instr(input.spec_bytes(), options),
{
    let bytes = input.as_bytes();
    let mut cursor: &[u8] = bytes;
    loop
        invariant
            spec_parse_instr(bytes@, options) == spec_parse_instr(cursor@, options),
        decreases cursor@.len(),
    {
        proof {
            lemma_line_consumes(cursor@, options.omit_modifiers);
        }
        match parse_line(cursor, options.omit_modifiers) {
            Ok((leftovers, LineContent::Empty)) => {
                cursor = leftovers;
            },
            Ok((_, LineContent::End(_))) => {
                return Err(
                    ParseError { kind: ParseErrorKind::MissingInstruction, remaining: cursor.len() },
                );
            },
            Ok((_, LineContent::Comment | LineContent::Pin(_) | LineContent::Org(_))) => {
                return Err(
                    ParseError {
                        kind: ParseErrorKind::UnexpectedStatement,
                        remaining: cursor.len(),
                    },
                );
            },
            Ok((leftovers, LineContent::Instruction(parsed_instruction))) => {
                if options.must_consume_all && !only_whitespace(leftovers) {
                    return Err(
                        ParseError {
                            kind: ParseErrorKind::TrailingContent,
                            remaining: leftovers.len(),
                        },
                    );
                }
                return Ok(parsed_instruction);
            },
            Err(e) => {
                return Err(e);
            },
        }
    }
}

} // verus!
