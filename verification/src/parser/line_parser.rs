//! The lines of the loadfile grammar: instructions in both dialects,
//! comments, the pseudo-ops `ORG`, `PIN` and `END`, and empty lines.
//!
//! A line parser reads the content of a line and leaves the line ending.

use crate::parser::loadfile_primitives::{
    addr_mode, is_space, lemma_digit_count_bounds, lower, modifier, number, opcode, parsed,
    rest_from, space0, spec_addr_mode, spec_modifier, spec_number, spec_only_number, spec_opcode,
    spec_space0, syntax_error, syntax_failure, to_lower, ParseError, ParseResult,
};
use crate::redcode::{default_modifiers, spec_default_modifiers, AddrMode, Instruction};
use crate::relaxed_redcode::RelaxedCompleteInstruction;
use vstd::prelude::*;
use vstd::slice::slice_subrange;

verus! {

/// The input after one given byte.
pub open spec fn spec_tag(input: Seq<u8>, byte: u8) -> Option<Seq<u8>> {
    if input.len() > 0 && input[0] == byte {
        Some(input.skip(1))
    } else {
        None
    }
}

/// The input after a keyword of three letters, given in lower case and read
/// in upper or lower case.
pub open spec fn spec_keyword(input: Seq<u8>, first: u8, second: u8, third: u8) -> Option<Seq<u8>> {
    if input.len() >= 3 && lower(input[0]) == first && lower(input[1]) == second && lower(
        input[2],
    ) == third {
        Some(input.skip(3))
    } else {
        None
    }
}

/// An operand: an addressing mode and a number, with any spaces and tabs
/// before, between and behind them.
pub open spec fn spec_operand(input: Seq<u8>) -> Option<(Seq<u8>, (AddrMode, i64))> {
    match spec_addr_mode(spec_space0(input)) {
        Some((rest, mode)) => match spec_number(rest) {
            Some((rest, value)) => Some((rest, (mode, value))),
            None => None,
        },
        None => None,
    }
}

/// The two operands of an instruction, with a comma between them.
pub open spec fn spec_operands(input: Seq<u8>) -> Option<
    (Seq<u8>, ((AddrMode, i64), (AddrMode, i64))),
> {
    match spec_operand(input) {
        Some((rest, a)) => match spec_tag(rest, ',' as u8) {
            Some(rest) => match spec_operand(rest) {
                Some((rest, b)) => Some((rest, (a, b))),
                None => None,
            },
            None => None,
        },
        None => None,
    }
}

/// An instruction of the ICWS '94 dialect: an opcode, a dot, a modifier, and
/// the two operands.
pub open spec fn spec_instr_94_line(input: Seq<u8>) -> Option<
    (Seq<u8>, RelaxedCompleteInstruction),
> {
    match spec_opcode(spec_space0(input)) {
        Some((rest, opcode)) => match spec_tag(rest, '.' as u8) {
            Some(rest) => match spec_modifier(rest) {
                Some((rest, modifier)) => match spec_operands(rest) {
                    Some((rest, (a, b))) => Some(
                        (
                            rest,
                            RelaxedCompleteInstruction {
                                instr: Instruction {
                                    opcode,
                                    modifier,
                                    a_addr_mode: a.0,
                                    b_addr_mode: b.0,
                                },
                                a_field: a.1,
                                b_field: b.1,
                            },
                        ),
                    ),
                    None => None,
                },
                None => None,
            },
            None => None,
        },
        None => None,
    }
}

/// An instruction of the ICWS '88 dialect: an opcode and the two operands.
/// Its modifier is the default modifier of the opcode and the two modes.
pub open spec fn spec_instr_88_line(input: Seq<u8>) -> Option<
    (Seq<u8>, RelaxedCompleteInstruction),
> {
    match spec_opcode(spec_space0(input)) {
        Some((rest, opcode)) => match spec_operands(rest) {
            Some((rest, (a, b))) => Some(
                (
                    rest,
                    RelaxedCompleteInstruction {
                        instr: Instruction {
                            opcode,
                            modifier: spec_default_modifiers(opcode, a.0, b.0),
                            a_addr_mode: a.0,
                            b_addr_mode: b.0,
                        },
                        a_field: a.1,
                        b_field: b.1,
                    },
                ),
            ),
            None => None,
        },
        None => None,
    }
}

/// The number of bytes before the first carriage return or line feed.
pub open spec fn text_len(input: Seq<u8>) -> nat
    decreases input.len(),
{
    if input.len() > 0 && input[0] != '\r' as u8 && input[0] != '\n' as u8 {
        1 + text_len(input.drop_first())
    } else {
        0
    }
}

/// A comment: a semicolon and the text behind it, up to the end of the line.
/// The value is the text.
pub open spec fn spec_comment_line(input: Seq<u8>) -> Option<(Seq<u8>, Seq<u8>)> {
    match spec_tag(spec_space0(input), ';' as u8) {
        Some(rest) => Some(
            (rest.skip(text_len(rest) as int), rest.take(text_len(rest) as int)),
        ),
        None => None,
    }
}

/// An `ORG` line: the keyword and a number.
pub open spec fn spec_org_line(input: Seq<u8>) -> Option<(Seq<u8>, i64)> {
    match spec_keyword(spec_space0(input), 'o' as u8, 'r' as u8, 'g' as u8) {
        Some(rest) => spec_number(rest),
        None => None,
    }
}

/// A `PIN` line: the keyword and a number.
pub open spec fn spec_pin_line(input: Seq<u8>) -> Option<(Seq<u8>, i64)> {
    match spec_keyword(spec_space0(input), 'p' as u8, 'i' as u8, 'n' as u8) {
        Some(rest) => spec_number(rest),
        None => None,
    }
}

/// An `END` line: the keyword, and a number if one follows.
pub open spec fn spec_end_line(input: Seq<u8>) -> Option<(Seq<u8>, Option<i64>)> {
    match spec_keyword(spec_space0(input), 'e' as u8, 'n' as u8, 'd' as u8) {
        Some(rest) => match spec_number(rest) {
            Some((rest, value)) => Some((rest, Some(value))),
            None => Some((spec_space0(rest), None)),
        },
        None => None,
    }
}

/// An empty line: any spaces and tabs.  Every input begins with one.
pub open spec fn spec_empty_line(input: Seq<u8>) -> Option<(Seq<u8>, ())> {
    Some((spec_space0(input), ()))
}

/// Skipping spaces and tabs leaves no more than there was.
pub proof fn lemma_space0_shrinks(input: Seq<u8>)
    ensures
        spec_space0(input).len() <= input.len(),
        spec_space0(input).len() > 0 ==> !is_space(spec_space0(input)[0]),
    decreases input.len(),
{
    if input.len() > 0 && is_space(input[0]) {
        lemma_space0_shrinks(input.drop_first());
    }
}

/// A number leaves less than there was.
pub proof fn lemma_number_shrinks(input: Seq<u8>)
    ensures
        spec_only_number(input) matches Some((rest, _)) ==> rest.len() < input.len(),
        spec_number(input) matches Some((rest, _)) ==> rest.len() < input.len(),
{
    lemma_digit_count_bounds(input);
    if input.len() > 0 {
        lemma_digit_count_bounds(input.skip(1));
    }
    let trimmed = spec_space0(input);
    lemma_space0_shrinks(input);
    lemma_digit_count_bounds(trimmed);
    if trimmed.len() > 0 {
        lemma_digit_count_bounds(trimmed.skip(1));
    }
    match spec_only_number(trimmed) {
        Some((rest, _)) => {
            lemma_space0_shrinks(rest);
        },
        None => {},
    }
}

/// An operand leaves less than there was.
pub proof fn lemma_operand_shrinks(input: Seq<u8>)
    ensures
        spec_operand(input) matches Some((rest, _)) ==> rest.len() < input.len(),
{
    lemma_space0_shrinks(input);
    match spec_addr_mode(spec_space0(input)) {
        Some((rest, _)) => {
            lemma_number_shrinks(rest);
        },
        None => {},
    }
}

/// Two operands leave less than there was.
pub proof fn lemma_operands_shrink(input: Seq<u8>)
    ensures
        spec_operands(input) matches Some((rest, _)) ==> rest.len() < input.len(),
{
    lemma_operand_shrinks(input);
    match spec_operand(input) {
        Some((rest, _)) => {
            match spec_tag(rest, ',' as u8) {
                Some(rest) => {
                    lemma_operand_shrinks(rest);
                },
                None => {},
            }
        },
        None => {},
    }
}

/// Every line but the empty one leaves less than there was, and the empty
/// one no more.
pub proof fn lemma_lines_shrink(input: Seq<u8>)
    ensures
        spec_instr_94_line(input) matches Some((rest, _)) ==> rest.len() < input.len(),
        spec_instr_88_line(input) matches Some((rest, _)) ==> rest.len() < input.len(),
        spec_comment_line(input) matches Some((rest, _)) ==> rest.len() < input.len(),
        spec_org_line(input) matches Some((rest, _)) ==> rest.len() < input.len(),
        spec_pin_line(input) matches Some((rest, _)) ==> rest.len() < input.len(),
        spec_end_line(input) matches Some((rest, _)) ==> rest.len() < input.len(),
        spec_empty_line(input) matches Some((rest, _)) ==> rest.len() <= input.len(),
{
    let trimmed = spec_space0(input);
    lemma_space0_shrinks(input);
    match spec_opcode(trimmed) {
        Some((rest, _)) => {
            lemma_operands_shrink(rest);
            match spec_tag(rest, '.' as u8) {
                Some(rest) => {
                    match spec_modifier(rest) {
                        Some((rest, _)) => {
                            lemma_operands_shrink(rest);
                        },
                        None => {},
                    }
                },
                None => {},
            }
        },
        None => {},
    }
    match spec_keyword(trimmed, 'o' as u8, 'r' as u8, 'g' as u8) {
        Some(rest) => {
            lemma_number_shrinks(rest);
        },
        None => {},
    }
    match spec_keyword(trimmed, 'p' as u8, 'i' as u8, 'n' as u8) {
        Some(rest) => {
            lemma_number_shrinks(rest);
        },
        None => {},
    }
    match spec_keyword(trimmed, 'e' as u8, 'n' as u8, 'd' as u8) {
        Some(rest) => {
            lemma_number_shrinks(rest);
            lemma_space0_shrinks(rest);
        },
        None => {},
    }
    match spec_tag(trimmed, ';' as u8) {
        Some(rest) => {
            lemma_text_len(rest);
        },
        None => {},
    }
}

/// The text of a line is no longer than the input.
pub proof fn lemma_text_len(input: Seq<u8>)
    ensures
        text_len(input) <= input.len(),
    decreases input.len(),
{
    if input.len() > 0 && input[0] != '\r' as u8 && input[0] != '\n' as u8 {
        lemma_text_len(input.drop_first());
    }
}

/// The text of a line is counted byte by byte.
proof fn lemma_text_len_from(input: Seq<u8>, seen: int)
    requires
        0 <= seen <= input.len(),
        forall|i: int| 0 <= i < seen ==> input[i] != '\r' as u8 && input[i] != '\n' as u8,
    ensures
        text_len(input) == seen + text_len(input.skip(seen)),
    decreases seen,
{
    if seen > 0 {
        lemma_text_len_from(input.drop_first(), seen - 1);
        assert(input.drop_first().skip(seen - 1) =~= input.skip(seen));
    } else {
        assert(input.skip(0) =~= input);
    }
}

/// Consume one given byte.
fn tag<'a>(input: &'a [u8], byte: u8) -> (r: Option<&'a [u8]>)
    ensures
        match spec_tag(input@, byte) {
            Some(rest) => r matches Some(left) && left@ == rest,
            None => r is None,
        },
{
    if input.len() > 0 && input[0] == byte {
        Some(rest_from(input, 1))
    } else {
        None
    }
}

/// Consume a keyword of three letters, given in lower case and read in upper
/// or lower case.
fn keyword<'a>(input: &'a [u8], first: u8, second: u8, third: u8) -> (r: Option<&'a [u8]>)
    ensures
        match spec_keyword(input@, first, second, third) {
            Some(rest) => r matches Some(left) && left@ == rest,
            None => r is None,
        },
{
    if input.len() >= 3 && to_lower(input[0]) == first && to_lower(input[1]) == second && to_lower(
        input[2],
    ) == third {
        Some(rest_from(input, 3))
    } else {
        None
    }
}

/// Parse an operand: an addressing mode and a number.
fn operand<'a>(input: &'a [u8]) -> (r: ParseResult<'a, (AddrMode, i64)>)
    ensures
        parsed(r, input@, spec_operand(input@)),
{
    let Ok((rest, mode)) = addr_mode(space0(input)) else {
        return Err(syntax_failure(input));
    };
    let Ok((rest, value)) = number(rest) else {
        return Err(syntax_failure(input));
    };
    Ok((rest, (mode, value)))
}

/// Parse the two operands of an instruction and the comma between them.
fn operands<'a>(input: &'a [u8]) -> (r: ParseResult<'a, ((AddrMode, i64), (AddrMode, i64))>)
    ensures
        parsed(r, input@, spec_operands(input@)),
{
    let Ok((rest, a)) = operand(input) else {
        return Err(syntax_failure(input));
    };
    let Some(rest) = tag(rest, ',' as u8) else {
        return Err(syntax_failure(input));
    };
    let Ok((rest, b)) = operand(rest) else {
        return Err(syntax_failure(input));
    };
    Ok((rest, (a, b)))
}

/// Parse the content of a line that holds an ICWS '94 instruction.
pub fn instr_94_line<'a>(input: &'a [u8]) -> (r: ParseResult<'a, RelaxedCompleteInstruction>)
    ensures
        parsed(r, input@, spec_instr_94_line(input@)),
{
    let Ok((rest, opcode)) = opcode(space0(input)) else {
        return Err(syntax_failure(input));
    };
    let Some(rest) = tag(rest, '.' as u8) else {
        return Err(syntax_failure(input));
    };
    let Ok((rest, modifier)) = modifier(rest) else {
        return Err(syntax_failure(input));
    };
    let Ok((rest, (a, b))) = operands(rest) else {
        return Err(syntax_failure(input));
    };
    Ok(
        (
            rest,
            RelaxedCompleteInstruction {
                instr: Instruction { opcode, modifier, a_addr_mode: a.0, b_addr_mode: b.0 },
                a_field: a.1,
                b_field: b.1,
            },
        ),
    )
}

/// Parse the content of a line that holds an ICWS '88 instruction.
pub fn instr_88_line<'a>(input: &'a [u8]) -> (r: ParseResult<'a, RelaxedCompleteInstruction>)
    ensures
        parsed(r, input@, spec_instr_88_line(input@)),
{
    let Ok((rest, opcode)) = opcode(space0(input)) else {
        return Err(syntax_failure(input));
    };
    let Ok((rest, (a, b))) = operands(rest) else {
        return Err(syntax_failure(input));
    };
    Ok(
        (
            rest,
            RelaxedCompleteInstruction {
                instr: Instruction {
                    opcode,
                    modifier: default_modifiers(opcode, a.0, b.0),
                    a_addr_mode: a.0,
                    b_addr_mode: b.0,
                },
                a_field: a.1,
                b_field: b.1,
            },
        ),
    )
}

/// Parse the content of a comment line.  Returns the text of the comment.
pub fn comment_line<'a>(input: &'a [u8]) -> (r: ParseResult<'a, &'a [u8]>)
    ensures
        match spec_comment_line(input@) {
            Some((rest, text)) => r matches Ok((left, read)) && left@ == rest && read@ == text,
            None => r == Err::<(&[u8], &[u8]), ParseError>(syntax_error(input@)),
        },
{
    let Some(rest) = tag(space0(input), ';' as u8) else {
        return Err(syntax_failure(input));
    };
    let mut i: usize = 0;
    assert(rest@.skip(0) =~= rest@);
    while i < rest.len() && rest[i] != '\r' as u8 && rest[i] != '\n' as u8
        invariant
            i <= rest@.len(),
            forall|k: int| 0 <= k < i ==> rest@[k] != '\r' as u8 && rest@[k] != '\n' as u8,
        decreases rest@.len() - i,
    {
        i += 1;
    }
    proof {
        lemma_text_len_from(rest@, i as int);
    }
    Ok((rest_from(rest, i), slice_subrange(rest, 0, i)))
}

/// Parse the content of an `ORG` line.
pub fn org_line<'a>(input: &'a [u8]) -> (r: ParseResult<'a, i64>)
    ensures
        parsed(r, input@, spec_org_line(input@)),
{
    let Some(rest) = keyword(space0(input), 'o' as u8, 'r' as u8, 'g' as u8) else {
        return Err(syntax_failure(input));
    };
    match number(rest) {
        Ok(read) => Ok(read),
        Err(_) => Err(syntax_failure(input)),
    }
}

/// Parse the content of a `PIN` line.
pub fn pin_line<'a>(input: &'a [u8]) -> (r: ParseResult<'a, i64>)
    ensures
        parsed(r, input@, spec_pin_line(input@)),
{
    let Some(rest) = keyword(space0(input), 'p' as u8, 'i' as u8, 'n' as u8) else {
        return Err(syntax_failure(input));
    };
    match number(rest) {
        Ok(read) => Ok(read),
        Err(_) => Err(syntax_failure(input)),
    }
}

/// Parse the content of an `END` line, which may end the input.
pub fn end_line<'a>(input: &'a [u8]) -> (r: ParseResult<'a, Option<i64>>)
    ensures
        parsed(r, input@, spec_end_line(input@)),
{
    let Some(rest) = keyword(space0(input), 'e' as u8, 'n' as u8, 'd' as u8) else {
        return Err(syntax_failure(input));
    };
    match number(rest) {
        Ok((rest, value)) => Ok((rest, Some(value))),
        Err(_) => Ok((space0(rest), None)),
    }
}

/// Match the content of an empty line.  This consumes spaces and tabs only,
/// and succeeds on every input.
pub fn empty_line<'a>(input: &'a [u8]) -> (r: ParseResult<'a, ()>)
    ensures
        parsed(r, input@, spec_empty_line(input@)),
{
    Ok((space0(input), ()))
}

} // verus!
