//! The primitives of the loadfile grammar: line ends, numbers, opcodes,
//! modifiers and addressing modes.
//!
//! A parser takes the input as bytes and returns what is left of it together
//! with what it read.  The grammar of each primitive is a function that
//! begins with `spec_`; it returns `None` where the input does not begin with
//! the primitive.

use crate::redcode::{AddrMode, Modifier, Opcode};
use vstd::prelude::*;
use vstd::slice::slice_subrange;

verus! {

/// What went wrong while parsing.
#[derive(Copy, Clone, Debug, PartialEq, Eq, Hash, Structural)]
pub enum ParseErrorKind {
    /// The input does not begin with what the grammar expects.
    Syntax,
    /// The warrior has ended, but more than white space follows.
    TrailingContent,
    /// The warrior has no instruction.
    EmptyWarrior,
    /// The input ends before an instruction.
    MissingInstruction,
    /// A comment or a pseudo-op stands where an instruction is expected.
    UnexpectedStatement,
}

/// An error of a parser: what went wrong, and how many bytes of the input were
/// left where it went wrong.
#[derive(Copy, Clone, Debug, PartialEq, Eq, Hash, Structural)]
pub struct ParseError {
    /// What went wrong.
    pub kind: ParseErrorKind,
    /// The number of bytes from the place of the error to the end of the
    /// input.
    pub remaining: usize,
}

/// The result of a parser: what is left of the input and what was read.
pub type ParseResult<'a, T> = Result<(&'a [u8], T), ParseError>;

/// The error of an input that does not begin with what the grammar expects.
pub open spec fn syntax_error(input: Seq<u8>) -> ParseError {
    ParseError { kind: ParseErrorKind::Syntax, remaining: input.len() as usize }
}

/// Whether a parser returned what the grammar says: the rest and the value
/// where the grammar gives them, else a syntax error at the start of the
/// input.
pub open spec fn parsed<T>(
    result: ParseResult<T>,
    input: Seq<u8>,
    grammar: Option<(Seq<u8>, T)>,
) -> bool {
    match grammar {
        Some((rest, value)) => result matches Ok((left, read)) && left@ == rest && read == value,
        None => result == Err::<(&[u8], T), ParseError>(syntax_error(input)),
    }
}

/// A space or a tab.
pub open spec fn is_space(byte: u8) -> bool {
    byte == ' ' as u8 || byte == '\t' as u8
}

/// A decimal digit.
pub open spec fn is_digit(byte: u8) -> bool {
    '0' as u8 <= byte <= '9' as u8
}

/// An ASCII letter as a lower case letter; any other byte as it is.
pub open spec fn lower(byte: u8) -> u8 {
    if 'A' as u8 <= byte <= 'Z' as u8 {
        (byte + 32) as u8
    } else {
        byte
    }
}

/// The input without the spaces and tabs that it begins with.
pub open spec fn spec_space0(input: Seq<u8>) -> Seq<u8>
    decreases input.len(),
{
    if input.len() > 0 && is_space(input[0]) {
        spec_space0(input.drop_first())
    } else {
        input
    }
}

/// The input after a line ending: a line feed, or a carriage return and a
/// line feed.
pub open spec fn spec_eol(input: Seq<u8>) -> Option<(Seq<u8>, ())> {
    if input.len() >= 1 && input[0] == '\n' as u8 {
        Some((input.skip(1), ()))
    } else if input.len() >= 2 && input[0] == '\r' as u8 && input[1] == '\n' as u8 {
        Some((input.skip(2), ()))
    } else {
        None
    }
}

/// The number of decimal digits that the input begins with.
pub open spec fn digit_count(input: Seq<u8>) -> nat
    decreases input.len(),
{
    if input.len() > 0 && is_digit(input[0]) {
        1 + digit_count(input.drop_first())
    } else {
        0
    }
}

/// The number that a sequence of decimal digits stands for.
pub open spec fn digits_value(digits: Seq<u8>) -> nat
    decreases digits.len(),
{
    if digits.len() == 0 {
        0
    } else {
        digits_value(digits.drop_last()) * 10 + (digits.last() - '0' as u8) as nat
    }
}

/// A number without white space around it: at most one sign, `+` or `-`, and
/// at least one decimal digit behind it.  All digits that follow belong to
/// the number.  A number that does not fit 64 bits with a sign is none.
pub open spec fn spec_only_number(input: Seq<u8>) -> Option<(Seq<u8>, i64)> {
    let negative = input.len() > 0 && input[0] == '-' as u8;
    let signed = input.len() > 0 && (input[0] == '-' as u8 || input[0] == '+' as u8);
    let body = if signed {
        input.skip(1)
    } else {
        input
    };
    let count = digit_count(body);
    let magnitude = digits_value(body.take(count as int));
    let value = if negative {
        -magnitude
    } else {
        magnitude as int
    };
    if count == 0 || value < i64::MIN || value > i64::MAX {
        None
    } else {
        Some((body.skip(count as int), value as i64))
    }
}

/// A number with any spaces and tabs before and behind it.
pub open spec fn spec_number(input: Seq<u8>) -> Option<(Seq<u8>, i64)> {
    match spec_only_number(spec_space0(input)) {
        Some((rest, value)) => Some((spec_space0(rest), value)),
        None => None,
    }
}

/// The opcode that three lower case letters name.
pub open spec fn opcode_named(first: u8, second: u8, third: u8) -> Option<Opcode> {
    if first == 'd' as u8 && second == 'a' as u8 && third == 't' as u8 {
        Some(Opcode::Dat)
    } else if first == 'm' as u8 && second == 'o' as u8 && third == 'v' as u8 {
        Some(Opcode::Mov)
    } else if first == 'a' as u8 && second == 'd' as u8 && third == 'd' as u8 {
        Some(Opcode::Add)
    } else if first == 's' as u8 && second == 'u' as u8 && third == 'b' as u8 {
        Some(Opcode::Sub)
    } else if first == 'm' as u8 && second == 'u' as u8 && third == 'l' as u8 {
        Some(Opcode::Mul)
    } else if first == 'd' as u8 && second == 'i' as u8 && third == 'v' as u8 {
        Some(Opcode::Div)
    } else if first == 'm' as u8 && second == 'o' as u8 && third == 'd' as u8 {
        Some(Opcode::Mod)
    } else if first == 'j' as u8 && second == 'm' as u8 && third == 'p' as u8 {
        Some(Opcode::Jmp)
    } else if first == 'j' as u8 && second == 'm' as u8 && third == 'z' as u8 {
        Some(Opcode::Jmz)
    } else if first == 'j' as u8 && second == 'm' as u8 && third == 'n' as u8 {
        Some(Opcode::Jmn)
    } else if first == 'd' as u8 && second == 'j' as u8 && third == 'n' as u8 {
        Some(Opcode::Djn)
    } else if first == 's' as u8 && second == 'p' as u8 && third == 'l' as u8 {
        Some(Opcode::Spl)
    } else if first == 's' as u8 && second == 'l' as u8 && third == 't' as u8 {
        Some(Opcode::Slt)
    } else if first == 'c' as u8 && second == 'm' as u8 && third == 'p' as u8 {
        Some(Opcode::Cmp)
    } else if first == 's' as u8 && second == 'e' as u8 && third == 'q' as u8 {
        Some(Opcode::SeqOp)
    } else if first == 's' as u8 && second == 'n' as u8 && third == 'e' as u8 {
        Some(Opcode::Sne)
    } else if first == 'n' as u8 && second == 'o' as u8 && third == 'p' as u8 {
        Some(Opcode::Nop)
    } else if first == 'l' as u8 && second == 'd' as u8 && third == 'p' as u8 {
        Some(Opcode::Ldp)
    } else if first == 's' as u8 && second == 't' as u8 && third == 'p' as u8 {
        Some(Opcode::Stp)
    } else {
        None
    }
}

/// An opcode: its three letters, in upper or lower case.
pub open spec fn spec_opcode(input: Seq<u8>) -> Option<(Seq<u8>, Opcode)> {
    if input.len() < 3 {
        None
    } else {
        match opcode_named(lower(input[0]), lower(input[1]), lower(input[2])) {
            Some(opcode) => Some((input.skip(3), opcode)),
            None => None,
        }
    }
}

/// An addressing mode: one of the characters `#$*@{<}>`.
pub open spec fn spec_addr_mode(input: Seq<u8>) -> Option<(Seq<u8>, AddrMode)> {
    if input.len() == 0 {
        None
    } else {
        let mode = if input[0] == '#' as u8 {
            Some(AddrMode::Immediate)
        } else if input[0] == '$' as u8 {
            Some(AddrMode::Direct)
        } else if input[0] == '*' as u8 {
            Some(AddrMode::IndirectA)
        } else if input[0] == '@' as u8 {
            Some(AddrMode::IndirectB)
        } else if input[0] == '{' as u8 {
            Some(AddrMode::PredecA)
        } else if input[0] == '<' as u8 {
            Some(AddrMode::PredecB)
        } else if input[0] == '}' as u8 {
            Some(AddrMode::PostincA)
        } else if input[0] == '>' as u8 {
            Some(AddrMode::PostincB)
        } else {
            None
        };
        match mode {
            Some(mode) => Some((input.skip(1), mode)),
            None => None,
        }
    }
}

/// A modifier: its letters, in upper or lower case.  Of two modifiers that
/// the input begins with, the longer one is meant.
pub open spec fn spec_modifier(input: Seq<u8>) -> Option<(Seq<u8>, Modifier)> {
    if input.len() >= 2 && lower(input[0]) == 'a' as u8 && lower(input[1]) == 'b' as u8 {
        Some((input.skip(2), Modifier::AB))
    } else if input.len() >= 2 && lower(input[0]) == 'b' as u8 && lower(input[1]) == 'a' as u8 {
        Some((input.skip(2), Modifier::BA))
    } else if input.len() >= 1 && lower(input[0]) == 'a' as u8 {
        Some((input.skip(1), Modifier::A))
    } else if input.len() >= 1 && lower(input[0]) == 'b' as u8 {
        Some((input.skip(1), Modifier::B))
    } else if input.len() >= 1 && lower(input[0]) == 'x' as u8 {
        Some((input.skip(1), Modifier::X))
    } else if input.len() >= 1 && lower(input[0]) == 'f' as u8 {
        Some((input.skip(1), Modifier::F))
    } else if input.len() >= 1 && lower(input[0]) == 'i' as u8 {
        Some((input.skip(1), Modifier::I))
    } else {
        None
    }
}

/// The input begins with the digits that are counted, and with no more.
pub proof fn lemma_digit_count_bounds(input: Seq<u8>)
    ensures
        digit_count(input) <= input.len(),
        forall|i: int| 0 <= i < digit_count(input) ==> is_digit(input[i]),
        digit_count(input) < input.len() ==> !is_digit(input[digit_count(input) as int]),
    decreases input.len(),
{
    if input.len() > 0 && is_digit(input[0]) {
        let rest = input.drop_first();
        lemma_digit_count_bounds(rest);
        assert forall|i: int| 0 <= i < digit_count(input) implies is_digit(input[i]) by {
            if i > 0 {
                assert(input[i] == rest[i - 1]);
            }
        }
        if digit_count(input) < input.len() {
            assert(input[digit_count(input) as int] == rest[digit_count(rest) as int]);
        }
    }
}

/// The digits that the input begins with are counted one by one.
pub proof fn lemma_digit_count(input: Seq<u8>, seen: int)
    requires
        0 <= seen <= input.len(),
        forall|i: int| 0 <= i < seen ==> is_digit(input[i]),
    ensures
        digit_count(input) == seen + digit_count(input.skip(seen)),
    decreases seen,
{
    if seen > 0 {
        lemma_digit_count(input.drop_first(), seen - 1);
        assert(input.drop_first().skip(seen - 1) =~= input.skip(seen));
    } else {
        assert(input.skip(0) =~= input);
    }
}

/// The value of a sequence of digits is at least the value of any of its
/// beginnings.
pub proof fn lemma_digits_value_grows(digits: Seq<u8>, shorter: int)
    requires
        0 <= shorter <= digits.len(),
    ensures
        digits_value(digits.take(shorter)) <= digits_value(digits),
    decreases digits.len(),
{
    if shorter < digits.len() {
        lemma_digits_value_grows(digits.drop_last(), shorter);
        assert(digits.drop_last().take(shorter) =~= digits.take(shorter));
    } else {
        assert(digits.take(shorter) =~= digits);
    }
}

/// The error that every primitive reports where the input does not begin with
/// it.
pub fn syntax_failure(input: &[u8]) -> (e: ParseError)
    ensures
        e == syntax_error(input@),
{
    ParseError { kind: ParseErrorKind::Syntax, remaining: input.len() }
}

/// The rest of the input from `from` on.
pub fn rest_from<'a>(input: &'a [u8], from: usize) -> (rest: &'a [u8])
    requires
        from <= input@.len(),
    ensures
        rest@ == input@.skip(from as int),
{
    slice_subrange(input, from, input.len())
}

/// An ASCII letter as a lower case letter; any other byte as it is.
pub fn to_lower(byte: u8) -> (r: u8)
    ensures
        r == lower(byte),
{
    if 'A' as u8 <= byte && byte <= 'Z' as u8 {
        byte + 32
    } else {
        byte
    }
}

/// Skip the spaces and tabs that the input begins with.  This never fails.
pub fn space0<'a>(input: &'a [u8]) -> (rest: &'a [u8])
    ensures
        rest@ == spec_space0(input@),
{
    let mut i: usize = 0;
    assert(input@.skip(0) =~= input@);
    while i < input.len() && (input[i] == ' ' as u8 || input[i] == '\t' as u8)
        invariant
            i <= input@.len(),
            spec_space0(input@) == spec_space0(input@.skip(i as int)),
        decreases input@.len() - i,
    {
        assert(input@.skip(i as int).drop_first() =~= input@.skip(i + 1));
        i += 1;
    }
    rest_from(input, i)
}

/// Parse and consume a line ending.
pub fn eol<'a>(input: &'a [u8]) -> (r: ParseResult<'a, ()>)
    ensures
        parsed(r, input@, spec_eol(input@)),
{
    if input.len() >= 1 && input[0] == '\n' as u8 {
        Ok((rest_from(input, 1), ()))
    } else if input.len() >= 2 && input[0] == '\r' as u8 && input[1] == '\n' as u8 {
        Ok((rest_from(input, 2), ()))
    } else {
        Err(syntax_failure(input))
    }
}

/// Parse and consume an integer, with at most one sign before it and any
/// spaces and tabs around it.
pub fn number<'a>(input: &'a [u8]) -> (r: ParseResult<'a, i64>)
    ensures
        parsed(r, input@, spec_number(input@)),
{
    match only_number(space0(input)) {
        Ok((rest, value)) => Ok((space0(rest), value)),
        Err(_) => Err(syntax_failure(input)),
    }
}

/// Parse a number and its sign, without white space.
#[verifier::loop_isolation(false)]
pub fn only_number<'a>(input: &'a [u8]) -> (r: ParseResult<'a, i64>)
    ensures
        parsed(r, input@, spec_only_number(input@)),
{
    let negative = input.len() > 0 && input[0] == '-' as u8;
    let signed = input.len() > 0 && (input[0] == '-' as u8 || input[0] == '+' as u8);
    let body = if signed {
        rest_from(input, 1)
    } else {
        assert(input@.skip(0) =~= input@);
        rest_from(input, 0)
    };
    // The largest magnitude: 2^63 behind a minus sign, else 2^63 - 1.
    let limit: u64 = if negative {
        0x8000_0000_0000_0000
    } else {
        0x7fff_ffff_ffff_ffff
    };
    let mut magnitude: u64 = 0;
    let mut i: usize = 0;
    while i < body.len() && '0' as u8 <= body[i] && body[i] <= '9' as u8
        invariant
            i <= body@.len(),
            forall|k: int| 0 <= k < i ==> is_digit(body@[k]),
            magnitude == digits_value(body@.take(i as int)),
            magnitude <= limit,
            0x7fff_ffff_ffff_ffff <= limit <= 0x8000_0000_0000_0000,
        decreases body@.len() - i,
    {
        let digit: u64 = (body[i] - '0' as u8) as u64;
        proof {
            assert(body@.take(i + 1).drop_last() =~= body@.take(i as int));
            assert(body@.take(i + 1).last() == body@[i as int]);
        }
        if magnitude > (limit - digit) / 10 {
            proof {
                // The digits read so far exceed the limit, and so do all the
                // digits of the number.
                let ghost longer = body@.take(i + 1);
                assert(digits_value(longer) > limit);
                assert forall|k: int| 0 <= k < i + 1 implies is_digit(body@[k]) by {}
                lemma_digit_count(body@, i + 1);
                lemma_digit_count_bounds(body@);
                let count = digit_count(body@);
                lemma_digits_value_grows(body@.take(count as int), i + 1);
                assert(body@.take(count as int).take(i + 1) =~= longer);
            }
            return Err(syntax_failure(input));
        }
        magnitude = magnitude * 10 + digit;
        i += 1;
    }
    proof {
        lemma_digit_count(body@, i as int);
        assert(digit_count(body@.skip(i as int)) == 0);
    }
    if i == 0 {
        return Err(syntax_failure(input));
    }
    let value: i64 = if negative {
        if magnitude == 0x8000_0000_0000_0000 {
            i64::MIN
        } else {
            -(magnitude as i64)
        }
    } else {
        magnitude as i64
    };
    Ok((rest_from(body, i), value))
}

/// Consume exactly one opcode, without white space.
pub fn opcode<'a>(input: &'a [u8]) -> (r: ParseResult<'a, Opcode>)
    ensures
        parsed(r, input@, spec_opcode(input@)),
{
    if input.len() < 3 {
        return Err(syntax_failure(input));
    }
    let first = to_lower(input[0]);
    let second = to_lower(input[1]);
    let third = to_lower(input[2]);
    let named = if first == 'd' as u8 && second == 'a' as u8 && third == 't' as u8 {
        Opcode::Dat
    } else if first == 'm' as u8 && second == 'o' as u8 && third == 'v' as u8 {
        Opcode::Mov
    } else if first == 'a' as u8 && second == 'd' as u8 && third == 'd' as u8 {
        Opcode::Add
    } else if first == 's' as u8 && second == 'u' as u8 && third == 'b' as u8 {
        Opcode::Sub
    } else if first == 'm' as u8 && second == 'u' as u8 && third == 'l' as u8 {
        Opcode::Mul
    } else if first == 'd' as u8 && second == 'i' as u8 && third == 'v' as u8 {
        Opcode::Div
    } else if first == 'm' as u8 && second == 'o' as u8 && third == 'd' as u8 {
        Opcode::Mod
    } else if first == 'j' as u8 && second == 'm' as u8 && third == 'p' as u8 {
        Opcode::Jmp
    } else if first == 'j' as u8 && second == 'm' as u8 && third == 'z' as u8 {
        Opcode::Jmz
    } else if first == 'j' as u8 && second == 'm' as u8 && third == 'n' as u8 {
        Opcode::Jmn
    } else if first == 'd' as u8 && second == 'j' as u8 && third == 'n' as u8 {
        Opcode::Djn
    } else if first == 's' as u8 && second == 'p' as u8 && third == 'l' as u8 {
        Opcode::Spl
    } else if first == 's' as u8 && second == 'l' as u8 && third == 't' as u8 {
        Opcode::Slt
    } else if first == 'c' as u8 && second == 'm' as u8 && third == 'p' as u8 {
        Opcode::Cmp
    } else if first == 's' as u8 && second == 'e' as u8 && third == 'q' as u8 {
        Opcode::SeqOp
    } else if first == 's' as u8 && second == 'n' as u8 && third == 'e' as u8 {
        Opcode::Sne
    } else if first == 'n' as u8 && second == 'o' as u8 && third == 'p' as u8 {
        Opcode::Nop
    } else if first == 'l' as u8 && second == 'd' as u8 && third == 'p' as u8 {
        Opcode::Ldp
    } else if first == 's' as u8 && second == 't' as u8 && third == 'p' as u8 {
        Opcode::Stp
    } else {
        return Err(syntax_failure(input));
    };
    Ok((rest_from(input, 3), named))
}

/// Consume exactly one addressing mode, without white space.
pub fn addr_mode<'a>(input: &'a [u8]) -> (r: ParseResult<'a, AddrMode>)
    ensures
        parsed(r, input@, spec_addr_mode(input@)),
{
    if input.len() == 0 {
        return Err(syntax_failure(input));
    }
    let first = input[0];
    let mode = if first == '#' as u8 {
        AddrMode::Immediate
    } else if first == '$' as u8 {
        AddrMode::Direct
    } else if first == '*' as u8 {
        AddrMode::IndirectA
    } else if first == '@' as u8 {
        AddrMode::IndirectB
    } else if first == '{' as u8 {
        AddrMode::PredecA
    } else if first == '<' as u8 {
        AddrMode::PredecB
    } else if first == '}' as u8 {
        AddrMode::PostincA
    } else if first == '>' as u8 {
        AddrMode::PostincB
    } else {
        return Err(syntax_failure(input));
    };
    Ok((rest_from(input, 1), mode))
}

/// Consume exactly one modifier, without white space.
pub fn modifier<'a>(input: &'a [u8]) -> (r: ParseResult<'a, Modifier>)
    ensures
        parsed(r, input@, spec_modifier(input@)),
{
    if input.len() == 0 {
        return Err(syntax_failure(input));
    }
    let first = to_lower(input[0]);
    if input.len() >= 2 {
        let second = to_lower(input[1]);
        if first == 'a' as u8 && second == 'b' as u8 {
            return Ok((rest_from(input, 2), Modifier::AB));
        }
        if first == 'b' as u8 && second == 'a' as u8 {
            return Ok((rest_from(input, 2), Modifier::BA));
        }
    }
    let named = if first == 'a' as u8 {
        Modifier::A
    } else if first == 'b' as u8 {
        Modifier::B
    } else if first == 'x' as u8 {
        Modifier::X
    } else if first == 'f' as u8 {
        Modifier::F
    } else if first == 'i' as u8 {
        Modifier::I
    } else {
        return Err(syntax_failure(input));
    };
    Ok((rest_from(input, 1), named))
}

} // verus!
