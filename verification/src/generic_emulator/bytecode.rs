//! The bytecode of the generic emulator: one identifier per instruction.
//!
//! Opcode, modifier, A-mode and B-mode take one byte each of the identifier,
//! from the most significant byte down.

use crate::redcode::{AddrMode, Instruction, Modifier, Opcode};
use vstd::prelude::*;

verus! {

/// The identifier of an instruction.
pub open spec fn spec_encode(instr: Instruction) -> u32 {
    (instr.opcode.code() * 0x100_0000 + instr.modifier.code() * 0x1_0000
        + instr.a_addr_mode.code() * 0x100 + instr.b_addr_mode.code()) as u32
}

/// The instruction that an identifier stands for, if each of its bytes stands
/// for a part of an instruction.
pub open spec fn spec_decode(bytecode: u32) -> Option<Instruction> {
    match (
        Opcode::from_code((bytecode / 0x100_0000) as u8),
        Modifier::from_code((bytecode / 0x1_0000 % 0x100) as u8),
        AddrMode::from_code((bytecode / 0x100 % 0x100) as u8),
        AddrMode::from_code((bytecode % 0x100) as u8),
    ) {
        (Some(opcode), Some(modifier), Some(a_addr_mode), Some(b_addr_mode)) => Some(
            Instruction { opcode, modifier, a_addr_mode, b_addr_mode },
        ),
        _ => None,
    }
}

/// Encode an instruction as its bytecode identifier.
pub fn encode(instr: Instruction) -> (r: u32)
    ensures
        r == spec_encode(instr),
{
    let op = instr.opcode.to_u8().unwrap();
    let modifier = instr.modifier.to_u8().unwrap();
    let a_mode = instr.a_addr_mode.to_u8().unwrap();
    let b_mode = instr.b_addr_mode.to_u8().unwrap();
    (op as u32) * 0x100_0000 + (modifier as u32) * 0x1_0000 + (a_mode as u32) * 0x100 + (
    b_mode as u32)
}

/// Decode a bytecode identifier to the instruction it stands for.
///
/// Returns `None` if the identifier stands for no instruction.
pub fn decode(bytecode: u32) -> (r: Option<Instruction>)
    ensures
        r == spec_decode(bytecode),
{
    let op_part = (bytecode / 0x100_0000) as u8;
    let modifier_part = (bytecode / 0x1_0000 % 0x100) as u8;
    let a_mode_part = (bytecode / 0x100 % 0x100) as u8;
    let b_mode_part = (bytecode % 0x100) as u8;
    Some(
        Instruction {
            opcode: Opcode::from_u8(op_part)?,
            modifier: Modifier::from_u8(modifier_part)?,
            a_addr_mode: AddrMode::from_u8(a_mode_part)?,
            b_addr_mode: AddrMode::from_u8(b_mode_part)?,
        },
    )
}

/// Four bytes, put together from the most significant down, can be taken
/// apart again.
proof fn lemma_bytes(first: int, second: int, third: int, fourth: int)
    requires
        0 <= first < 0x100,
        0 <= second < 0x100,
        0 <= third < 0x100,
        0 <= fourth < 0x100,
    ensures
        ({
            let word = first * 0x100_0000 + second * 0x1_0000 + third * 0x100 + fourth;
            &&& 0 <= word <= u32::MAX
            &&& word / 0x100_0000 == first
            &&& word / 0x1_0000 % 0x100 == second
            &&& word / 0x100 % 0x100 == third
            &&& word % 0x100 == fourth
        }),
{
}

/// A word is its four bytes put together.
proof fn lemma_word(word: int)
    requires
        0 <= word <= u32::MAX,
    ensures
        word == (word / 0x100_0000) * 0x100_0000 + (word / 0x1_0000 % 0x100) * 0x1_0000 + (word
            / 0x100 % 0x100) * 0x100 + word % 0x100,
        0 <= word / 0x100_0000 < 0x100,
{
}

/// Every part of an instruction is found again from its number.
proof fn lemma_codes(instr: Instruction)
    ensures
        Opcode::from_code(instr.opcode.code()) == Some(instr.opcode),
        Modifier::from_code(instr.modifier.code()) == Some(instr.modifier),
        AddrMode::from_code(instr.a_addr_mode.code()) == Some(instr.a_addr_mode),
        AddrMode::from_code(instr.b_addr_mode.code()) == Some(instr.b_addr_mode),
        instr.opcode.code() < 19,
        instr.modifier.code() < 7,
        instr.a_addr_mode.code() < 8,
        instr.b_addr_mode.code() < 8,
{
}

/// A number that stands for a part of an instruction is the number of that
/// part.
proof fn lemma_from_code(n: u8)
    ensures
        Opcode::from_code(n) matches Some(opcode) ==> opcode.code() == n,
        Modifier::from_code(n) matches Some(modifier) ==> modifier.code() == n,
        AddrMode::from_code(n) matches Some(mode) ==> mode.code() == n,
{
}

/// Decoding the identifier of an instruction gives the instruction back.
pub proof fn lemma_decode_encode(instr: Instruction)
    ensures
        spec_decode(spec_encode(instr)) == Some(instr),
{
    lemma_codes(instr);
    lemma_bytes(
        instr.opcode.code() as int,
        instr.modifier.code() as int,
        instr.a_addr_mode.code() as int,
        instr.b_addr_mode.code() as int,
    );
}

/// Two different instructions have different identifiers.
pub proof fn lemma_encode_injective(first: Instruction, second: Instruction)
    requires
        first != second,
    ensures
        spec_encode(first) != spec_encode(second),
{
    lemma_decode_encode(first);
    lemma_decode_encode(second);
}

/// An identifier that decodes to an instruction is the identifier of that
/// instruction, and of no other.
pub proof fn lemma_encode_decode(bytecode: u32)
    requires
        spec_decode(bytecode) is Some,
    ensures
        spec_encode(spec_decode(bytecode)->0) == bytecode,
{
    lemma_word(bytecode as int);
    lemma_from_code((bytecode / 0x100_0000) as u8);
    lemma_from_code((bytecode / 0x1_0000 % 0x100) as u8);
    lemma_from_code((bytecode / 0x100 % 0x100) as u8);
    lemma_from_code((bytecode % 0x100) as u8);
}

} // verus!
