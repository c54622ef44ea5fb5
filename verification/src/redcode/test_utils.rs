//! The lists of all opcodes, modifiers and addressing modes, and of all the
//! instructions that can be made of them.

use crate::redcode::{AddrMode, Instruction, Modifier, Opcode};
use vstd::prelude::*;

verus! {

/// All opcodes of ICWS '88, ICWS '94 and the pMARS extensions.
pub const OPCODES: [Opcode; 19] = [
    Opcode::Dat,
    Opcode::Mov,
    Opcode::Add,
    Opcode::Sub,
    Opcode::Mul,
    Opcode::Div,
    Opcode::Mod,
    Opcode::Jmp,
    Opcode::Jmz,
    Opcode::Jmn,
    Opcode::Djn,
    Opcode::Spl,
    Opcode::Slt,
    Opcode::Cmp,
    Opcode::SeqOp,
    Opcode::Sne,
    Opcode::Nop,
    Opcode::Ldp,
    Opcode::Stp,
];

/// All modifiers.
pub const MODIFIERS: [Modifier; 7] = [
    Modifier::A,
    Modifier::B,
    Modifier::AB,
    Modifier::BA,
    Modifier::F,
    Modifier::X,
    Modifier::I,
];

/// All addressing modes.
pub const ADDR_MODES: [AddrMode; 8] = [
    AddrMode::Immediate,
    AddrMode::Direct,
    AddrMode::IndirectA,
    AddrMode::IndirectB,
    AddrMode::PredecA,
    AddrMode::PredecB,
    AddrMode::PostincA,
    AddrMode::PostincB,
];

/// The number of instructions: 19 opcodes, 7 modifiers, and 8 modes for each
/// of the two operands.
pub const INSTRUCTIONS: usize = 8512;

/// The place of an instruction in the list of all instructions.  The list
/// runs through the opcodes; for each opcode through the modifiers; for each
/// modifier through the A-modes; and for each A-mode through the B-modes.
pub open spec fn ordinal(instr: Instruction) -> int {
    ((instr.opcode.code() * 7 + instr.modifier.code()) * 8 + instr.a_addr_mode.code()) * 8
        + instr.b_addr_mode.code()
}

/// Every instruction has a place in the list, and no two have the same.
pub proof fn lemma_ordinal(first: Instruction, second: Instruction)
    ensures
        0 <= ordinal(first) < INSTRUCTIONS,
        first != second ==> ordinal(first) != ordinal(second),
{
    lemma_parts(first);
    lemma_parts(second);
}

/// The instruction, if any, whose parts have the given numbers.
pub open spec fn with_codes(opcode: int, modifier: int, a_mode: int, b_mode: int) -> Option<
    Instruction,
> {
    match (
        Opcode::from_code(opcode as u8),
        Modifier::from_code(modifier as u8),
        AddrMode::from_code(a_mode as u8),
        AddrMode::from_code(b_mode as u8),
    ) {
        (Some(opcode), Some(modifier), Some(a_addr_mode), Some(b_addr_mode)) => Some(
            Instruction { opcode, modifier, a_addr_mode, b_addr_mode },
        ),
        _ => None,
    }
}

/// An instruction is found again from the numbers of its parts, which are
/// as small as the lists of the parts are long.
proof fn lemma_parts(instr: Instruction)
    ensures
        instr.opcode.code() < 19,
        instr.modifier.code() < 7,
        instr.a_addr_mode.code() < 8,
        instr.b_addr_mode.code() < 8,
        with_codes(
            instr.opcode.code() as int,
            instr.modifier.code() as int,
            instr.a_addr_mode.code() as int,
            instr.b_addr_mode.code() as int,
        ) == Some(instr),
        ordinal(instr) / 448 == instr.opcode.code(),
        ordinal(instr) / 64 % 7 == instr.modifier.code(),
        ordinal(instr) / 8 % 8 == instr.a_addr_mode.code(),
        ordinal(instr) % 8 == instr.b_addr_mode.code(),
{
}

/// Every instruction that can be made of the opcodes, modifiers and
/// addressing modes, each once.
pub fn all_instructions() -> (r: Vec<Instruction>)
    ensures
        r@.len() == INSTRUCTIONS,
        forall|instr: Instruction| r@[#[trigger] ordinal(instr)] == instr,
{
    let mut all: Vec<Instruction> = Vec::new();
    let mut place: usize = 0;
    while place < INSTRUCTIONS
        invariant
            place <= INSTRUCTIONS,
            all@.len() == place,
            forall|k: int|
                0 <= k < place ==> Some(#[trigger] all@[k]) == with_codes(
                    k / 448,
                    k / 64 % 7,
                    k / 8 % 8,
                    k % 8,
                ),
        decreases INSTRUCTIONS - place,
    {
        let opcode = Opcode::from_u8((place / 448) as u8).unwrap();
        let modifier = Modifier::from_u8((place / 64 % 7) as u8).unwrap();
        let a_addr_mode = AddrMode::from_u8((place / 8 % 8) as u8).unwrap();
        let b_addr_mode = AddrMode::from_u8((place % 8) as u8).unwrap();
        all.push(Instruction { opcode, modifier, a_addr_mode, b_addr_mode });
        place += 1;
    }
    assert forall|instr: Instruction| all@[#[trigger] ordinal(instr)] == instr by {
        lemma_parts(instr);
    }
    all
}

} // verus!
