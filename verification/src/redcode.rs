//! The Redcode instruction model: opcodes, modifiers, addressing modes, and
//! the instructions and warriors built from them.
//!
//! Covers the ICWS '88 and '94 standards and the pMARS extensions.

use vstd::prelude::*;
use vstd::string::*;

pub mod redaddr;
pub mod test_utils;

pub use redaddr::RedAddr;

verus! {

/// The number of cells in a core of the standard size.
pub const CORESIZE: usize = 8000;

/// Fields hold values that are positive offsets from their own core address.
/// They are stored and used modulo the core size.
pub type FieldValue = u32;

/// The operation an instruction performs.
#[derive(Copy, Clone, Debug, PartialEq, Eq, Hash, Structural)]
pub enum Opcode {
    /// Remove the current task from the warrior's task queue.
    Dat,
    /// Replace the B-target with the A-value and queue the next instruction.
    Mov,
    /// Replace the B-target with the sum of the A- and B-values.
    Add,
    /// Replace the B-target with the B-value minus the A-value.
    Sub,
    /// Replace the B-target with the product of the A- and B-values.
    Mul,
    /// Replace the B-target with the B-value divided by the A-value.  A part
    /// whose divisor is zero is left alone, and the next instruction is queued
    /// only if no division by zero was attempted.
    Div,
    /// Replace the B-target with the remainder of the B-value divided by the
    /// A-value, with the same treatment of zero divisors as `Div`.
    Mod,
    /// Queue the A-pointer.
    Jmp,
    /// Queue the A-pointer if the B-value is zero, else the next instruction.
    Jmz,
    /// Queue the A-pointer if any part of the B-value is not zero, else the
    /// next instruction.
    Jmn,
    /// Decrement the B-value and the B-target, then queue the A-pointer if the
    /// decremented B-value is not zero, else the next instruction.
    Djn,
    /// Queue the next instruction and then the A-pointer.
    Spl,
    /// Skip the next instruction if every part of the A-value is less than the
    /// matching part of the B-value.
    Slt,
    /// Skip the next instruction if the A-value equals the B-value.
    Cmp,
    /// Skip the next instruction if the A-value equals the B-value.
    SeqOp,
    /// Skip the next instruction if the A-value differs from the B-value.
    Sne,
    /// Queue the next instruction and do nothing else.
    Nop,
    /// Load a value from PSPACE into the B-target.
    Ldp,
    /// Store the A-value into PSPACE.
    Stp,
}

/// Selects which fields of the operands take part in an operation and which
/// fields of the B-target are written.
#[derive(Copy, Clone, Debug, PartialEq, Eq, Hash, Structural)]
pub enum Modifier {
    /// A-number of the A-instruction to the A-number of the B-instruction.
    A,
    /// B-number of the A-instruction to the B-number of the B-instruction.
    B,
    /// A-number of the A-instruction to the B-number of the B-instruction.
    AB,
    /// B-number of the A-instruction to the A-number of the B-instruction.
    BA,
    /// Both numbers, A to A and B to B.
    F,
    /// Both numbers, A to B and B to A.
    X,
    /// The whole instruction.
    I,
}

/// The addressing mode applied to one field of an instruction.
#[derive(Copy, Clone, Debug, PartialEq, Eq, Hash, Structural)]
pub enum AddrMode {
    /// `#`: the operand is data; the pointer is the instruction itself.
    Immediate,
    /// `$`: the field is an offset from the program counter.
    Direct,
    /// `*`: the field points at a cell whose A-number is the second offset.
    IndirectA,
    /// `@`: the field points at a cell whose B-number is the second offset.
    IndirectB,
    /// `{`: as `*`, with the A-number decremented before use.
    PredecA,
    /// `<`: as `@`, with the B-number decremented before use.
    PredecB,
    /// `}`: as `*`, with the A-number incremented after use.
    PostincA,
    /// `>`: as `@`, with the B-number incremented after use.
    PostincB,
}

impl Opcode {
    /// The position of the opcode in the declaration order.
    pub open spec fn code(self) -> u8 {
        match self {
            Opcode::Dat => 0,
            Opcode::Mov => 1,
            Opcode::Add => 2,
            Opcode::Sub => 3,
            Opcode::Mul => 4,
            Opcode::Div => 5,
            Opcode::Mod => 6,
            Opcode::Jmp => 7,
            Opcode::Jmz => 8,
            Opcode::Jmn => 9,
            Opcode::Djn => 10,
            Opcode::Spl => 11,
            Opcode::Slt => 12,
            Opcode::Cmp => 13,
            Opcode::SeqOp => 14,
            Opcode::Sne => 15,
            Opcode::Nop => 16,
            Opcode::Ldp => 17,
            Opcode::Stp => 18,
        }
    }

    /// The opcode at a position of the declaration order, if there is one.
    pub open spec fn from_code(n: u8) -> Option<Opcode> {
        if n == 0 {
            Some(Opcode::Dat)
        } else if n == 1 {
            Some(Opcode::Mov)
        } else if n == 2 {
            Some(Opcode::Add)
        } else if n == 3 {
            Some(Opcode::Sub)
        } else if n == 4 {
            Some(Opcode::Mul)
        } else if n == 5 {
            Some(Opcode::Div)
        } else if n == 6 {
            Some(Opcode::Mod)
        } else if n == 7 {
            Some(Opcode::Jmp)
        } else if n == 8 {
            Some(Opcode::Jmz)
        } else if n == 9 {
            Some(Opcode::Jmn)
        } else if n == 10 {
            Some(Opcode::Djn)
        } else if n == 11 {
            Some(Opcode::Spl)
        } else if n == 12 {
            Some(Opcode::Slt)
        } else if n == 13 {
            Some(Opcode::Cmp)
        } else if n == 14 {
            Some(Opcode::SeqOp)
        } else if n == 15 {
            Some(Opcode::Sne)
        } else if n == 16 {
            Some(Opcode::Nop)
        } else if n == 17 {
            Some(Opcode::Ldp)
        } else if n == 18 {
            Some(Opcode::Stp)
        } else {
            None
        }
    }

    /// The opcode as a small number.  Every opcode has one.
    pub fn to_u8(&self) -> (r: Option<u8>)
        ensures
            r == Some(self.code()),
    {
        Some(
            match self {
                Opcode::Dat => 0,
                Opcode::Mov => 1,
                Opcode::Add => 2,
                Opcode::Sub => 3,
                Opcode::Mul => 4,
                Opcode::Div => 5,
                Opcode::Mod => 6,
                Opcode::Jmp => 7,
                Opcode::Jmz => 8,
                Opcode::Jmn => 9,
                Opcode::Djn => 10,
                Opcode::Spl => 11,
                Opcode::Slt => 12,
                Opcode::Cmp => 13,
                Opcode::SeqOp => 14,
                Opcode::Sne => 15,
                Opcode::Nop => 16,
                Opcode::Ldp => 17,
                Opcode::Stp => 18,
            },
        )
    }

    /// The opcode that `to_u8` maps to `n`, or `None` if there is none.
    pub fn from_u8(n: u8) -> (r: Option<Opcode>)
        ensures
            r == Opcode::from_code(n),
            r matches Some(op) ==> op.code() == n,
            r is None <==> n >= 19,
    {
        match n {
            0 => Some(Opcode::Dat),
            1 => Some(Opcode::Mov),
            2 => Some(Opcode::Add),
            3 => Some(Opcode::Sub),
            4 => Some(Opcode::Mul),
            5 => Some(Opcode::Div),
            6 => Some(Opcode::Mod),
            7 => Some(Opcode::Jmp),
            8 => Some(Opcode::Jmz),
            9 => Some(Opcode::Jmn),
            10 => Some(Opcode::Djn),
            11 => Some(Opcode::Spl),
            12 => Some(Opcode::Slt),
            13 => Some(Opcode::Cmp),
            14 => Some(Opcode::SeqOp),
            15 => Some(Opcode::Sne),
            16 => Some(Opcode::Nop),
            17 => Some(Opcode::Ldp),
            18 => Some(Opcode::Stp),
            _ => None,
        }
    }
}

impl Modifier {
    /// The position of the modifier in the declaration order.
    pub open spec fn code(self) -> u8 {
        match self {
            Modifier::A => 0,
            Modifier::B => 1,
            Modifier::AB => 2,
            Modifier::BA => 3,
            Modifier::F => 4,
            Modifier::X => 5,
            Modifier::I => 6,
        }
    }

    /// The modifier at a position of the declaration order, if there is one.
    pub open spec fn from_code(n: u8) -> Option<Modifier> {
        if n == 0 {
            Some(Modifier::A)
        } else if n == 1 {
            Some(Modifier::B)
        } else if n == 2 {
            Some(Modifier::AB)
        } else if n == 3 {
            Some(Modifier::BA)
        } else if n == 4 {
            Some(Modifier::F)
        } else if n == 5 {
            Some(Modifier::X)
        } else if n == 6 {
            Some(Modifier::I)
        } else {
            None
        }
    }

    /// The modifier as a small number.  Every modifier has one.
    pub fn to_u8(&self) -> (r: Option<u8>)
        ensures
            r == Some(self.code()),
    {
        Some(
            match self {
                Modifier::A => 0,
                Modifier::B => 1,
                Modifier::AB => 2,
                Modifier::BA => 3,
                Modifier::F => 4,
                Modifier::X => 5,
                Modifier::I => 6,
            },
        )
    }

    /// The modifier that `to_u8` maps to `n`, or `None` if there is none.
    pub fn from_u8(n: u8) -> (r: Option<Modifier>)
        ensures
            r == Modifier::from_code(n),
            r matches Some(m) ==> m.code() == n,
            r is None <==> n >= 7,
    {
        match n {
            0 => Some(Modifier::A),
            1 => Some(Modifier::B),
            2 => Some(Modifier::AB),
            3 => Some(Modifier::BA),
            4 => Some(Modifier::F),
            5 => Some(Modifier::X),
            6 => Some(Modifier::I),
            _ => None,
        }
    }
}

impl AddrMode {
    /// The position of the mode in the declaration order.
    pub open spec fn code(self) -> u8 {
        match self {
            AddrMode::Immediate => 0,
            AddrMode::Direct => 1,
            AddrMode::IndirectA => 2,
            AddrMode::IndirectB => 3,
            AddrMode::PredecA => 4,
            AddrMode::PredecB => 5,
            AddrMode::PostincA => 6,
            AddrMode::PostincB => 7,
        }
    }

    /// The mode at a position of the declaration order, if there is one.
    pub open spec fn from_code(n: u8) -> Option<AddrMode> {
        if n == 0 {
            Some(AddrMode::Immediate)
        } else if n == 1 {
            Some(AddrMode::Direct)
        } else if n == 2 {
            Some(AddrMode::IndirectA)
        } else if n == 3 {
            Some(AddrMode::IndirectB)
        } else if n == 4 {
            Some(AddrMode::PredecA)
        } else if n == 5 {
            Some(AddrMode::PredecB)
        } else if n == 6 {
            Some(AddrMode::PostincA)
        } else if n == 7 {
            Some(AddrMode::PostincB)
        } else {
            None
        }
    }

    /// The mode as a small number.  Every mode has one.
    pub fn to_u8(&self) -> (r: Option<u8>)
        ensures
            r == Some(self.code()),
    {
        Some(
            match self {
                AddrMode::Immediate => 0,
                AddrMode::Direct => 1,
                AddrMode::IndirectA => 2,
                AddrMode::IndirectB => 3,
                AddrMode::PredecA => 4,
                AddrMode::PredecB => 5,
                AddrMode::PostincA => 6,
                AddrMode::PostincB => 7,
            },
        )
    }

    /// The mode that `to_u8` maps to `n`, or `None` if there is none.
    pub fn from_u8(n: u8) -> (r: Option<AddrMode>)
        ensures
            r == AddrMode::from_code(n),
            r matches Some(m) ==> m.code() == n,
            r is None <==> n >= 8,
    {
        match n {
            0 => Some(AddrMode::Immediate),
            1 => Some(AddrMode::Direct),
            2 => Some(AddrMode::IndirectA),
            3 => Some(AddrMode::IndirectB),
            4 => Some(AddrMode::PredecA),
            5 => Some(AddrMode::PredecB),
            6 => Some(AddrMode::PostincA),
            7 => Some(AddrMode::PostincB),
            _ => None,
        }
    }
}

/// A Redcode instruction without its field values.
#[derive(Copy, Clone, Debug, PartialEq, Eq, Hash, Structural)]
pub struct Instruction {
    /// The opcode, such as `DAT` or `JMP`.
    pub opcode: Opcode,
    /// The modifier, such as `.BA` or `.X`.
    pub modifier: Modifier,
    /// The addressing mode of the A-field.
    pub a_addr_mode: AddrMode,
    /// The addressing mode of the B-field.
    pub b_addr_mode: AddrMode,
}

/// A Redcode instruction with its field values: the unit of core memory.
#[derive(Copy, Clone, Debug, PartialEq, Eq, Hash, Structural)]
pub struct CompleteInstruction {
    /// The opcode, modifier and modes.
    pub instr: Instruction,
    /// The A-field.
    pub a_field: FieldValue,
    /// The B-field.
    pub b_field: FieldValue,
}

impl Instruction {
    /// `DAT.F #0, #0` without its fields: what an untouched core cell holds.
    pub open spec fn spec_default() -> Instruction {
        Instruction {
            opcode: Opcode::Dat,
            modifier: Modifier::F,
            a_addr_mode: AddrMode::Immediate,
            b_addr_mode: AddrMode::Immediate,
        }
    }
}

impl Default for Instruction {
    /// ICWS '94 initialises the core with `DAT.F $0, $0`, which the older
    /// standards do not accept; `DAT.F #0, #0` is valid in all of them.
    fn default() -> (r: Instruction)
        ensures
            r == Instruction::spec_default(),
    {
        Instruction {
            opcode: Opcode::Dat,
            modifier: Modifier::F,
            a_addr_mode: AddrMode::Immediate,
            b_addr_mode: AddrMode::Immediate,
        }
    }
}

impl CompleteInstruction {
    /// The default instruction with both fields zero.
    pub open spec fn spec_default() -> CompleteInstruction {
        CompleteInstruction { instr: Instruction::spec_default(), a_field: 0, b_field: 0 }
    }
}

impl Default for CompleteInstruction {
    fn default() -> (r: CompleteInstruction)
        ensures
            r == CompleteInstruction::spec_default(),
    {
        CompleteInstruction { instr: Instruction::default(), a_field: 0, b_field: 0 }
    }
}

/// An assembled Redcode program.
#[derive(Clone, Debug, PartialEq, Eq, Hash)]
pub struct Warrior {
    /// The instructions of the program, in load order.
    pub code: Vec<CompleteInstruction>,
    /// Offset into the warrior at which execution begins.
    pub start: FieldValue,
    /// The identifier of the PSPACE that the warrior shares with others that
    /// name the same one.
    pub pin: Option<i64>,
}

impl Default for Warrior {
    /// A single default instruction, started at its first cell.
    fn default() -> (r: Warrior)
        ensures
            r.code@ == seq![CompleteInstruction::spec_default()],
            r.start == 0,
            r.pin is None,
    {
        let mut code: Vec<CompleteInstruction> = Vec::new();
        code.push(CompleteInstruction::default());
        Warrior { code, start: 0, pin: None }
    }
}

/// The modifier that the ICWS '94 standard gives to an instruction written
/// without one, as in an ICWS '88 program.
pub open spec fn spec_default_modifiers(op: Opcode, a_mode: AddrMode, b_mode: AddrMode) -> Modifier {
    match op {
        Opcode::Dat | Opcode::Nop => Modifier::F,
        Opcode::Mov | Opcode::SeqOp | Opcode::Sne | Opcode::Cmp => if a_mode == AddrMode::Immediate {
            Modifier::AB
        } else if b_mode == AddrMode::Immediate {
            Modifier::B
        } else {
            Modifier::I
        },
        Opcode::Add | Opcode::Sub | Opcode::Mul | Opcode::Div | Opcode::Mod => if a_mode
            == AddrMode::Immediate {
            Modifier::AB
        } else if b_mode == AddrMode::Immediate {
            Modifier::B
        } else {
            Modifier::F
        },
        Opcode::Slt | Opcode::Ldp | Opcode::Stp => if a_mode == AddrMode::Immediate {
            Modifier::AB
        } else {
            Modifier::B
        },
        Opcode::Jmp | Opcode::Jmz | Opcode::Jmn | Opcode::Djn | Opcode::Spl => Modifier::B,
    }
}

/// Determine the default modifier of an instruction: the one that an
/// ICWS '88 instruction has when it is read as an ICWS '94 instruction.
#[must_use]
pub fn default_modifiers(op: Opcode, a_mode: AddrMode, b_mode: AddrMode) -> (r: Modifier)
    ensures
        r == spec_default_modifiers(op, a_mode, b_mode),
{
    match (op, a_mode, b_mode) {
        (Opcode::Nop | Opcode::Dat, ..) => Modifier::F,
        (Opcode::Mov | Opcode::SeqOp | Opcode::Sne | Opcode::Cmp, AddrMode::Immediate, _) => {
            Modifier::AB
        },
        (Opcode::Mov | Opcode::SeqOp | Opcode::Sne | Opcode::Cmp, _, AddrMode::Immediate) => {
            Modifier::B
        },
        (Opcode::Mov | Opcode::SeqOp | Opcode::Sne | Opcode::Cmp, ..) => Modifier::I,
        (
            Opcode::Add | Opcode::Sub | Opcode::Mul | Opcode::Div | Opcode::Mod,
            AddrMode::Immediate,
            _,
        ) => Modifier::AB,
        (
            Opcode::Add | Opcode::Sub | Opcode::Mul | Opcode::Div | Opcode::Mod,
            _,
            AddrMode::Immediate,
        ) => Modifier::B,
        (Opcode::Add | Opcode::Sub | Opcode::Mul | Opcode::Div | Opcode::Mod, ..) => Modifier::F,
        (Opcode::Slt | Opcode::Ldp | Opcode::Stp, AddrMode::Immediate, _) => Modifier::AB,
        (Opcode::Slt | Opcode::Ldp | Opcode::Stp, ..) => Modifier::B,
        (Opcode::Jmp | Opcode::Jmz | Opcode::Jmn | Opcode::Djn | Opcode::Spl, ..) => Modifier::B,
    }
}


impl Opcode {
    /// The name of the opcode as it is written in a loadfile.
    pub open spec fn mnemonic(self) -> Seq<char> {
        match self {
            Opcode::Dat => "Dat"@,
            Opcode::Mov => "Mov"@,
            Opcode::Add => "Add"@,
            Opcode::Sub => "Sub"@,
            Opcode::Mul => "Mul"@,
            Opcode::Div => "Div"@,
            Opcode::Mod => "Mod"@,
            Opcode::Jmp => "Jmp"@,
            Opcode::Jmz => "Jmz"@,
            Opcode::Jmn => "Jmn"@,
            Opcode::Djn => "Djn"@,
            Opcode::Spl => "Spl"@,
            Opcode::Slt => "Slt"@,
            Opcode::Cmp => "Cmp"@,
            Opcode::SeqOp => "Seq"@,
            Opcode::Sne => "Sne"@,
            Opcode::Nop => "Nop"@,
            Opcode::Ldp => "Ldp"@,
            Opcode::Stp => "Stp"@,
        }
    }

    /// The name of the opcode as it is written in a loadfile.
    pub fn as_str(&self) -> (r: &'static str)
        ensures
            r@ == self.mnemonic(),
    {
        match self {
            Opcode::Dat => "Dat",
            Opcode::Mov => "Mov",
            Opcode::Add => "Add",
            Opcode::Sub => "Sub",
            Opcode::Mul => "Mul",
            Opcode::Div => "Div",
            Opcode::Mod => "Mod",
            Opcode::Jmp => "Jmp",
            Opcode::Jmz => "Jmz",
            Opcode::Jmn => "Jmn",
            Opcode::Djn => "Djn",
            Opcode::Spl => "Spl",
            Opcode::Slt => "Slt",
            Opcode::Cmp => "Cmp",
            Opcode::SeqOp => "Seq",
            Opcode::Sne => "Sne",
            Opcode::Nop => "Nop",
            Opcode::Ldp => "Ldp",
            Opcode::Stp => "Stp",
        }
    }

    /// The opcode as text: its name.
    pub fn to_string(&self) -> (r: String)
        ensures
            r@ == self.mnemonic(),
    {
        String::from_str(self.as_str())
    }
}

impl Modifier {
    /// The name of the modifier as it is written in a loadfile.
    pub open spec fn mnemonic(self) -> Seq<char> {
        match self {
            Modifier::A => "A"@,
            Modifier::B => "B"@,
            Modifier::AB => "AB"@,
            Modifier::BA => "BA"@,
            Modifier::F => "F"@,
            Modifier::X => "X"@,
            Modifier::I => "I"@,
        }
    }

    /// The name of the modifier as it is written in a loadfile.
    pub fn as_str(&self) -> (r: &'static str)
        ensures
            r@ == self.mnemonic(),
    {
        match self {
            Modifier::A => "A",
            Modifier::B => "B",
            Modifier::AB => "AB",
            Modifier::BA => "BA",
            Modifier::F => "F",
            Modifier::X => "X",
            Modifier::I => "I",
        }
    }

    /// The modifier as text: its name.
    pub fn to_string(&self) -> (r: String)
        ensures
            r@ == self.mnemonic(),
    {
        String::from_str(self.as_str())
    }
}

impl AddrMode {
    /// The character that stands for the mode in a loadfile.
    pub open spec fn symbol(self) -> Seq<char> {
        match self {
            AddrMode::Immediate => "#"@,
            AddrMode::Direct => "$"@,
            AddrMode::IndirectA => "*"@,
            AddrMode::IndirectB => "@"@,
            AddrMode::PredecA => "{"@,
            AddrMode::PredecB => "<"@,
            AddrMode::PostincA => "}"@,
            AddrMode::PostincB => ">"@,
        }
    }

    /// The character that stands for the mode in a loadfile.
    pub fn as_str(&self) -> (r: &'static str)
        ensures
            r@ == self.symbol(),
    {
        match self {
            AddrMode::Immediate => "#",
            AddrMode::Direct => "$",
            AddrMode::IndirectA => "*",
            AddrMode::IndirectB => "@",
            AddrMode::PredecA => "{",
            AddrMode::PredecB => "<",
            AddrMode::PostincA => "}",
            AddrMode::PostincB => ">",
        }
    }

    /// The mode as text: its character.
    pub fn to_string(&self) -> (r: String)
        ensures
            r@ == self.symbol(),
    {
        String::from_str(self.as_str())
    }
}

/// A digit as text.
pub open spec fn digit_text(digit: nat) -> Seq<char> {
    if digit == 0 {
        "0"@
    } else if digit == 1 {
        "1"@
    } else if digit == 2 {
        "2"@
    } else if digit == 3 {
        "3"@
    } else if digit == 4 {
        "4"@
    } else if digit == 5 {
        "5"@
    } else if digit == 6 {
        "6"@
    } else if digit == 7 {
        "7"@
    } else if digit == 8 {
        "8"@
    } else {
        "9"@
    }
}

/// A number as text: its decimal digits, without leading zeros.
pub open spec fn decimal(n: nat) -> Seq<char>
    decreases n,
{
    if n < 10 {
        digit_text(n)
    } else {
        decimal(n / 10) + digit_text(n % 10)
    }
}

/// Append the decimal digits of a number to a text.
fn append_decimal(text: &mut String, n: u32)
    ensures
        final(text)@ == old(text)@ + decimal(n as nat),
    decreases n,
{
    if n >= 10 {
        append_decimal(text, n / 10);
    }
    let digit = match n % 10 {
        0 => "0",
        1 => "1",
        2 => "2",
        3 => "3",
        4 => "4",
        5 => "5",
        6 => "6",
        7 => "7",
        8 => "8",
        _ => "9",
    };
    text.append(digit);
    assert(text@ =~= old(text)@ + decimal(n as nat));
}

impl CompleteInstruction {
    /// The instruction as it is written in an ICWS '94 loadfile, such as
    /// `Add.AB #16, $32`.
    pub open spec fn text(self) -> Seq<char> {
        self.instr.opcode.mnemonic() + "."@ + self.instr.modifier.mnemonic() + " "@
            + self.instr.a_addr_mode.symbol() + decimal(self.a_field as nat) + ", "@
            + self.instr.b_addr_mode.symbol() + decimal(self.b_field as nat)
    }

    /// Format the instruction as an instruction of an ICWS '94 loadfile.
    pub fn to_string(&self) -> (r: String)
        ensures
            r@ == self.text(),
    {
        let mut text = String::from_str(self.instr.opcode.as_str());
        text.append(".");
        text.append(self.instr.modifier.as_str());
        text.append(" ");
        text.append(self.instr.a_addr_mode.as_str());
        append_decimal(&mut text, self.a_field);
        text.append(", ");
        text.append(self.instr.b_addr_mode.as_str());
        append_decimal(&mut text, self.b_field);
        text
    }
}

} // verus!
