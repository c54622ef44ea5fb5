//! A Redcode virtual machine for the CoreWar programming game.
//!
//! The crate holds the instruction model, a loadfile parser for the ICWS '88
//! and '94 dialects, and a cycle-accurate emulator.  Every function carries a
//! contract over a mathematical model of the data it works on, and the
//! contracts are proved.

pub mod emulator_core;
pub mod generic_emulator;
pub mod parser;
pub mod redcode;
pub mod relaxed_redcode;

pub use redcode::{
    default_modifiers, AddrMode, CompleteInstruction, FieldValue, Instruction, Modifier, Opcode,
    Warrior,
};
pub use emulator_core::{
    BytecodeInstructionIdentifier, CoreAddr, CoreSettings, EmulatorCore, EmulatorError,
    EmulatorResult, ErrorKind,
};
pub use relaxed_redcode::{normalize, RelaxedCompleteInstruction, RelaxedWarrior};
