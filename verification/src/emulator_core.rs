//! What every emulator shares: its errors and its settings.

use crate::redcode::Instruction;
use vstd::prelude::*;
use vstd::string::*;

verus! {

/// An offset into an emulator core, valid from 0 to the core size minus one.
pub type CoreAddr = crate::redcode::FieldValue;

/// An opaque identifier of an instruction without its fields.  An emulator
/// maps each instruction to exactly one identifier.
pub type BytecodeInstructionIdentifier = u32;

/// The largest core size an emulator accepts: 2^31 cells.
pub const MAX_CORE_SIZE: u64 = 0x8000_0000;

/// Why an operation on an emulator failed.  Each kind carries a short reason.
#[derive(Debug, Copy, Clone, PartialEq, Eq)]
pub enum EmulatorError {
    /// A parameter is out of range or otherwise illegal.  The caller may try
    /// again with a corrected value.
    InvalidParam(&'static str),
    /// The operation is valid in general, but this emulator does not offer it.
    UnsupportedFeature(&'static str),
    /// An invariant of the implementation does not hold.
    InternalError(&'static str),
    /// The operation is not implemented yet.
    UnimplementedError(&'static str),
}

/// The kind of an [`EmulatorError`], without its reason.
pub enum ErrorKind {
    /// The kind of [`EmulatorError::InvalidParam`].
    InvalidParam,
    /// The kind of [`EmulatorError::UnsupportedFeature`].
    UnsupportedFeature,
    /// The kind of [`EmulatorError::InternalError`].
    InternalError,
    /// The kind of [`EmulatorError::UnimplementedError`].
    Unimplemented,
}

impl EmulatorError {
    /// The kind of the error.
    pub open spec fn kind(self) -> ErrorKind {
        match self {
            EmulatorError::InvalidParam(_) => ErrorKind::InvalidParam,
            EmulatorError::UnsupportedFeature(_) => ErrorKind::UnsupportedFeature,
            EmulatorError::InternalError(_) => ErrorKind::InternalError,
            EmulatorError::UnimplementedError(_) => ErrorKind::Unimplemented,
        }
    }
}

impl EmulatorError {
    /// The reason that the error carries.
    pub open spec fn reason(self) -> Seq<char> {
        match self {
            EmulatorError::InvalidParam(msg) => msg@,
            EmulatorError::UnsupportedFeature(msg) => msg@,
            EmulatorError::InternalError(msg) => msg@,
            EmulatorError::UnimplementedError(msg) => msg@,
        }
    }

    /// The error as text: what kind of error it is, its reason, and for the
    /// kinds that no user should see, a request to report it.
    pub open spec fn text(self) -> Seq<char> {
        match self {
            EmulatorError::InvalidParam(msg) => "invalid parameter value for EmulatorCore function"@
                + msg@,
            EmulatorError::UnsupportedFeature(msg) => "requested operation is not valid for this implementation"@
                + msg@,
            EmulatorError::InternalError(msg) => "internal emulator implementation error"@ + msg@
                + "this is a bug"@
                + "we would appreciate a bug report: https://https://github.com/base0x10/Marzipan/issues/new"@,
            EmulatorError::UnimplementedError(msg) => "not yet implemented functionality"@ + msg@
                + "if this error shows up in released code, it's a bug"@
                + "we would appreciate a bug report: https://https://github.com/base0x10/Marzipan/issues/new"@,
        }
    }

    /// Format the error for a reader.
    pub fn to_string(&self) -> (r: String)
        ensures
            r@ == self.text(),
    {
        match self {
            EmulatorError::InvalidParam(msg) => {
                let mut text = String::from_str(
                    "invalid parameter value for EmulatorCore function",
                );
                text.append(msg);
                text
            },
            EmulatorError::UnsupportedFeature(msg) => {
                let mut text = String::from_str(
                    "requested operation is not valid for this implementation",
                );
                text.append(msg);
                text
            },
            EmulatorError::InternalError(msg) => {
                let mut text = String::from_str("internal emulator implementation error");
                text.append(msg);
                text.append("this is a bug");
                text.append(
                    "we would appreciate a bug report: https://https://github.com/base0x10/Marzipan/issues/new",
                );
                text
            },
            EmulatorError::UnimplementedError(msg) => {
                let mut text = String::from_str("not yet implemented functionality");
                text.append(msg);
                text.append("if this error shows up in released code, it's a bug");
                text.append(
                    "we would appreciate a bug report: https://https://github.com/base0x10/Marzipan/issues/new",
                );
                text
            },
        }
    }
}

/// The result of an operation on an emulator.
pub type EmulatorResult<T> = Result<T, EmulatorError>;

/// The configuration of an emulator.  It is set when the emulator is built and
/// does not change afterwards.
#[derive(Debug, Copy, Clone, PartialEq, Eq)]
pub struct CoreSettings {
    /// Number of cells in the core.  All fields are taken modulo this number.
    pub core_size: u64,
    /// Number of cells in each PSPACE.
    pub pspace_size: u64,
    /// Number of warriors.  Warrior ids run from 0 to `warriors - 1`.
    pub warriors: u64,
    /// The largest number of processes a warrior may have queued.
    pub processes: u64,
    /// Names the format of the bytecode identifiers, by convention as
    /// `url::package::name::version`.  Identifiers of two emulators with the
    /// same non-empty format can be exchanged; without a format they are valid
    /// only for the emulator that made them.
    pub bytecode_format: Option<&'static str>,
}


/// The interface of an emulator: what it takes to set up, change and run a
/// core.  Rounds, battles and the loading of warriors are built on top of it.
///
/// Addresses and field values have their plain meaning.  Bytecode identifiers
/// are opaque: but for emulators that name the same `bytecode_format`, they
/// are valid only for the emulator that made them.
pub trait EmulatorCore {
    /// The emulator is in a state that its operations keep it in.
    spec fn valid(&self) -> bool;

    /// Execute the next instruction of a warrior and return its address, or
    /// `None` for a warrior without processes.
    fn step(&mut self, warrior_id: u64) -> (r: EmulatorResult<Option<CoreAddr>>)
        requires
            old(self).valid(),
        ensures
            final(self).valid(),
    ;

    /// Execute up to `cycles` cycles, or until no more than
    /// `warriors_remaining` warriors are active.  In a cycle each active
    /// warrior executes one instruction.  Returns the number of cycles
    /// executed.
    fn run(&mut self, cycles: u64, warriors_remaining: u64) -> (r: EmulatorResult<u64>)
        requires
            old(self).valid(),
        ensures
            final(self).valid(),
    ;

    /// The settings of the emulator.
    fn core_settings(&self) -> (r: CoreSettings)
        requires
            self.valid(),
    ;

    /// The instruction, A-field and B-field at an address of the core.
    fn read_core(&self, addr: CoreAddr) -> (r: EmulatorResult<
        (BytecodeInstructionIdentifier, CoreAddr, CoreAddr),
    >)
        requires
            self.valid(),
    ;

    /// Replace the instruction, A-field and B-field at an address of the core.
    fn write_core(
        &mut self,
        addr: CoreAddr,
        insn: BytecodeInstructionIdentifier,
        a_field: CoreAddr,
        b_field: CoreAddr,
    ) -> (r: EmulatorResult<()>)
        requires
            old(self).valid(),
        ensures
            final(self).valid(),
    ;

    /// Read a value from the PSPACE of a warrior.
    fn read_pspace(&self, warrior_id: u64, addr: CoreAddr) -> (r: EmulatorResult<CoreAddr>)
        requires
            self.valid(),
    ;

    /// Write a value to the PSPACE of a warrior.  But for the address zero,
    /// warriors that share a pin read and write the same PSPACE.
    fn write_pspace(&mut self, warrior_id: u64, addr: CoreAddr, value: CoreAddr) -> (r:
        EmulatorResult<()>)
        requires
            old(self).valid(),
        ensures
            final(self).valid(),
    ;

    /// Fill the whole core with one instruction, and remove all processes
    /// and all PSPACE pins and values.
    fn reset_core(
        &mut self,
        initial_instr: BytecodeInstructionIdentifier,
        initial_a: CoreAddr,
        initial_b: CoreAddr,
    ) -> (r: EmulatorResult<()>)
        requires
            old(self).valid(),
        ensures
            final(self).valid(),
    ;

    /// The warriors with a non-empty process queue.
    fn active_warrior_set(&self) -> (r: Vec<u64>)
        requires
            self.valid(),
    ;

    /// A copy of the process queue of a warrior, the next process first.
    fn read_process_queue(&self, warrior_id: u64) -> (r: EmulatorResult<Vec<CoreAddr>>)
        requires
            self.valid(),
    ;

    /// Replace the processes of a warrior.  This is how a warrior is given
    /// processes, and how it is killed.
    fn replace_process_queue(&mut self, warrior_id: u64, process_queue: &[CoreAddr]) -> (r:
        EmulatorResult<()>)
        requires
            old(self).valid(),
        ensures
            final(self).valid(),
    ;

    /// The instruction that a bytecode identifier of this emulator stands for.
    fn bytecode_to_rc(&self, bytecode_instr: BytecodeInstructionIdentifier) -> (r: EmulatorResult<
        Instruction,
    >)
    ;

    /// The bytecode identifier of an instruction in this emulator.
    fn rc_to_bytecode(&self, redcode_instr: Instruction) -> (r: BytecodeInstructionIdentifier)
    ;
}

} // verus!
