//! Operand evaluation: where the A- and B-operands of an instruction point,
//! and the predecrements and postincrements their modes perform on the way.

use crate::emulator_core::{CoreAddr, EmulatorError, EmulatorResult, ErrorKind, MAX_CORE_SIZE};
use crate::generic_emulator::{offset, spec_offset};
use crate::redcode::{AddrMode, CompleteInstruction, Instruction};
use vstd::prelude::*;

verus! {

/// A core address and a copy of the cell found there.
#[derive(Copy, Clone, Debug, PartialEq, Eq, Structural)]
pub struct RegisterValue {
    /// The address of the cell.
    pub idx: CoreAddr,
    /// The instruction of the cell.
    pub instr: Instruction,
    /// The A-field of the cell.
    pub a_field: CoreAddr,
    /// The B-field of the cell.
    pub b_field: CoreAddr,
}

/// The registers of one cycle.  They are loaded by operand evaluation and are
/// not touched by what is written to the core afterwards.
#[derive(Copy, Clone, Debug, PartialEq, Eq, Structural)]
pub struct RegisterValues {
    /// The program counter and the instruction it points to.
    pub current: RegisterValue,
    /// The A-target and the A-values.
    pub a: RegisterValue,
    /// The B-target and the B-values.
    pub b: RegisterValue,
}

impl RegisterValue {
    /// The address and both fields lie in a core of `size` cells.
    pub open spec fn valid(self, size: int) -> bool {
        self.idx < size && self.a_field < size && self.b_field < size
    }
}

impl RegisterValues {
    /// All three registers lie in a core of `size` cells.
    pub open spec fn valid(self, size: int) -> bool {
        self.current.valid(size) && self.a.valid(size) && self.b.valid(size)
    }
}

/// A core has at most 2^31 cells, and every field of a cell is an address of
/// the core.
pub open spec fn core_valid(core: Seq<CompleteInstruction>) -> bool {
    &&& core.len() <= MAX_CORE_SIZE
    &&& forall|i: int|
        0 <= i < core.len() ==> (#[trigger] core[i]).a_field < core.len() && core[i].b_field
            < core.len()
}

/// The cell `c` with its A-field replaced.
pub open spec fn with_a_field(c: CompleteInstruction, value: CoreAddr) -> CompleteInstruction {
    CompleteInstruction { instr: c.instr, a_field: value, b_field: c.b_field }
}

/// The cell `c` with its B-field replaced.
pub open spec fn with_b_field(c: CompleteInstruction, value: CoreAddr) -> CompleteInstruction {
    CompleteInstruction { instr: c.instr, a_field: c.a_field, b_field: value }
}

/// The cell that an operand's field points at, before any indirection.
pub open spec fn operand_base(size: int, pc: int, field: int) -> int {
    spec_offset(pc, field, size)
}

/// The core after the predecrement that `mode` asks for on the cell at `base`.
pub open spec fn predecrement(core: Seq<CompleteInstruction>, base: int, mode: AddrMode) -> Seq<
    CompleteInstruction,
> {
    let size = core.len() as int;
    match mode {
        AddrMode::PredecA => core.update(
            base,
            with_a_field(core[base], spec_offset(core[base].a_field as int, -1, size) as u32),
        ),
        AddrMode::PredecB => core.update(
            base,
            with_b_field(core[base], spec_offset(core[base].b_field as int, -1, size) as u32),
        ),
        _ => core,
    }
}

/// The core after the postincrement that `mode` asks for on the cell at `base`.
pub open spec fn postincrement(core: Seq<CompleteInstruction>, base: int, mode: AddrMode) -> Seq<
    CompleteInstruction,
> {
    let size = core.len() as int;
    match mode {
        AddrMode::PostincA => core.update(
            base,
            with_a_field(core[base], spec_offset(core[base].a_field as int, 1, size) as u32),
        ),
        AddrMode::PostincB => core.update(
            base,
            with_b_field(core[base], spec_offset(core[base].b_field as int, 1, size) as u32),
        ),
        _ => core,
    }
}

/// The address an operand resolves to, read from the core as it is after the
/// operand's predecrement.
pub open spec fn operand_target(
    core: Seq<CompleteInstruction>,
    pc: int,
    base: int,
    mode: AddrMode,
) -> int {
    let size = core.len() as int;
    match mode {
        AddrMode::Immediate => pc,
        AddrMode::Direct => base,
        AddrMode::IndirectA | AddrMode::PredecA | AddrMode::PostincA => spec_offset(
            base,
            core[base].a_field as int,
            size,
        ),
        AddrMode::IndirectB | AddrMode::PredecB | AddrMode::PostincB => spec_offset(
            base,
            core[base].b_field as int,
            size,
        ),
    }
}

/// The register that holds the cell at `idx`.
pub open spec fn register_at(core: Seq<CompleteInstruction>, idx: int) -> RegisterValue {
    RegisterValue {
        idx: idx as u32,
        instr: core[idx].instr,
        a_field: core[idx].a_field,
        b_field: core[idx].b_field,
    }
}

/// The register an operand loads: its target, and the cell found there after
/// the predecrement and before the postincrement.
pub open spec fn operand_register(
    core: Seq<CompleteInstruction>,
    pc: int,
    field: int,
    mode: AddrMode,
) -> RegisterValue {
    let base = operand_base(core.len() as int, pc, field);
    let decremented = predecrement(core, base, mode);
    register_at(decremented, operand_target(decremented, pc, base, mode))
}

/// The core after an operand was evaluated.
pub open spec fn operand_core(
    core: Seq<CompleteInstruction>,
    pc: int,
    field: int,
    mode: AddrMode,
) -> Seq<CompleteInstruction> {
    let base = operand_base(core.len() as int, pc, field);
    postincrement(predecrement(core, base, mode), base, mode)
}

/// The core after the A-operand of the instruction at `pc` was evaluated and
/// before the B-operand is.
pub open spec fn core_after_a(core: Seq<CompleteInstruction>, pc: int) -> Seq<CompleteInstruction> {
    operand_core(core, pc, core[pc].a_field as int, core[pc].instr.a_addr_mode)
}

/// The registers that the instruction at `pc` executes with.  The A-operand is
/// evaluated first, on the core as it was; the B-operand second, on the core
/// that the A-operand left.  Both use the fields and modes that the
/// instruction had before either was evaluated.
pub open spec fn evaluate_registers(core: Seq<CompleteInstruction>, pc: int) -> RegisterValues {
    RegisterValues {
        current: register_at(core, pc),
        a: operand_register(core, pc, core[pc].a_field as int, core[pc].instr.a_addr_mode),
        b: operand_register(
            core_after_a(core, pc),
            pc,
            core[pc].b_field as int,
            core[pc].instr.b_addr_mode,
        ),
    }
}

/// The core after both operands of the instruction at `pc` were evaluated.
pub open spec fn evaluate_core(core: Seq<CompleteInstruction>, pc: int) -> Seq<
    CompleteInstruction,
> {
    operand_core(
        core_after_a(core, pc),
        pc,
        core[pc].b_field as int,
        core[pc].instr.b_addr_mode,
    )
}

/// Evaluating an operand keeps a valid core valid and loads a valid register.
pub proof fn lemma_operand_valid(
    core: Seq<CompleteInstruction>,
    pc: int,
    field: int,
    mode: AddrMode,
)
    requires
        core_valid(core),
        0 <= pc < core.len(),
        0 <= field < core.len(),
    ensures
        core_valid(operand_core(core, pc, field, mode)),
        operand_core(core, pc, field, mode).len() == core.len(),
        operand_register(core, pc, field, mode).valid(core.len() as int),
{
    let size = core.len() as int;
    let base = operand_base(size, pc, field);
    let decremented = predecrement(core, base, mode);
    assert(core_valid(decremented));
    let target = operand_target(decremented, pc, base, mode);
    assert(0 <= target < size);
    assert(core_valid(postincrement(decremented, base, mode)));
}

/// Evaluating the operands of an instruction keeps a valid core valid and
/// loads valid registers.
pub proof fn lemma_evaluate_valid(core: Seq<CompleteInstruction>, pc: int)
    requires
        core_valid(core),
        0 <= pc < core.len(),
    ensures
        core_valid(evaluate_core(core, pc)),
        evaluate_core(core, pc).len() == core.len(),
        evaluate_registers(core, pc).valid(core.len() as int),
{
    lemma_operand_valid(core, pc, core[pc].a_field as int, core[pc].instr.a_addr_mode);
    lemma_operand_valid(
        core_after_a(core, pc),
        pc,
        core[pc].b_field as int,
        core[pc].instr.b_addr_mode,
    );
}

/// Evaluate the A- and B-operands of the instruction at `pc`.
///
/// Returns the registers of the cycle.  The core is changed by the
/// predecrements and postincrements of the two addressing modes, so the
/// registers may differ from what the core holds afterwards.
///
/// # Errors
///
/// Returns [`EmulatorError::InternalError`] if `pc` is not an address of the
/// core or the core has more cells than an address can count; the core is
/// then unchanged.  Returns this error as well if a register holds a field
/// that is not an address of the core, which a valid core rules out; the
/// operands are evaluated all the same.
pub fn evaluate(pc: CoreAddr, core: &mut [CompleteInstruction]) -> (r: EmulatorResult<RegisterValues>)
    ensures
        final(core)@.len() == old(core)@.len(),
        pc >= old(core)@.len() || old(core)@.len() > u32::MAX ==> (r matches Err(e) && e.kind()
            == ErrorKind::InternalError) && final(core)@ == old(core)@,
        pc < old(core)@.len() <= u32::MAX ==> final(core)@ == evaluate_core(old(core)@, pc as int),
        pc < old(core)@.len() <= u32::MAX && evaluate_registers(old(core)@, pc as int).valid(
            old(core)@.len() as int,
        ) ==> r == Ok::<RegisterValues, EmulatorError>(evaluate_registers(old(core)@, pc as int)),
        pc < old(core)@.len() <= u32::MAX && !evaluate_registers(old(core)@, pc as int).valid(
            old(core)@.len() as int,
        ) ==> (r matches Err(e) && e.kind() == ErrorKind::InternalError),
        core_valid(old(core)@) ==> core_valid(final(core)@),
        core_valid(old(core)@) && pc < old(core)@.len() ==> r is Ok,
{
    let size = core.len();
    let pc_idx = pc as usize;
    if pc_idx >= size {
        return Err(EmulatorError::InternalError("pc larger than core size"));
    }
    if size > u32::MAX as usize {
        return Err(
            EmulatorError::InternalError("core size too large to be converted into CoreAddr u32"),
        );
    }
    // The instruction as it is before anything is written to the core.
    let cur = core[pc_idx];
    proof {
        if core_valid(old(core)@) {
            lemma_evaluate_valid(old(core)@, pc as int);
        }
    }
    let a = evaluate_operand(pc, cur.a_field, cur.instr.a_addr_mode, core)?;
    let b = evaluate_operand(pc, cur.b_field, cur.instr.b_addr_mode, core)?;
    Ok(
        RegisterValues {
            current: RegisterValue {
                idx: validate(pc, size)?,
                instr: cur.instr,
                a_field: validate(cur.a_field, size)?,
                b_field: validate(cur.b_field, size)?,
            },
            a: RegisterValue {
                idx: validate(a.idx, size)?,
                instr: a.instr,
                a_field: validate(a.a_field, size)?,
                b_field: validate(a.b_field, size)?,
            },
            b: RegisterValue {
                idx: validate(b.idx, size)?,
                instr: b.instr,
                a_field: validate(b.a_field, size)?,
                b_field: validate(b.b_field, size)?,
            },
        },
    )
}

/// Evaluate one operand of the instruction at `pc`: perform the predecrement,
/// resolve the target, load the register, perform the postincrement.
fn evaluate_operand(
    pc: CoreAddr,
    field: CoreAddr,
    mode: AddrMode,
    core: &mut [CompleteInstruction],
) -> (r: EmulatorResult<RegisterValue>)
    requires
        pc < old(core)@.len() <= u32::MAX,
    ensures
        r == Ok::<RegisterValue, EmulatorError>(
            operand_register(old(core)@, pc as int, field as int, mode),
        ),
        final(core)@ == operand_core(old(core)@, pc as int, field as int, mode),
        final(core)@.len() == old(core)@.len(),
{
    let size = core.len();
    // The cell that the field points at.  It is the target of a direct
    // operand, holds the second offset of an indirect one, and is where a
    // predecrement or postincrement is performed.
    let base_value = self::add(field, pc, size)?;
    let base = base_value as usize;

    match mode {
        AddrMode::PredecA => {
            decrement(&mut core[base].a_field, size)?;
        },
        AddrMode::PredecB => {
            decrement(&mut core[base].b_field, size)?;
        },
        _ => {},
    }

    let target: CoreAddr = match mode {
        AddrMode::Immediate => pc,
        AddrMode::Direct => base_value,
        AddrMode::IndirectA | AddrMode::PredecA | AddrMode::PostincA => {
            self::add(base_value, core[base].a_field, size)?
        },
        AddrMode::IndirectB | AddrMode::PredecB | AddrMode::PostincB => {
            self::add(base_value, core[base].b_field, size)?
        },
    };
    let loaded = core[target as usize];

    match mode {
        AddrMode::PostincA => {
            increment(&mut core[base].a_field, size)?;
        },
        AddrMode::PostincB => {
            increment(&mut core[base].b_field, size)?;
        },
        _ => {},
    }

    Ok(
        RegisterValue {
            idx: target,
            instr: loaded.instr,
            a_field: loaded.a_field,
            b_field: loaded.b_field,
        },
    )
}

/// Add one to a field, modulo the core size.
///
/// # Errors
///
/// Returns [`EmulatorError::InternalError`] if the core has no cells or more
/// than an address can count; the field is then unchanged.
pub fn increment(val: &mut CoreAddr, size: usize) -> (r: EmulatorResult<()>)
    ensures
        0 < size <= u32::MAX ==> r is Ok && *final(val) == spec_offset(
            *old(val) as int,
            1,
            size as int,
        ),
        !(0 < size <= u32::MAX) ==> (r matches Err(e) && e.kind() == ErrorKind::InternalError)
            && *final(val) == *old(val),
{
    if size > u32::MAX as usize {
        return Err(
            EmulatorError::InternalError("core size too large to be converted into CoreAddr u32"),
        );
    }
    let new_val = offset(*val, 1, size as u32)?;
    *val = new_val;
    Ok(())
}

/// Subtract one from a field, modulo the core size.
///
/// # Errors
///
/// Returns [`EmulatorError::InternalError`] if the core has no cells or more
/// than an address can count; the field is then unchanged.
pub fn decrement(val: &mut CoreAddr, size: usize) -> (r: EmulatorResult<()>)
    ensures
        0 < size <= u32::MAX ==> r is Ok && *final(val) == spec_offset(
            *old(val) as int,
            -1,
            size as int,
        ),
        !(0 < size <= u32::MAX) ==> (r matches Err(e) && e.kind() == ErrorKind::InternalError)
            && *final(val) == *old(val),
{
    if size > u32::MAX as usize {
        return Err(
            EmulatorError::InternalError("core size too large to be converted into CoreAddr u32"),
        );
    }
    let new_val = offset(*val, -1, size as u32)?;
    *val = new_val;
    Ok(())
}

/// Add two values modulo the core size.
///
/// # Errors
///
/// Returns [`EmulatorError::InternalError`] if the core has no cells or more
/// than an address can count.
pub fn add(lhs: CoreAddr, rhs: CoreAddr, size: usize) -> (r: EmulatorResult<CoreAddr>)
    ensures
        0 < size <= u32::MAX ==> r == Ok::<CoreAddr, EmulatorError>(
            spec_offset(lhs as int, rhs as int, size as int) as u32,
        ),
        !(0 < size <= u32::MAX) ==> (r matches Err(e) && e.kind() == ErrorKind::InternalError),
        r matches Ok(v) ==> v < size,
{
    if size > u32::MAX as usize {
        return Err(
            EmulatorError::InternalError("core size too large to be converted into CoreAddr u32"),
        );
    }
    offset(lhs, rhs as i64, size as u32)
}

/// Verify that a value is an address of a core of `size` cells.
///
/// # Errors
///
/// Returns [`EmulatorError::InternalError`] if it is not, or if the core has
/// more cells than an address can count.
pub fn validate(val: CoreAddr, size: usize) -> (r: EmulatorResult<CoreAddr>)
    ensures
        val < size <= u32::MAX ==> r == Ok::<CoreAddr, EmulatorError>(val),
        !(val < size <= u32::MAX) ==> (r matches Err(e) && e.kind() == ErrorKind::InternalError),
{
    if size > u32::MAX as usize {
        return Err(
            EmulatorError::InternalError("core size too large to be converted into CoreAddr u32"),
        );
    }
    if val < size as u32 {
        Ok(val)
    } else {
        Err(EmulatorError::InternalError("Invalid core value greater than core size"))
    }
}


/// Whether a mode writes to the A-number of the cell that the field points
/// at.
pub open spec fn writes_a_number(mode: AddrMode) -> bool {
    mode == AddrMode::PredecA || mode == AddrMode::PostincA
}

/// Whether a mode writes to the B-number of the cell that the field points
/// at.
pub open spec fn writes_b_number(mode: AddrMode) -> bool {
    mode == AddrMode::PredecB || mode == AddrMode::PostincB
}

/// An immediate operand points at the instruction itself, whatever its field
/// holds.
pub proof fn lemma_immediate_operand(core: Seq<CompleteInstruction>, pc: int)
    requires
        core_valid(core),
        0 <= pc < core.len(),
    ensures
        core[pc].instr.a_addr_mode == AddrMode::Immediate ==> evaluate_registers(core, pc).a.idx
            == pc,
        core[pc].instr.b_addr_mode == AddrMode::Immediate ==> evaluate_registers(core, pc).b.idx
            == pc,
{
    lemma_evaluate_valid(core, pc);
}

/// A direct operand points at the cell that lies as far behind the
/// instruction as its field says, modulo the core size.
pub proof fn lemma_direct_operand(core: Seq<CompleteInstruction>, pc: int)
    requires
        core_valid(core),
        0 <= pc < core.len(),
    ensures
        core[pc].instr.a_addr_mode == AddrMode::Direct ==> evaluate_registers(core, pc).a.idx == (
        pc + core[pc].a_field) % (core.len() as int),
        core[pc].instr.b_addr_mode == AddrMode::Direct ==> evaluate_registers(core, pc).b.idx == (
        pc + core[pc].b_field) % (core.len() as int),
{
    lemma_evaluate_valid(core, pc);
    lemma_operand_valid(core, pc, core[pc].a_field as int, core[pc].instr.a_addr_mode);
}

/// A B-number predecrement on the A-operand takes one off the B-number of the
/// cell that the A-field points at, modulo the core size, before the
/// B-operand is evaluated.  A B-operand that reads its second offset from the
/// B-number of the same cell finds the decremented value.  When all is
/// evaluated the B-number is still the decremented one, unless the B-operand
/// points at the same cell with a mode that writes to the B-number too.
pub proof fn lemma_predecrement_b(core: Seq<CompleteInstruction>, pc: int)
    requires
        core_valid(core),
        0 <= pc < core.len(),
        core[pc].instr.a_addr_mode == AddrMode::PredecB,
    ensures
        ({
            let size = core.len() as int;
            let a_base = operand_base(size, pc, core[pc].a_field as int);
            let b_base = operand_base(size, pc, core[pc].b_field as int);
            let decremented = spec_offset(core[a_base].b_field as int, -1, size);
            &&& core_after_a(core, pc)[a_base].b_field == decremented
            &&& b_base == a_base && core[pc].instr.b_addr_mode == AddrMode::IndirectB
                ==> evaluate_registers(core, pc).b.idx == spec_offset(b_base, decremented, size)
            &&& !(b_base == a_base && writes_b_number(core[pc].instr.b_addr_mode))
                ==> evaluate_core(core, pc)[a_base].b_field == decremented
        }),
{
    lemma_evaluate_valid(core, pc);
    lemma_operand_valid(core, pc, core[pc].a_field as int, core[pc].instr.a_addr_mode);
    lemma_operand_valid(
        core_after_a(core, pc),
        pc,
        core[pc].b_field as int,
        core[pc].instr.b_addr_mode,
    );
}

/// An A-number postincrement on the A-operand adds one to the A-number of the
/// cell that the A-field points at, modulo the core size, but only after the
/// A-register is loaded: the A-target is found with the old A-number, and the
/// A-register holds what the core held before.  When all is evaluated the
/// A-number is still the incremented one, unless the B-operand points at the
/// same cell with a mode that writes to the A-number too.
pub proof fn lemma_postincrement_a(core: Seq<CompleteInstruction>, pc: int)
    requires
        core_valid(core),
        0 <= pc < core.len(),
        core[pc].instr.a_addr_mode == AddrMode::PostincA,
    ensures
        ({
            let size = core.len() as int;
            let a_base = operand_base(size, pc, core[pc].a_field as int);
            let b_base = operand_base(size, pc, core[pc].b_field as int);
            let incremented = spec_offset(core[a_base].a_field as int, 1, size);
            let target = spec_offset(a_base, core[a_base].a_field as int, size);
            &&& evaluate_registers(core, pc).a == register_at(core, target)
            &&& core_after_a(core, pc)[a_base].a_field == incremented
            &&& !(b_base == a_base && writes_a_number(core[pc].instr.b_addr_mode))
                ==> evaluate_core(core, pc)[a_base].a_field == incremented
        }),
{
    lemma_evaluate_valid(core, pc);
    lemma_operand_valid(core, pc, core[pc].a_field as int, core[pc].instr.a_addr_mode);
    lemma_operand_valid(
        core_after_a(core, pc),
        pc,
        core[pc].b_field as int,
        core[pc].instr.b_addr_mode,
    );
}

} // verus!
