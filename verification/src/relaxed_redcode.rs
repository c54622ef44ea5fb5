//! Instructions and warriors whose fields are not yet reduced to a core size.
//!
//! A loadfile gives fields as signed numbers of any magnitude.  The types here
//! hold them as written, so that a program can be parsed before the size of
//! the core is known; `normalize` then reduces them modulo a core size.

use crate::redcode::{CompleteInstruction, FieldValue, Instruction, Warrior};
use vstd::arithmetic::div_mod::lemma_fundamental_div_mod_converse;
use vstd::prelude::*;

verus! {

/// A [`CompleteInstruction`] whose fields may be negative or larger than the
/// core.
#[derive(Copy, Clone, Debug, PartialEq, Eq, Hash, Structural)]
pub struct RelaxedCompleteInstruction {
    /// The opcode, modifier and modes.
    pub instr: Instruction,
    /// The A-field, to be taken modulo the core size.
    pub a_field: i64,
    /// The B-field, to be taken modulo the core size.
    pub b_field: i64,
}

/// A [`Warrior`] whose instructions and start may hold fields that are
/// negative or larger than the core.
#[derive(Clone, Debug, PartialEq, Eq, Hash)]
pub struct RelaxedWarrior {
    /// The instructions of the program, in load order.
    pub code: Vec<RelaxedCompleteInstruction>,
    /// Offset from the start of the warrior at which execution begins.  It
    /// may lie outside of the warrior.
    pub start: i64,
    /// The identifier of the PSPACE that the warrior shares with others that
    /// name the same one.
    pub pin: Option<i64>,
}

/// What a [`RelaxedWarrior`] holds.
pub struct RelaxedWarriorView {
    /// The instructions of the program, in load order.
    pub code: Seq<RelaxedCompleteInstruction>,
    /// Offset from the start of the warrior at which execution begins.
    pub start: i64,
    /// The identifier of the PSPACE of the warrior.
    pub pin: Option<i64>,
}

impl View for RelaxedWarrior {
    type V = RelaxedWarriorView;

    open spec fn view(&self) -> RelaxedWarriorView {
        RelaxedWarriorView { code: self.code@, start: self.start, pin: self.pin }
    }
}

/// A value as an offset into a core of `core_size` cells: the one address
/// that differs from the value by a multiple of the core size.
pub open spec fn spec_normalize(value: int, core_size: int) -> int {
    value % core_size
}

impl RelaxedCompleteInstruction {
    /// The default instruction with both fields zero.
    pub open spec fn spec_default() -> RelaxedCompleteInstruction {
        RelaxedCompleteInstruction { instr: Instruction::spec_default(), a_field: 0, b_field: 0 }
    }

    /// The instruction with both fields reduced modulo `core_size`.
    pub open spec fn spec_normalize(self, core_size: int) -> CompleteInstruction {
        CompleteInstruction {
            instr: self.instr,
            a_field: spec_normalize(self.a_field as int, core_size) as u32,
            b_field: spec_normalize(self.b_field as int, core_size) as u32,
        }
    }

    /// Convert into a [`CompleteInstruction`] by reducing the fields modulo
    /// `core_size`.
    pub fn normalize(&self, core_size: u32) -> (r: CompleteInstruction)
        requires
            0 < core_size < u32::MAX,
        ensures
            r == self.spec_normalize(core_size as int),
            r.a_field < core_size,
            r.b_field < core_size,
    {
        CompleteInstruction {
            instr: self.instr,
            a_field: normalize(self.a_field, core_size),
            b_field: normalize(self.b_field, core_size),
        }
    }
}

impl Default for RelaxedCompleteInstruction {
    fn default() -> (r: RelaxedCompleteInstruction)
        ensures
            r == RelaxedCompleteInstruction::spec_default(),
    {
        RelaxedCompleteInstruction { instr: Instruction::default(), a_field: 0, b_field: 0 }
    }
}

impl RelaxedWarrior {
    /// Convert into a [`Warrior`] by reducing the fields of every instruction
    /// and the start modulo `core_size`.
    pub fn normalize(&self, core_size: u32) -> (r: Warrior)
        requires
            0 < core_size < u32::MAX,
        ensures
            r.code@.len() == self.code@.len(),
            forall|i: int|
                0 <= i < self.code@.len() ==> r.code@[i] == (#[trigger] self.code@[i]).spec_normalize(
                    core_size as int,
                ),
            r.start == spec_normalize(self.start as int, core_size as int),
            r.pin == self.pin,
    {
        let mut code: Vec<CompleteInstruction> = Vec::new();
        let mut i: usize = 0;
        while i < self.code.len()
            invariant
                0 < core_size < u32::MAX,
                i <= self.code@.len(),
                code@.len() == i,
                forall|k: int|
                    0 <= k < i ==> code@[k] == (#[trigger] self.code@[k]).spec_normalize(
                        core_size as int,
                    ),
            decreases self.code@.len() - i,
        {
            code.push(self.code[i].normalize(core_size));
            i += 1;
        }
        Warrior { code, start: normalize(self.start, core_size), pin: self.pin }
    }
}

impl Default for RelaxedWarrior {
    /// A single default instruction, started at its first cell.
    fn default() -> (r: RelaxedWarrior)
        ensures
            r.code@ == seq![RelaxedCompleteInstruction::spec_default()],
            r.start == 0,
            r.pin is None,
    {
        let mut code: Vec<RelaxedCompleteInstruction> = Vec::new();
        code.push(RelaxedCompleteInstruction::default());
        RelaxedWarrior { code, start: 0, pin: None }
    }
}

/// A negative number `-(m + 1)` has the remainder `size - 1 - m % size`.
pub proof fn lemma_negative_remainder(m: int, size: int)
    requires
        m >= 0,
        size > 0,
    ensures
        (-(m + 1)) % size == size - 1 - m % size,
{
    let q = m / size;
    let r = m % size;
    assert(m == q * size + r) by {
        vstd::arithmetic::div_mod::lemma_fundamental_div_mod(m, size);
        assert(size * q == q * size) by (nonlinear_arith);
    }
    assert(-(m + 1) == (-(q + 1)) * size + (size - 1 - r)) by (nonlinear_arith)
        requires
            m == q * size + r,
    ;
    lemma_fundamental_div_mod_converse(-(m + 1), size, -(q + 1), size - 1 - r);
}

/// A signed value reduced modulo `size`, whatever its sign and magnitude.
pub fn reduce(value: i64, size: u32) -> (r: u32)
    requires
        size > 0,
    ensures
        r == spec_normalize(value as int, size as int),
        r < size,
{
    let n: u64 = size as u64;
    let reduced: u64 = if value >= 0 {
        (value as u64) % n
    } else {
        let below: u64 = (-(value + 1)) as u64;
        proof {
            lemma_negative_remainder(below as int, n as int);
        }
        n - 1 - below % n
    };
    reduced as u32
}

/// Evaluate a value as an offset into the core, wrapping around at
/// `core_size`.
pub fn normalize(value: i64, core_size: u32) -> (r: FieldValue)
    requires
        0 < core_size < u32::MAX,
    ensures
        r == spec_normalize(value as int, core_size as int),
        r < core_size,
{
    reduce(value, core_size)
}

} // verus!
