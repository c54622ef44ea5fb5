//! What each opcode does once the operands are evaluated.
//!
//! An instruction may write to the cell that its B-operand points at, offer
//! up to two program counters to the queue of its warrior, and read or write
//! the PSPACE of its warrior.  What it does is stated as an [`Effect`]; the
//! functions that end in `_op` perform it.
//!
//! Every operation first checks that its inputs fit together.  If they do
//! not, it changes nothing and returns an internal error.

use crate::emulator_core::{CoreAddr, EmulatorError, EmulatorResult, ErrorKind};
use crate::generic_emulator::offset;
use crate::generic_emulator::operands::{core_valid, RegisterValue, RegisterValues};
use crate::generic_emulator::processes::{push_bounded, ProcessQueueSet};
use crate::generic_emulator::pspace::{lemma_write_keeps, PSpace, PSpaceView};
use crate::generic_emulator::spec_offset;
use crate::redcode::{CompleteInstruction, Modifier, Opcode};
use vstd::prelude::*;

verus! {

/// The program counters that an instruction offers to the process queue.
pub enum Queued {
    /// None: the process ends.
    Nothing,
    /// One program counter.
    One(CoreAddr),
    /// Two program counters, in this order.
    Two(CoreAddr, CoreAddr),
}

/// What executing an instruction does to the machine.
pub struct Effect {
    /// The core after the instruction.
    pub core: Seq<CompleteInstruction>,
    /// The program counters offered to the queue of the executing warrior.
    pub queued: Queued,
    /// The PSPACE store after the instruction.
    pub pspace: PSpaceView,
    /// The kind of error that the instruction ends in, if it fails.
    pub error: Option<ErrorKind>,
}

/// `queue` after the program counters in `queued` were offered to it, each
/// dropped if the queue is at `capacity` when its turn comes.
pub open spec fn enqueue(queue: Seq<CoreAddr>, queued: Queued, capacity: nat) -> Seq<CoreAddr> {
    match queued {
        Queued::Nothing => queue,
        Queued::One(pc) => push_bounded(queue, pc, capacity),
        Queued::Two(first, second) => push_bounded(
            push_bounded(queue, first, capacity),
            second,
            capacity,
        ),
    }
}

/// The field of the A-register that the modifier routes to the A-number of
/// the B-target, if it routes any there.
pub open spec fn routed_to_a(modifier: Modifier, a: RegisterValue) -> Option<CoreAddr> {
    match modifier {
        Modifier::A | Modifier::F | Modifier::I => Some(a.a_field),
        Modifier::BA | Modifier::X => Some(a.b_field),
        Modifier::B | Modifier::AB => None,
    }
}

/// The field of the A-register that the modifier routes to the B-number of
/// the B-target, if it routes any there.
pub open spec fn routed_to_b(modifier: Modifier, a: RegisterValue) -> Option<CoreAddr> {
    match modifier {
        Modifier::B | Modifier::F | Modifier::I => Some(a.b_field),
        Modifier::AB | Modifier::X => Some(a.a_field),
        Modifier::A | Modifier::BA => None,
    }
}

/// The address after the executing instruction, `steps` cells on.
pub open spec fn pc_after(regs: RegisterValues, steps: int, size: int) -> CoreAddr {
    spec_offset(regs.current.idx as int, steps, size) as u32
}

/// An effect that leaves the core and the PSPACE as they are.
pub open spec fn only_queue(
    core: Seq<CompleteInstruction>,
    pspace: PSpaceView,
    queued: Queued,
) -> Effect {
    Effect { core, queued, pspace, error: None }
}

/// An effect that changes nothing and fails.
pub open spec fn failure(
    core: Seq<CompleteInstruction>,
    pspace: PSpaceView,
    kind: ErrorKind,
) -> Effect {
    Effect { core, queued: Queued::Nothing, pspace, error: Some(kind) }
}

/// `Dat` does nothing; as it queues nothing, the process ends.
pub open spec fn dat_effect(core: Seq<CompleteInstruction>, pspace: PSpaceView) -> Effect {
    only_queue(core, pspace, Queued::Nothing)
}

/// The B-target of a `Mov`: each number that the modifier routes is replaced
/// by its source; with `I` the instruction is replaced as well.
pub open spec fn moved(
    modifier: Modifier,
    a: RegisterValue,
    target: CompleteInstruction,
) -> CompleteInstruction {
    CompleteInstruction {
        instr: if modifier == Modifier::I {
            a.instr
        } else {
            target.instr
        },
        a_field: match routed_to_a(modifier, a) {
            Some(value) => value,
            None => target.a_field,
        },
        b_field: match routed_to_b(modifier, a) {
            Some(value) => value,
            None => target.b_field,
        },
    }
}

/// `Mov` writes the B-target and queues the next instruction.
pub open spec fn mov_effect(
    regs: RegisterValues,
    core: Seq<CompleteInstruction>,
    pspace: PSpaceView,
) -> Effect {
    let at = regs.b.idx as int;
    Effect {
        core: core.update(at, moved(regs.current.instr.modifier, regs.a, core[at])),
        queued: Queued::One(pc_after(regs, 1, core.len() as int)),
        pspace,
        error: None,
    }
}

/// Whether the opcode is one of `Add`, `Sub`, `Mul`, `Div` and `Mod`.
pub open spec fn is_arithmetic(op: Opcode) -> bool {
    op == Opcode::Add || op == Opcode::Sub || op == Opcode::Mul || op == Opcode::Div || op
        == Opcode::Mod
}

/// The result of an arithmetic opcode on a B-value and an A-value, modulo the
/// core size.  A division by zero has no result.
pub open spec fn arithmetic(op: Opcode, b_value: CoreAddr, a_value: CoreAddr, size: int) -> Option<
    CoreAddr,
> {
    match op {
        Opcode::Add => Some(((b_value + a_value) % size) as u32),
        Opcode::Sub => Some(((b_value - a_value) % size) as u32),
        Opcode::Mul => Some(((b_value * a_value) % size) as u32),
        Opcode::Div => if a_value == 0 {
            None
        } else {
            Some((b_value / a_value) as u32)
        },
        Opcode::Mod => if a_value == 0 {
            None
        } else {
            Some((b_value % a_value) as u32)
        },
        _ => None,
    }
}

/// What an arithmetic opcode makes of one number of the B-target: the result
/// on the B-value and the routed A-value, or what the target holds if no
/// A-value is routed there or the result does not exist.
pub open spec fn computed(
    op: Opcode,
    size: int,
    source: Option<CoreAddr>,
    b_value: CoreAddr,
    held: CoreAddr,
) -> CoreAddr {
    match source {
        Some(a_value) => match arithmetic(op, b_value, a_value, size) {
            Some(result) => result,
            None => held,
        },
        None => held,
    }
}

/// Whether an arithmetic opcode divides by zero on a number of the B-target.
pub open spec fn divides_by_zero(op: Opcode, source: Option<CoreAddr>) -> bool {
    (op == Opcode::Div || op == Opcode::Mod) && source == Some(0u32)
}

/// An arithmetic opcode computes each number of the B-target that the
/// modifier routes an A-value to.  A number whose computation divides by zero
/// is left alone.  The next instruction is queued unless a division by zero
/// was attempted.
pub open spec fn arithmetic_effect(
    regs: RegisterValues,
    core: Seq<CompleteInstruction>,
    pspace: PSpaceView,
) -> Effect {
    let op = regs.current.instr.opcode;
    let modifier = regs.current.instr.modifier;
    let size = core.len() as int;
    let at = regs.b.idx as int;
    let to_a = routed_to_a(modifier, regs.a);
    let to_b = routed_to_b(modifier, regs.a);
    if !is_arithmetic(op) {
        failure(core, pspace, ErrorKind::InternalError)
    } else {
        Effect {
            core: core.update(
                at,
                CompleteInstruction {
                    instr: core[at].instr,
                    a_field: computed(op, size, to_a, regs.b.a_field, core[at].a_field),
                    b_field: computed(op, size, to_b, regs.b.b_field, core[at].b_field),
                },
            ),
            queued: if divides_by_zero(op, to_a) || divides_by_zero(op, to_b) {
                Queued::Nothing
            } else {
                Queued::One(pc_after(regs, 1, size))
            },
            pspace,
            error: None,
        }
    }
}

/// An effect that only queues a program counter: the A-pointer if `jump`
/// holds, else the next instruction.
pub open spec fn jump_if(
    jump: bool,
    regs: RegisterValues,
    core: Seq<CompleteInstruction>,
    pspace: PSpaceView,
) -> Effect {
    only_queue(
        core,
        pspace,
        Queued::One(
            if jump {
                regs.a.idx
            } else {
                pc_after(regs, 1, core.len() as int)
            },
        ),
    )
}

/// An effect that only queues a program counter: the instruction after the
/// next if `skip` holds, else the next instruction.
pub open spec fn skip_if(
    skip: bool,
    regs: RegisterValues,
    core: Seq<CompleteInstruction>,
    pspace: PSpaceView,
) -> Effect {
    only_queue(
        core,
        pspace,
        Queued::One(
            pc_after(
                regs,
                if skip {
                    2
                } else {
                    1
                },
                core.len() as int,
            ),
        ),
    )
}

/// `Jmp` queues the A-pointer.
pub open spec fn jmp_effect(
    regs: RegisterValues,
    core: Seq<CompleteInstruction>,
    pspace: PSpaceView,
) -> Effect {
    jump_if(true, regs, core, pspace)
}

/// Whether the modifier selects the A-number of the B-operand.
pub open spec fn selects_a(modifier: Modifier) -> bool {
    modifier != Modifier::B && modifier != Modifier::AB
}

/// Whether the modifier selects the B-number of the B-operand.
pub open spec fn selects_b(modifier: Modifier) -> bool {
    modifier != Modifier::A && modifier != Modifier::BA
}

/// Every number of the B-value that the modifier selects is zero.
pub open spec fn b_value_is_zero(modifier: Modifier, a_number: CoreAddr, b_number: CoreAddr) -> bool {
    (selects_a(modifier) ==> a_number == 0) && (selects_b(modifier) ==> b_number == 0)
}

/// Some number of the B-value that the modifier selects is not zero.
pub open spec fn b_value_is_nonzero(
    modifier: Modifier,
    a_number: CoreAddr,
    b_number: CoreAddr,
) -> bool {
    (selects_a(modifier) && a_number != 0) || (selects_b(modifier) && b_number != 0)
}

/// `Jmz` jumps if the B-value is zero.
pub open spec fn jmz_effect(
    regs: RegisterValues,
    core: Seq<CompleteInstruction>,
    pspace: PSpaceView,
) -> Effect {
    jump_if(
        b_value_is_zero(regs.current.instr.modifier, regs.b.a_field, regs.b.b_field),
        regs,
        core,
        pspace,
    )
}

/// `Jmn` jumps if any selected number of the B-value is not zero.
pub open spec fn jmn_effect(
    regs: RegisterValues,
    core: Seq<CompleteInstruction>,
    pspace: PSpaceView,
) -> Effect {
    jump_if(
        b_value_is_nonzero(regs.current.instr.modifier, regs.b.a_field, regs.b.b_field),
        regs,
        core,
        pspace,
    )
}

/// A field less one, modulo the core size.
pub open spec fn less_one(value: CoreAddr, size: int) -> CoreAddr {
    spec_offset(value as int, -1, size) as u32
}

/// `Djn` decrements the selected numbers of the B-target, and jumps if any
/// selected number of the B-value, decremented as well, is not zero.
pub open spec fn djn_effect(
    regs: RegisterValues,
    core: Seq<CompleteInstruction>,
    pspace: PSpaceView,
) -> Effect {
    let modifier = regs.current.instr.modifier;
    let size = core.len() as int;
    let at = regs.b.idx as int;
    let jump = b_value_is_nonzero(
        modifier,
        less_one(regs.b.a_field, size),
        less_one(regs.b.b_field, size),
    );
    Effect {
        core: core.update(
            at,
            CompleteInstruction {
                instr: core[at].instr,
                a_field: if selects_a(modifier) {
                    less_one(core[at].a_field, size)
                } else {
                    core[at].a_field
                },
                b_field: if selects_b(modifier) {
                    less_one(core[at].b_field, size)
                } else {
                    core[at].b_field
                },
            },
        ),
        queued: jump_if(jump, regs, core, pspace).queued,
        pspace,
        error: None,
    }
}

/// `Spl` queues the next instruction and then the A-pointer.
pub open spec fn spl_effect(
    regs: RegisterValues,
    core: Seq<CompleteInstruction>,
    pspace: PSpaceView,
) -> Effect {
    only_queue(core, pspace, Queued::Two(pc_after(regs, 1, core.len() as int), regs.a.idx))
}

/// Every A-value that the modifier routes is less than the number of the
/// B-value that it is routed to.
pub open spec fn a_value_is_less(regs: RegisterValues) -> bool {
    let modifier = regs.current.instr.modifier;
    &&& routed_to_a(modifier, regs.a) matches Some(value) ==> value < regs.b.a_field
    &&& routed_to_b(modifier, regs.a) matches Some(value) ==> value < regs.b.b_field
}

/// Every A-value that the modifier routes equals the number of the B-value
/// that it is routed to; with `I` the two instructions are equal as well.
pub open spec fn a_value_is_equal(regs: RegisterValues) -> bool {
    let modifier = regs.current.instr.modifier;
    &&& routed_to_a(modifier, regs.a) matches Some(value) ==> value == regs.b.a_field
    &&& routed_to_b(modifier, regs.a) matches Some(value) ==> value == regs.b.b_field
    &&& modifier == Modifier::I ==> regs.a.instr == regs.b.instr
}

/// `Slt` skips the next instruction if the A-value is less than the B-value.
pub open spec fn slt_effect(
    regs: RegisterValues,
    core: Seq<CompleteInstruction>,
    pspace: PSpaceView,
) -> Effect {
    skip_if(a_value_is_less(regs), regs, core, pspace)
}

/// `Seq` skips the next instruction if the A-value equals the B-value.
pub open spec fn seq_effect(
    regs: RegisterValues,
    core: Seq<CompleteInstruction>,
    pspace: PSpaceView,
) -> Effect {
    skip_if(a_value_is_equal(regs), regs, core, pspace)
}

/// `Sne` skips the next instruction if the A-value differs from the B-value.
pub open spec fn sne_effect(
    regs: RegisterValues,
    core: Seq<CompleteInstruction>,
    pspace: PSpaceView,
) -> Effect {
    skip_if(!a_value_is_equal(regs), regs, core, pspace)
}

/// `Nop` queues the next instruction.
pub open spec fn nop_effect(
    regs: RegisterValues,
    core: Seq<CompleteInstruction>,
    pspace: PSpaceView,
) -> Effect {
    jump_if(false, regs, core, pspace)
}

/// The number of the A-register that `Ldp` takes its index from and `Stp` its
/// value: the A-number with `A` and `AB`, else the B-number.
pub open spec fn pspace_source(modifier: Modifier, a: RegisterValue) -> CoreAddr {
    if modifier == Modifier::A || modifier == Modifier::AB {
        a.a_field
    } else {
        a.b_field
    }
}

/// Whether `Ldp` writes, and `Stp` takes its index from, the A-number of the
/// B-operand: with `A` and `BA`.  Else it is the B-number.
pub open spec fn pspace_uses_a(modifier: Modifier) -> bool {
    modifier == Modifier::A || modifier == Modifier::BA
}

/// `Ldp` reads the PSPACE of the warrior at an index given by the A-value,
/// taken modulo the size of the PSPACE, writes what it read to the B-target,
/// and queues the next instruction.  It fails without a trace if the warrior
/// has no PSPACE.
pub open spec fn ldp_effect(
    regs: RegisterValues,
    core: Seq<CompleteInstruction>,
    pspace: PSpaceView,
    warrior_id: u64,
) -> Effect {
    let modifier = regs.current.instr.modifier;
    let at = regs.b.idx as int;
    if pspace.size == 0 {
        failure(core, pspace, ErrorKind::UnsupportedFeature)
    } else {
        let index = (pspace_source(modifier, regs.a) as int % pspace.size as int) as u32;
        match pspace.read(index, warrior_id) {
            None => failure(core, pspace, ErrorKind::InvalidParam),
            Some(value) => Effect {
                core: core.update(
                    at,
                    CompleteInstruction {
                        instr: core[at].instr,
                        a_field: if pspace_uses_a(modifier) {
                            value
                        } else {
                            core[at].a_field
                        },
                        b_field: if pspace_uses_a(modifier) {
                            core[at].b_field
                        } else {
                            value
                        },
                    },
                ),
                queued: Queued::One(pc_after(regs, 1, core.len() as int)),
                pspace,
                error: None,
            },
        }
    }
}

/// `Stp` writes the A-value to the PSPACE of the warrior at an index given by
/// the B-value, taken modulo the size of the PSPACE, and queues the next
/// instruction.  It fails without a trace if the warrior has no PSPACE.
pub open spec fn stp_effect(
    regs: RegisterValues,
    core: Seq<CompleteInstruction>,
    pspace: PSpaceView,
    warrior_id: u64,
) -> Effect {
    let modifier = regs.current.instr.modifier;
    let value = pspace_source(modifier, regs.a);
    let number = if pspace_uses_a(modifier) {
        regs.b.a_field
    } else {
        regs.b.b_field
    };
    if pspace.size == 0 {
        failure(core, pspace, ErrorKind::UnsupportedFeature)
    } else {
        match pspace.write((number as int % pspace.size as int) as u32, value, warrior_id) {
            None => failure(core, pspace, ErrorKind::InvalidParam),
            Some(written) => Effect {
                core,
                queued: Queued::One(pc_after(regs, 1, core.len() as int)),
                pspace: written,
                error: None,
            },
        }
    }
}

/// What the instruction in the registers does when `warrior_id` executes it.
pub open spec fn execute(
    regs: RegisterValues,
    core: Seq<CompleteInstruction>,
    pspace: PSpaceView,
    warrior_id: u64,
) -> Effect {
    match regs.current.instr.opcode {
        Opcode::Dat => dat_effect(core, pspace),
        Opcode::Mov => mov_effect(regs, core, pspace),
        Opcode::Add | Opcode::Sub | Opcode::Mul | Opcode::Div | Opcode::Mod => arithmetic_effect(
            regs,
            core,
            pspace,
        ),
        Opcode::Jmp => jmp_effect(regs, core, pspace),
        Opcode::Jmz => jmz_effect(regs, core, pspace),
        Opcode::Jmn => jmn_effect(regs, core, pspace),
        Opcode::Djn => djn_effect(regs, core, pspace),
        Opcode::Spl => spl_effect(regs, core, pspace),
        Opcode::Slt => slt_effect(regs, core, pspace),
        Opcode::Cmp | Opcode::SeqOp => seq_effect(regs, core, pspace),
        Opcode::Sne => sne_effect(regs, core, pspace),
        Opcode::Nop => nop_effect(regs, core, pspace),
        Opcode::Ldp => ldp_effect(regs, core, pspace, warrior_id),
        Opcode::Stp => stp_effect(regs, core, pspace, warrior_id),
    }
}


/// The instruction in the registers can be executed on this core and PSPACE
/// store: the core has cells, core and registers are valid for its size, and
/// the store is well formed and holds values that fit a field of the core.
pub open spec fn executable(
    regs: RegisterValues,
    core: Seq<CompleteInstruction>,
    pspace: PSpaceView,
) -> bool {
    &&& core.len() > 0
    &&& core_valid(core)
    &&& regs.valid(core.len() as int)
    &&& pspace.wf()
    &&& pspace.bounded(core.len() as int)
}

/// Every program counter in `queued` is an address of a core of `size` cells.
pub open spec fn queued_valid(queued: Queued, size: int) -> bool {
    match queued {
        Queued::Nothing => true,
        Queued::One(pc) => pc < size,
        Queued::Two(first, second) => first < size && second < size,
    }
}

/// Executing an instruction keeps the core valid and the PSPACE store well
/// formed, and queues addresses of the core only.  An instruction that fails
/// changes nothing.
pub proof fn lemma_execute_keeps_valid(
    regs: RegisterValues,
    core: Seq<CompleteInstruction>,
    pspace: PSpaceView,
    warrior_id: u64,
)
    requires
        executable(regs, core, pspace),
    ensures
        ({
            let effect = execute(regs, core, pspace, warrior_id);
            &&& effect.core.len() == core.len()
            &&& core_valid(effect.core)
            &&& queued_valid(effect.queued, core.len() as int)
            &&& effect.pspace.size == pspace.size
            &&& effect.pspace.wf()
            &&& effect.pspace.bounded(core.len() as int)
            &&& effect.error is Some ==> effect.core == core && effect.pspace == pspace
                && effect.queued is Nothing
        }),
{
    let size = core.len() as int;
    let op = regs.current.instr.opcode;
    let modifier = regs.current.instr.modifier;
    let effect = execute(regs, core, pspace, warrior_id);
    if is_arithmetic(op) {
        lemma_arithmetic_fits(op, regs.b.a_field, regs.a.a_field, size);
        lemma_arithmetic_fits(op, regs.b.a_field, regs.a.b_field, size);
        lemma_arithmetic_fits(op, regs.b.b_field, regs.a.a_field, size);
        lemma_arithmetic_fits(op, regs.b.b_field, regs.a.b_field, size);
    } else if op == Opcode::Ldp {
        if effect.error is None {
            let index = (pspace_source(modifier, regs.a) as int % pspace.size as int) as u32;
            if index != 0 {
                let pin = pspace.shared_pin(index, warrior_id)->0;
                assert(pspace.pages.contains_key(pin));
                assert(pspace.pages[pin][index as int] < size);
            }
        }
    } else if op == Opcode::Stp {
        if effect.error is None {
            let number = if pspace_uses_a(modifier) {
                regs.b.a_field
            } else {
                regs.b.b_field
            };
            lemma_write_keeps(
                pspace,
                (number as int % pspace.size as int) as u32,
                pspace_source(modifier, regs.a),
                warrior_id,
                size,
            );
        }
    }
}

/// The result of an arithmetic opcode on two fields is a field again.
proof fn lemma_arithmetic_fits(op: Opcode, b_value: CoreAddr, a_value: CoreAddr, size: int)
    requires
        size > 0,
        b_value < size,
    ensures
        arithmetic(op, b_value, a_value, size) matches Some(result) ==> result < size,
{
    if a_value != 0 {
        let b = b_value as int;
        let a = a_value as int;
        assert(0 <= b / a <= b) by (nonlinear_arith)
            requires
                b >= 0,
                a > 0,
        ;
        assert(0 <= b % a <= b) by (nonlinear_arith)
            requires
                b >= 0,
                a > 0,
        ;
    }
}

/// The registers of a cycle and the parts of the machine that the instruction
/// may change.
pub struct OpInputs<'a> {
    /// The warrior that executes the instruction.
    pub warrior_id: u64,
    /// The evaluated operands and the instruction.
    pub regs: &'a RegisterValues,
    /// The size of the core.
    pub core_size: CoreAddr,
    /// The process queues.  An instruction queues processes, but takes none.
    pub pq: &'a mut ProcessQueueSet,
    /// The cells of the core.
    pub core: &'a mut [CompleteInstruction],
    /// The PSPACE store.
    pub pspace: &'a mut PSpace,
}

impl<'a> OpInputs<'a> {
    /// The inputs fit together: the core has cells, as many as the inputs
    /// say; the B-target is one of them; and the warrior has a process queue.
    pub open spec fn ready(&self) -> bool {
        &&& self.core_size > 0
        &&& self.core@.len() == self.core_size
        &&& self.regs.b.idx < self.core_size
        &&& self.warrior_id < self.pq@.len()
    }

    /// The machine was changed as `effect` says: `core`, `pq` and `pspace` are
    /// what became of the parts that these inputs borrow, and `result` is what
    /// the operation returned.
    pub open spec fn performed(
        &self,
        effect: Effect,
        core: Seq<CompleteInstruction>,
        pq: ProcessQueueSet,
        pspace: PSpaceView,
        result: EmulatorResult<()>,
    ) -> bool {
        &&& core == effect.core
        &&& pq.capacity() == self.pq.capacity()
        &&& pq@ == self.pq@.update(
            self.warrior_id as int,
            enqueue(self.pq@[self.warrior_id as int], effect.queued, self.pq.capacity()),
        )
        &&& pspace == effect.pspace
        &&& match effect.error {
            None => result is Ok,
            Some(kind) => result matches Err(e) && e.kind() == kind,
        }
    }

    /// The machine was left as it was, and `result` is an internal error.
    pub open spec fn refused(
        &self,
        core: Seq<CompleteInstruction>,
        pq: ProcessQueueSet,
        pspace: PSpaceView,
        result: EmulatorResult<()>,
    ) -> bool {
        &&& core == self.core@
        &&& pq == *self.pq
        &&& pspace == self.pspace@
        &&& result matches Err(e) && e.kind() == ErrorKind::InternalError
    }

    /// What an operation does with these inputs.  If they fit together, it
    /// changes the machine as `effect` says; if they do not, it refuses to
    /// work on them.
    pub open spec fn operated(
        &self,
        effect: Effect,
        core: Seq<CompleteInstruction>,
        pq: ProcessQueueSet,
        pspace: PSpaceView,
        result: EmulatorResult<()>,
    ) -> bool {
        if self.ready() {
            self.performed(effect, core, pq, pspace, result)
        } else {
            self.refused(core, pq, pspace, result)
        }
    }

    /// Checks that the inputs fit together.
    ///
    /// # Errors
    ///
    /// Returns [`EmulatorError::InternalError`] if they do not.
    fn check(&self) -> (r: EmulatorResult<()>)
        ensures
            self.ready() ==> r is Ok,
            !self.ready() ==> (r matches Err(e) && e.kind() == ErrorKind::InternalError),
    {
        if self.core_size == 0 {
            return Err(EmulatorError::InternalError("Core Size cannot be zero"));
        }
        if self.core.len() != self.core_size as usize {
            return Err(EmulatorError::InternalError("the core has not the size it should have"));
        }
        if self.regs.b.idx >= self.core_size {
            return Err(EmulatorError::InternalError("attempt to write to invalid core index"));
        }
        if self.warrior_id >= self.pq.warriors() as u64 {
            return Err(
                EmulatorError::InternalError("a process queue doesn't exist for this warrior"),
            );
        }
        Ok(())
    }

    /// Hands out the cell of the core at `addr`, and gives up the rest.
    ///
    /// # Errors
    ///
    /// Returns [`EmulatorError::InternalError`] if `addr` is not an address of
    /// the core.
    fn core_get_mut(self, addr: CoreAddr) -> (r: EmulatorResult<&'a mut CompleteInstruction>)
        ensures
            addr < old(self.core)@.len() ==> (r matches Ok(cell) && *cell == old(
                self.core,
            )@[addr as int] && final(self.core)@ == old(self.core)@.update(
                addr as int,
                *final(cell),
            )),
            addr >= old(self.core)@.len() ==> (r matches Err(e) && e.kind()
                == ErrorKind::InternalError) && final(self.core)@ == old(self.core)@,
            *final(self.pq) == *old(self.pq),
            *final(self.pspace) == *old(self.pspace),
    {
        if (addr as usize) < self.core.len() {
            Ok(&mut self.core[addr as usize])
        } else {
            Err(EmulatorError::InternalError("attempt to write to invalid core index"))
        }
    }
}

/// Implementation of the [`Opcode::Dat`] instruction.
pub fn dat_op(inputs: OpInputs) -> (r: EmulatorResult<()>)
    ensures
        inputs.operated(
            dat_effect(old(inputs.core)@, old(inputs.pspace)@),
            final(inputs.core)@,
            *final(inputs.pq),
            final(inputs.pspace)@,
            r,
        ),
{
    inputs.check()?;
    proof {
        let queues = inputs.pq@;
        assert(queues =~= queues.update(inputs.warrior_id as int, queues[inputs.warrior_id as int]));
    }
    Ok(())
}

/// Implementation of the [`Opcode::Mov`] instruction.
pub fn mov_op(inputs: OpInputs) -> (r: EmulatorResult<()>)
    ensures
        inputs.operated(
            mov_effect(*inputs.regs, old(inputs.core)@, old(inputs.pspace)@),
            final(inputs.core)@,
            *final(inputs.pq),
            final(inputs.pspace)@,
            r,
        ),
{
    inputs.check()?;
    let next_pc = offset(inputs.regs.current.idx, 1, inputs.core_size)?;
    inputs.pq.push_back(next_pc, inputs.warrior_id)?;
    let a = inputs.regs.a;
    let b_pointer = inputs.regs.b.idx;
    match inputs.regs.current.instr.modifier {
        Modifier::A => {
            // Replaces the A-number of the B-target with the A-number of the
            // A-instruction.
            inputs.core_get_mut(b_pointer)?.a_field = a.a_field;
        },
        Modifier::B => {
            // Replaces the B-number of the B-target with the B-number of the
            // A-instruction.
            inputs.core_get_mut(b_pointer)?.b_field = a.b_field;
        },
        Modifier::AB => {
            // Replaces the B-number of the B-target with the A-number of the
            // A-instruction.
            inputs.core_get_mut(b_pointer)?.b_field = a.a_field;
        },
        Modifier::BA => {
            // Replaces the A-number of the B-target with the B-number of the
            // A-instruction.
            inputs.core_get_mut(b_pointer)?.a_field = a.b_field;
        },
        Modifier::F => {
            // Replaces both numbers of the B-target with the same numbers of
            // the A-instruction.
            let target = inputs.core_get_mut(b_pointer)?;
            target.a_field = a.a_field;
            target.b_field = a.b_field;
        },
        Modifier::X => {
            // Replaces both numbers of the B-target with the opposite numbers
            // of the A-instruction.
            let target = inputs.core_get_mut(b_pointer)?;
            target.a_field = a.b_field;
            target.b_field = a.a_field;
        },
        Modifier::I => {
            // Replaces the B-target with the A-instruction.
            let target = inputs.core_get_mut(b_pointer)?;
            target.instr = a.instr;
            target.a_field = a.a_field;
            target.b_field = a.b_field;
        },
    };
    Ok(())
}


/// Perform the arithmetic operation of the executing instruction on two
/// fields, modulo the core size.
///
/// Returns `None` if the operation divides and the right hand side, the
/// divisor, is zero.
///
/// # Errors
///
/// The result holds [`EmulatorError::InternalError`] if the executing
/// instruction is not an arithmetic one.
fn perform_arithmetic(lhs: CoreAddr, rhs: CoreAddr, inputs: &OpInputs) -> (r: Option<
    EmulatorResult<CoreAddr>,
>)
    requires
        inputs.core_size > 0,
    ensures
        is_arithmetic(inputs.regs.current.instr.opcode) ==> match arithmetic(
            inputs.regs.current.instr.opcode,
            lhs,
            rhs,
            inputs.core_size as int,
        ) {
            Some(value) => r == Some(Ok::<CoreAddr, EmulatorError>(value)),
            None => r is None,
        },
        !is_arithmetic(inputs.regs.current.instr.opcode) ==> (r matches Some(Err(e)) && e.kind()
            == ErrorKind::InternalError),
{
    match inputs.regs.current.instr.opcode {
        Opcode::Add => Some(offset(lhs, rhs as i64, inputs.core_size)),
        Opcode::Sub => Some(offset(lhs, -(rhs as i64), inputs.core_size)),
        Opcode::Mul => {
            assert(lhs * rhs <= 0xffff_ffff * 0xffff_ffff) by (nonlinear_arith)
                requires
                    0 <= lhs <= 0xffff_ffff,
                    0 <= rhs <= 0xffff_ffff,
            ;
            let product: u64 = (lhs as u64) * (rhs as u64);
            let normalized: u64 = product % (inputs.core_size as u64);
            Some(Ok(normalized as u32))
        },
        Opcode::Div => if rhs != 0 {
            Some(Ok(lhs / rhs))
        } else {
            None
        },
        Opcode::Mod => if rhs != 0 {
            Some(Ok(lhs % rhs))
        } else {
            None
        },
        _ => Some(
            Err(
                EmulatorError::InternalError(
                    "fn arithmetic_op should only be called with Add, Sub, Mul, Div, or Mod",
                ),
            ),
        ),
    }
}

/// Implementation of the [`Opcode::Add`], [`Opcode::Sub`], [`Opcode::Mul`],
/// [`Opcode::Div`], and [`Opcode::Mod`] instructions.
///
/// # Errors
///
/// Returns [`EmulatorError::InternalError`] if the executing instruction is
/// none of these.  Nothing changes then.
pub fn arithmetic_op(inputs: OpInputs) -> (r: EmulatorResult<()>)
    ensures
        inputs.operated(
            arithmetic_effect(*inputs.regs, old(inputs.core)@, old(inputs.pspace)@),
            final(inputs.core)@,
            *final(inputs.pq),
            final(inputs.pspace)@,
            r,
        ),
{
    inputs.check()?;
    let a = inputs.regs.a;
    let b = inputs.regs.b;
    let next_pc = offset(inputs.regs.current.idx, 1, inputs.core_size)?;
    let war_id = inputs.warrior_id;
    proof {
        let queues = inputs.pq@;
        assert(queues =~= queues.update(war_id as int, queues[war_id as int]));
        let core = inputs.core@;
        assert(core =~= core.update(b.idx as int, core[b.idx as int]));
    }
    match inputs.regs.current.instr.opcode {
        Opcode::Add | Opcode::Sub | Opcode::Mul | Opcode::Div | Opcode::Mod => {},
        _ => {
            return Err(
                EmulatorError::InternalError(
                    "fn arithmetic_op should only be called with Add, Sub, Mul, Div, or Mod",
                ),
            );
        },
    }

    match inputs.regs.current.instr.modifier {
        Modifier::A => {
            // The A-value is the A-number of the A-instruction, the B-value
            // the A-number of the B-instruction.  Writes the A-number of the
            // B-target.
            if let Some(res) = perform_arithmetic(b.a_field, a.a_field, &inputs) {
                inputs.pq.push_back(next_pc, war_id)?;
                inputs.core_get_mut(b.idx)?.a_field = res?;
            }
        },
        Modifier::B => {
            // The A-value is the B-number of the A-instruction, the B-value
            // the B-number of the B-instruction.  Writes the B-number of the
            // B-target.
            if let Some(res) = perform_arithmetic(b.b_field, a.b_field, &inputs) {
                inputs.pq.push_back(next_pc, war_id)?;
                inputs.core_get_mut(b.idx)?.b_field = res?;
            }
        },
        Modifier::AB => {
            // The A-value is the A-number of the A-instruction, the B-value
            // the B-number of the B-instruction.  Writes the B-number of the
            // B-target.
            if let Some(res) = perform_arithmetic(b.b_field, a.a_field, &inputs) {
                inputs.pq.push_back(next_pc, war_id)?;
                inputs.core_get_mut(b.idx)?.b_field = res?;
            }
        },
        Modifier::BA => {
            // The A-value is the B-number of the A-instruction, the B-value
            // the A-number of the B-instruction.  Writes the A-number of the
            // B-target.
            if let Some(res) = perform_arithmetic(b.a_field, a.b_field, &inputs) {
                inputs.pq.push_back(next_pc, war_id)?;
                inputs.core_get_mut(b.idx)?.a_field = res?;
            }
        },
        Modifier::F | Modifier::I => {
            // Both numbers, A with A and B with B.  `I` works as `F` does.
            let first_result = perform_arithmetic(b.a_field, a.a_field, &inputs);
            let second_result = perform_arithmetic(b.b_field, a.b_field, &inputs);
            match (first_result, second_result) {
                (Some(first), Some(second)) => {
                    // No division by zero: continue as normal.
                    inputs.pq.push_back(next_pc, war_id)?;
                    let target = inputs.core_get_mut(b.idx)?;
                    target.a_field = first?;
                    target.b_field = second?;
                },
                (Some(first), None) => {
                    // The second result divides by zero: write the first and
                    // queue nothing.
                    inputs.core_get_mut(b.idx)?.a_field = first?;
                },
                (None, Some(second)) => {
                    // The first result divides by zero: write the second and
                    // queue nothing.
                    inputs.core_get_mut(b.idx)?.b_field = second?;
                },
                (None, None) => {
                    // Both results divide by zero: write and queue nothing.
                },
            };
        },
        Modifier::X => {
            // Both numbers, A with B and B with A.
            let first_result = perform_arithmetic(b.b_field, a.a_field, &inputs);
            let second_result = perform_arithmetic(b.a_field, a.b_field, &inputs);
            match (first_result, second_result) {
                (Some(first), Some(second)) => {
                    // No division by zero: continue as normal.
                    inputs.pq.push_back(next_pc, war_id)?;
                    let target = inputs.core_get_mut(b.idx)?;
                    target.b_field = first?;
                    target.a_field = second?;
                },
                (Some(first), None) => {
                    // The second result divides by zero: write the first and
                    // queue nothing.
                    inputs.core_get_mut(b.idx)?.b_field = first?;
                },
                (None, Some(second)) => {
                    // The first result divides by zero: write the second and
                    // queue nothing.
                    inputs.core_get_mut(b.idx)?.a_field = second?;
                },
                (None, None) => {
                    // Both results divide by zero: write and queue nothing.
                },
            }
        },
    }
    Ok(())
}

/// Implementation of the [`Opcode::Jmp`] instruction.
pub fn jmp_op(inputs: OpInputs) -> (r: EmulatorResult<()>)
    ensures
        inputs.operated(
            jmp_effect(*inputs.regs, old(inputs.core)@, old(inputs.pspace)@),
            final(inputs.core)@,
            *final(inputs.pq),
            final(inputs.pspace)@,
            r,
        ),
{
    inputs.check()?;
    inputs.pq.push_back(inputs.regs.a.idx, inputs.warrior_id)?;
    Ok(())
}

/// Implementation of the [`Opcode::Jmz`] instruction.
pub fn jmz_op(inputs: OpInputs) -> (r: EmulatorResult<()>)
    ensures
        inputs.operated(
            jmz_effect(*inputs.regs, old(inputs.core)@, old(inputs.pspace)@),
            final(inputs.core)@,
            *final(inputs.pq),
            final(inputs.pspace)@,
            r,
        ),
{
    inputs.check()?;
    // `I` works as `F` does: it jumps if both numbers of the B-value are zero.
    let a = inputs.regs.a;
    let b = inputs.regs.b;
    let is_zero = match inputs.regs.current.instr.modifier {
        Modifier::A | Modifier::BA => b.a_field == 0,
        Modifier::B | Modifier::AB => b.b_field == 0,
        Modifier::F | Modifier::X | Modifier::I => b.a_field == 0 && b.b_field == 0,
    };
    if is_zero {
        inputs.pq.push_back(a.idx, inputs.warrior_id)?;
    } else {
        let next_pc = offset(inputs.regs.current.idx, 1, inputs.core_size)?;
        inputs.pq.push_back(next_pc, inputs.warrior_id)?;
    }
    Ok(())
}

/// Implementation of the [`Opcode::Jmn`] instruction.
pub fn jmn_op(inputs: OpInputs) -> (r: EmulatorResult<()>)
    ensures
        inputs.operated(
            jmn_effect(*inputs.regs, old(inputs.core)@, old(inputs.pspace)@),
            final(inputs.core)@,
            *final(inputs.pq),
            final(inputs.pspace)@,
            r,
        ),
{
    inputs.check()?;
    // `I` works as `F` does: it jumps if either number of the B-value is not
    // zero.  This is not the negation of the condition of `Jmz`.
    let a = inputs.regs.a;
    let b = inputs.regs.b;
    let is_non_zero = match inputs.regs.current.instr.modifier {
        Modifier::A | Modifier::BA => b.a_field != 0,
        Modifier::B | Modifier::AB => b.b_field != 0,
        Modifier::F | Modifier::X | Modifier::I => b.a_field != 0 || b.b_field != 0,
    };
    if is_non_zero {
        inputs.pq.push_back(a.idx, inputs.warrior_id)?;
    } else {
        let next_pc = offset(inputs.regs.current.idx, 1, inputs.core_size)?;
        inputs.pq.push_back(next_pc, inputs.warrior_id)?;
    }
    Ok(())
}

/// Implementation of the [`Opcode::Djn`] instruction.
pub fn djn_op(inputs: OpInputs) -> (r: EmulatorResult<()>)
    ensures
        inputs.operated(
            djn_effect(*inputs.regs, old(inputs.core)@, old(inputs.pspace)@),
            final(inputs.core)@,
            *final(inputs.pq),
            final(inputs.pspace)@,
            r,
        ),
{
    inputs.check()?;
    // The numbers of the B-target are decremented in the core; the test is
    // made on the numbers of the B-value, decremented as well.
    let a = inputs.regs.a;
    let b = inputs.regs.b;
    let size = inputs.core_size;
    let next_pc = offset(inputs.regs.current.idx, 1, size)?;
    let war_id = inputs.warrior_id;
    let modifier = inputs.regs.current.instr.modifier;
    let at = b.idx as usize;
    if at >= inputs.core.len() {
        return Err(EmulatorError::InternalError("attempt to write to invalid core index"));
    }
    match modifier {
        Modifier::A | Modifier::BA => {
            let b_target_a = offset(inputs.core[at].a_field, -1, size)?;
            inputs.core[at].a_field = b_target_a;
            let non_zero = offset(b.a_field, -1, size)? != 0;
            if non_zero {
                inputs.pq.push_back(a.idx, war_id)?;
            } else {
                inputs.pq.push_back(next_pc, war_id)?;
            }
        },
        Modifier::B | Modifier::AB => {
            let b_target_b = offset(inputs.core[at].b_field, -1, size)?;
            inputs.core[at].b_field = b_target_b;
            let non_zero = offset(b.b_field, -1, size)? != 0;
            if non_zero {
                inputs.pq.push_back(a.idx, war_id)?;
            } else {
                inputs.pq.push_back(next_pc, war_id)?;
            }
        },
        Modifier::F | Modifier::X | Modifier::I => {
            let b_target_a = offset(inputs.core[at].a_field, -1, size)?;
            let b_target_b = offset(inputs.core[at].b_field, -1, size)?;
            inputs.core[at].a_field = b_target_a;
            inputs.core[at].b_field = b_target_b;
            let non_zero = offset(b.a_field, -1, size)? != 0 || offset(b.b_field, -1, size)? != 0;
            if non_zero {
                inputs.pq.push_back(a.idx, war_id)?;
            } else {
                inputs.pq.push_back(next_pc, war_id)?;
            }
        },
    };
    assert(inputs.core@ =~= djn_effect(*inputs.regs, old(inputs.core)@, old(inputs.pspace)@).core);
    Ok(())
}

/// Implementation of the [`Opcode::Spl`] instruction.
pub fn spl_op(inputs: OpInputs) -> (r: EmulatorResult<()>)
    ensures
        inputs.operated(
            spl_effect(*inputs.regs, old(inputs.core)@, old(inputs.pspace)@),
            final(inputs.core)@,
            *final(inputs.pq),
            final(inputs.pspace)@,
            r,
        ),
{
    inputs.check()?;
    // If the queue is full after the first, only the next instruction is
    // queued.
    let next_pc = offset(inputs.regs.current.idx, 1, inputs.core_size)?;
    inputs.pq.push_back(next_pc, inputs.warrior_id)?;
    inputs.pq.push_back(inputs.regs.a.idx, inputs.warrior_id)?;
    proof {
        let queues = old(inputs.pq)@;
        let w = inputs.warrior_id as int;
        let capacity = old(inputs.pq).capacity();
        let once = push_bounded(queues[w], next_pc, capacity);
        assert(queues.update(w, once).update(w, push_bounded(once, inputs.regs.a.idx, capacity))
            =~= queues.update(w, push_bounded(once, inputs.regs.a.idx, capacity)));
    }
    Ok(())
}

/// Implementation of the [`Opcode::Slt`] instruction.
pub fn slt_op(inputs: OpInputs) -> (r: EmulatorResult<()>)
    ensures
        inputs.operated(
            slt_effect(*inputs.regs, old(inputs.core)@, old(inputs.pspace)@),
            final(inputs.core)@,
            *final(inputs.pq),
            final(inputs.pspace)@,
            r,
        ),
{
    inputs.check()?;
    // `I` works as `F` does.
    let a = inputs.regs.a;
    let b = inputs.regs.b;
    let is_less_than = match inputs.regs.current.instr.modifier {
        Modifier::A => a.a_field < b.a_field,
        Modifier::B => a.b_field < b.b_field,
        Modifier::AB => a.a_field < b.b_field,
        Modifier::BA => a.b_field < b.a_field,
        Modifier::F | Modifier::I => a.a_field < b.a_field && a.b_field < b.b_field,
        Modifier::X => a.a_field < b.b_field && a.b_field < b.a_field,
    };
    // Skip an instruction if the condition holds.
    let amt: i64 = if is_less_than {
        2
    } else {
        1
    };
    inputs.pq.push_back(
        offset(inputs.regs.current.idx, amt, inputs.core_size)?,
        inputs.warrior_id,
    )?;
    Ok(())
}

/// Implementation of the [`Opcode::Cmp`] and [`Opcode::SeqOp`] instructions.
pub fn cmp_op(inputs: OpInputs) -> (r: EmulatorResult<()>)
    ensures
        inputs.operated(
            seq_effect(*inputs.regs, old(inputs.core)@, old(inputs.pspace)@),
            final(inputs.core)@,
            *final(inputs.pq),
            final(inputs.pspace)@,
            r,
        ),
{
    inputs.check()?;
    let a = inputs.regs.a;
    let b = inputs.regs.b;
    let is_equal = match inputs.regs.current.instr.modifier {
        Modifier::A => a.a_field == b.a_field,
        Modifier::B => a.b_field == b.b_field,
        Modifier::AB => a.a_field == b.b_field,
        Modifier::BA => a.b_field == b.a_field,
        Modifier::F => a.a_field == b.a_field && a.b_field == b.b_field,
        Modifier::X => a.a_field == b.b_field && a.b_field == b.a_field,
        Modifier::I => a.instr == b.instr && a.a_field == b.a_field && a.b_field == b.b_field,
    };
    // Skip an instruction if the condition holds.
    let amt: i64 = if is_equal {
        2
    } else {
        1
    };
    inputs.pq.push_back(
        offset(inputs.regs.current.idx, amt, inputs.core_size)?,
        inputs.warrior_id,
    )?;
    Ok(())
}

/// Implementation of the [`Opcode::Sne`] instruction.
pub fn sne_op(inputs: OpInputs) -> (r: EmulatorResult<()>)
    ensures
        inputs.operated(
            sne_effect(*inputs.regs, old(inputs.core)@, old(inputs.pspace)@),
            final(inputs.core)@,
            *final(inputs.pq),
            final(inputs.pspace)@,
            r,
        ),
{
    inputs.check()?;
    let a = inputs.regs.a;
    let b = inputs.regs.b;
    let is_not_equal = match inputs.regs.current.instr.modifier {
        Modifier::A => a.a_field != b.a_field,
        Modifier::B => a.b_field != b.b_field,
        Modifier::AB => a.a_field != b.b_field,
        Modifier::BA => a.b_field != b.a_field,
        Modifier::F => a.a_field != b.a_field || a.b_field != b.b_field,
        Modifier::X => a.a_field != b.b_field || a.b_field != b.a_field,
        Modifier::I => a.instr != b.instr || a.a_field != b.a_field || a.b_field != b.b_field,
    };
    // Skip an instruction if the condition holds.
    let amt: i64 = if is_not_equal {
        2
    } else {
        1
    };
    inputs.pq.push_back(
        offset(inputs.regs.current.idx, amt, inputs.core_size)?,
        inputs.warrior_id,
    )?;
    Ok(())
}

/// Implementation of the [`Opcode::Nop`] instruction.
pub fn nop_op(inputs: OpInputs) -> (r: EmulatorResult<()>)
    ensures
        inputs.operated(
            nop_effect(*inputs.regs, old(inputs.core)@, old(inputs.pspace)@),
            final(inputs.core)@,
            *final(inputs.pq),
            final(inputs.pspace)@,
            r,
        ),
{
    inputs.check()?;
    inputs.pq.push_back(
        offset(inputs.regs.current.idx, 1, inputs.core_size)?,
        inputs.warrior_id,
    )?;
    Ok(())
}

/// Implementation of the [`Opcode::Ldp`] instruction.
///
/// `Ldp` and `Stp` are in no ICWS standard; they work as in pMARS.  A cell of
/// a PSPACE holds one number, so the modifiers `F`, `X` and `I` have no
/// meaning of their own and work as `B` does.
///
/// # Errors
///
/// Returns [`EmulatorError::UnsupportedFeature`] if a PSPACE has no cells, and
/// [`EmulatorError::InvalidParam`] if the warrior has no PSPACE.  Nothing
/// changes then.
pub fn ldp_op(inputs: OpInputs) -> (r: EmulatorResult<()>)
    ensures
        inputs.operated(
            ldp_effect(*inputs.regs, old(inputs.core)@, old(inputs.pspace)@, inputs.warrior_id),
            final(inputs.core)@,
            *final(inputs.pq),
            final(inputs.pspace)@,
            r,
        ),
{
    inputs.check()?;
    proof {
        let queues = inputs.pq@;
        assert(queues =~= queues.update(inputs.warrior_id as int, queues[inputs.warrior_id as int]));
    }
    let a = inputs.regs.a;
    let b = inputs.regs.b;
    let pspace_size = inputs.pspace.size();
    if pspace_size == 0 {
        return Err(EmulatorError::UnsupportedFeature("this core has no pspace"));
    }
    let source_index = match inputs.regs.current.instr.modifier {
        Modifier::A | Modifier::AB => a.a_field,
        Modifier::B | Modifier::BA | Modifier::F | Modifier::X | Modifier::I => a.b_field,
    };
    let value = inputs.pspace.read(source_index % pspace_size, inputs.warrior_id)?;
    inputs.pq.push_back(
        offset(inputs.regs.current.idx, 1, inputs.core_size)?,
        inputs.warrior_id,
    )?;
    match inputs.regs.current.instr.modifier {
        Modifier::A | Modifier::BA => {
            let target = inputs.core_get_mut(b.idx)?;
            target.a_field = value;
        },
        Modifier::B | Modifier::AB | Modifier::F | Modifier::X | Modifier::I => {
            let target = inputs.core_get_mut(b.idx)?;
            target.b_field = value;
        },
    };
    Ok(())
}

/// Implementation of the [`Opcode::Stp`] instruction.
///
/// # Errors
///
/// Returns [`EmulatorError::UnsupportedFeature`] if a PSPACE has no cells, and
/// [`EmulatorError::InvalidParam`] if the warrior has no PSPACE.  Nothing
/// changes then.
pub fn stp_op(inputs: OpInputs) -> (r: EmulatorResult<()>)
    ensures
        inputs.operated(
            stp_effect(*inputs.regs, old(inputs.core)@, old(inputs.pspace)@, inputs.warrior_id),
            final(inputs.core)@,
            *final(inputs.pq),
            final(inputs.pspace)@,
            r,
        ),
{
    inputs.check()?;
    proof {
        let queues = inputs.pq@;
        assert(queues =~= queues.update(inputs.warrior_id as int, queues[inputs.warrior_id as int]));
    }
    let a = inputs.regs.a;
    let b = inputs.regs.b;
    let pspace_size = inputs.pspace.size();
    if pspace_size == 0 {
        return Err(EmulatorError::UnsupportedFeature("this core has no pspace"));
    }
    let source_value = match inputs.regs.current.instr.modifier {
        Modifier::A | Modifier::AB => a.a_field,
        Modifier::B | Modifier::BA | Modifier::F | Modifier::X | Modifier::I => a.b_field,
    };
    let pspace_dest_index = match inputs.regs.current.instr.modifier {
        Modifier::A | Modifier::BA => b.a_field,
        Modifier::B | Modifier::AB | Modifier::F | Modifier::X | Modifier::I => b.b_field,
    };
    inputs.pspace.write(pspace_dest_index % pspace_size, source_value, inputs.warrior_id)?;
    inputs.pq.push_back(
        offset(inputs.regs.current.idx, 1, inputs.core_size)?,
        inputs.warrior_id,
    )?;
    Ok(())
}


/// `Mov.I` replaces the B-target by the A-instruction, fields and all, and
/// queues the next instruction.
pub proof fn lemma_mov_i(regs: RegisterValues, core: Seq<CompleteInstruction>, pspace: PSpaceView)
    requires
        regs.current.instr.modifier == Modifier::I,
    ensures
        mov_effect(regs, core, pspace).core == core.update(
            regs.b.idx as int,
            CompleteInstruction {
                instr: regs.a.instr,
                a_field: regs.a.a_field,
                b_field: regs.a.b_field,
            },
        ),
        mov_effect(regs, core, pspace).queued == Queued::One(
            pc_after(regs, 1, core.len() as int),
        ),
        mov_effect(regs, core, pspace).pspace == pspace,
        mov_effect(regs, core, pspace).error is None,
{
}

/// An arithmetic opcode that does not divide queues the next instruction,
/// whatever its operands are.  So does one that divides, if every A-value
/// that the modifier routes is not zero.
pub proof fn lemma_arithmetic_advances(
    regs: RegisterValues,
    core: Seq<CompleteInstruction>,
    pspace: PSpaceView,
)
    requires
        is_arithmetic(regs.current.instr.opcode),
        regs.current.instr.opcode == Opcode::Div || regs.current.instr.opcode == Opcode::Mod ==> {
            &&& routed_to_a(regs.current.instr.modifier, regs.a) != Some(0u32)
            &&& routed_to_b(regs.current.instr.modifier, regs.a) != Some(0u32)
        },
    ensures
        arithmetic_effect(regs, core, pspace).queued == Queued::One(
            pc_after(regs, 1, core.len() as int),
        ),
        arithmetic_effect(regs, core, pspace).error is None,
{
}

/// A division whose routed A-values are all zero leaves the core as it is
/// and queues nothing: the process ends.
pub proof fn lemma_division_by_zero(
    regs: RegisterValues,
    core: Seq<CompleteInstruction>,
    pspace: PSpaceView,
)
    requires
        regs.current.instr.opcode == Opcode::Div || regs.current.instr.opcode == Opcode::Mod,
        regs.b.idx < core.len(),
        routed_to_a(regs.current.instr.modifier, regs.a) matches Some(value) ==> value == 0,
        routed_to_b(regs.current.instr.modifier, regs.a) matches Some(value) ==> value == 0,
    ensures
        arithmetic_effect(regs, core, pspace).core == core,
        arithmetic_effect(regs, core, pspace).queued == Queued::Nothing,
        arithmetic_effect(regs, core, pspace).pspace == pspace,
        arithmetic_effect(regs, core, pspace).error is None,
{
    assert(arithmetic_effect(regs, core, pspace).core =~= core);
}

/// A division with one routed A-value zero and the other not writes the
/// number whose divisor is not zero, leaves the other, and queues nothing.
pub proof fn lemma_division_by_one_zero(
    regs: RegisterValues,
    core: Seq<CompleteInstruction>,
    pspace: PSpaceView,
)
    requires
        regs.current.instr.opcode == Opcode::Div,
        regs.current.instr.modifier == Modifier::F || regs.current.instr.modifier == Modifier::I,
        regs.b.idx < core.len(),
        regs.a.a_field == 0,
        regs.a.b_field != 0,
    ensures
        arithmetic_effect(regs, core, pspace).core == core.update(
            regs.b.idx as int,
            CompleteInstruction {
                instr: core[regs.b.idx as int].instr,
                a_field: core[regs.b.idx as int].a_field,
                b_field: (regs.b.b_field / regs.a.b_field) as u32,
            },
        ),
        arithmetic_effect(regs, core, pspace).queued == Queued::Nothing,
{
}

/// `Spl` on a queue that is one short of the process limit queues the next
/// instruction and no more.  On a shorter queue it queues the next
/// instruction and the A-pointer, and on a full one nothing.
pub proof fn lemma_spl_at_the_limit(
    regs: RegisterValues,
    core: Seq<CompleteInstruction>,
    pspace: PSpaceView,
    queue: Seq<CoreAddr>,
    capacity: nat,
)
    ensures
        ({
            let queued = spl_effect(regs, core, pspace).queued;
            let next = pc_after(regs, 1, core.len() as int);
            &&& queue.len() + 1 == capacity ==> enqueue(queue, queued, capacity) == queue.push(
                next,
            )
            &&& queue.len() + 1 < capacity ==> enqueue(queue, queued, capacity) == queue.push(
                next,
            ).push(regs.a.idx)
            &&& queue.len() >= capacity ==> enqueue(queue, queued, capacity) == queue
        }),
{
}

/// With the modifier `I`, `Seq` and `Cmp` skip the next instruction exactly
/// if the A-register and the B-register hold the same instruction with the
/// same fields.  Two cells with equal fields and different modes are
/// different.
pub proof fn lemma_seq_i(regs: RegisterValues, core: Seq<CompleteInstruction>, pspace: PSpaceView)
    requires
        regs.current.instr.modifier == Modifier::I,
    ensures
        a_value_is_equal(regs) <==> regs.a.instr == regs.b.instr && regs.a.a_field
            == regs.b.a_field && regs.a.b_field == regs.b.b_field,
        regs.a.instr != regs.b.instr ==> seq_effect(regs, core, pspace).queued == Queued::One(
            pc_after(regs, 1, core.len() as int),
        ),
        regs.a.instr != regs.b.instr ==> sne_effect(regs, core, pspace).queued == Queued::One(
            pc_after(regs, 2, core.len() as int),
        ),
{
}

/// `Jmz` and `Jmn` are no opposites: with a B-value of which one selected
/// number is zero and the other is not, `Jmz` does not jump, and `Jmn` does.
pub proof fn lemma_jmz_jmn(regs: RegisterValues, core: Seq<CompleteInstruction>, pspace: PSpaceView)
    requires
        selects_a(regs.current.instr.modifier),
        selects_b(regs.current.instr.modifier),
        (regs.b.a_field == 0) != (regs.b.b_field == 0),
    ensures
        jmz_effect(regs, core, pspace).queued == Queued::One(pc_after(regs, 1, core.len() as int)),
        jmn_effect(regs, core, pspace).queued == Queued::One(regs.a.idx),
{
}

} // verus!
