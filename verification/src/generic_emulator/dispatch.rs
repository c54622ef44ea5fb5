//! The emulator: a core, the process queues of its warriors and their
//! PSPACE, and the cycle that runs them.

use crate::emulator_core::{
    BytecodeInstructionIdentifier, CoreAddr, CoreSettings, EmulatorCore, EmulatorError,
    EmulatorResult, ErrorKind, MAX_CORE_SIZE,
};
use crate::generic_emulator::bytecode::{decode, encode, spec_decode, spec_encode};
use crate::generic_emulator::emulation_operations::{
    arithmetic_op, cmp_op, dat_op, djn_op, enqueue, execute, jmn_op, jmp_op, jmz_op, ldp_op,
    lemma_execute_keeps_valid, mov_op, nop_op, slt_op, sne_op, spl_op, stp_op, OpInputs,
};
use crate::generic_emulator::operands::{
    core_valid, evaluate, evaluate_core, evaluate_registers, lemma_evaluate_valid,
};
use crate::generic_emulator::processes::{active_ids, ProcessQueueSet};
use crate::generic_emulator::pspace::{lemma_write_keeps, PSpace, PSpaceView};
use crate::redcode::{CompleteInstruction, Instruction, Opcode};
use itertools::Itertools;
use vstd::prelude::*;

verus! {

/// The generic emulator: core size and all other settings are chosen when it
/// is built.
pub struct Emulator {
    /// Core memory, process queues, and PSPACE.
    state: EmulatorState,
    /// The settings of this emulator.
    config: CoreSettings,
}

/// What changes while an emulator runs.
struct EmulatorState {
    /// The process queue of each warrior.
    pq: ProcessQueueSet,
    /// The cells of the core.
    core: Vec<CompleteInstruction>,
    /// The PSPACE of the warriors that were given a pin.
    pspace: PSpace,
}

/// What an [`Emulator`] holds.
pub struct EmulatorView {
    /// The settings, which never change.
    pub settings: CoreSettings,
    /// The cells of the core.
    pub core: Seq<CompleteInstruction>,
    /// The process queue of each warrior, the next process first.
    pub queues: Seq<Seq<CoreAddr>>,
    /// The PSPACE store.
    pub pspace: PSpaceView,
}

/// The outcome of a step in the model: the address of the instruction that
/// was executed, `None` for a warrior without processes, or the kind of the
/// error.
pub type StepOutcome = Result<Option<CoreAddr>, ErrorKind>;

impl EmulatorView {
    /// The invariant of an emulator.  The core has the size of the settings,
    /// at most 2^31, and each field of each cell is an address of the core.
    /// There is a queue for each warrior; none is longer than the process
    /// limit, and each holds addresses of the core.  The PSPACE store is well
    /// formed and holds values that fit a field of the core.
    pub open spec fn wf(self) -> bool {
        &&& self.settings.core_size <= MAX_CORE_SIZE
        &&& self.settings.pspace_size <= self.settings.core_size
        &&& self.settings.warriors <= usize::MAX
        &&& self.core.len() == self.settings.core_size
        &&& core_valid(self.core)
        &&& self.queues.len() == self.settings.warriors
        &&& forall|w: int|
            0 <= w < self.queues.len() ==> (#[trigger] self.queues[w]).len()
                <= self.settings.processes
        &&& forall|w: int, i: int|
            0 <= w < self.queues.len() && 0 <= i < self.queues[w].len()
                ==> #[trigger] self.queues[w][i] < self.settings.core_size
        &&& self.pspace.size == self.settings.pspace_size
        &&& self.pspace.wf()
        &&& self.settings.core_size > 0 ==> self.pspace.bounded(self.settings.core_size as int)
    }

    /// The emulator as it is built: every cell of the core holds the default
    /// instruction, no warrior has a process, and there is no PSPACE.
    pub open spec fn initial(
        core_size: u64,
        pspace_size: u64,
        warriors: u64,
        processes: u64,
    ) -> EmulatorView {
        EmulatorView {
            settings: CoreSettings {
                core_size,
                pspace_size,
                warriors,
                processes,
                bytecode_format: None,
            },
            core: Seq::new(core_size as nat, |i: int| CompleteInstruction::spec_default()),
            queues: Seq::new(warriors as nat, |w: int| Seq::<CoreAddr>::empty()),
            pspace: PSpaceView::empty(pspace_size as nat),
        }
    }

    /// The emulator after a reset: every cell of the core holds `cell`, no
    /// warrior has a process, and there is no PSPACE.
    pub open spec fn reset(self, cell: CompleteInstruction) -> EmulatorView {
        EmulatorView {
            settings: self.settings,
            core: Seq::new(self.settings.core_size as nat, |i: int| cell),
            queues: Seq::new(self.settings.warriors as nat, |w: int| Seq::<CoreAddr>::empty()),
            pspace: PSpaceView::empty(self.settings.pspace_size as nat),
        }
    }

    /// What is read from the cell at `addr`: the bytecode of its instruction,
    /// its A-field and its B-field.
    pub open spec fn read_core(self, addr: CoreAddr) -> (
        BytecodeInstructionIdentifier,
        CoreAddr,
        CoreAddr,
    ) {
        (
            spec_encode(self.core[addr as int].instr),
            self.core[addr as int].a_field,
            self.core[addr as int].b_field,
        )
    }

    /// The emulator with the queue of a warrior replaced.
    pub open spec fn with_queue(self, warrior_id: u64, queue: Seq<CoreAddr>) -> EmulatorView {
        EmulatorView { queues: self.queues.update(warrior_id as int, queue), ..self }
    }

    /// The emulator after `warrior_id` executed the instruction at `pc`, and
    /// the kind of the error if the instruction failed.  The operands are
    /// evaluated, then the instruction is executed on the core that the
    /// evaluation left.
    pub open spec fn execute_at(self, pc: CoreAddr, warrior_id: u64) -> (
        EmulatorView,
        Option<ErrorKind>,
    ) {
        let regs = evaluate_registers(self.core, pc as int);
        let effect = execute(regs, evaluate_core(self.core, pc as int), self.pspace, warrior_id);
        (
            EmulatorView {
                settings: self.settings,
                core: effect.core,
                queues: self.queues.update(
                    warrior_id as int,
                    enqueue(
                        self.queues[warrior_id as int],
                        effect.queued,
                        self.settings.processes as nat,
                    ),
                ),
                pspace: effect.pspace,
            },
            effect.error,
        )
    }

    /// The emulator after a step of `warrior_id`, and the outcome of the
    /// step.  A warrior with a process has its next program counter taken
    /// from its queue and the instruction there executed.
    pub open spec fn step(self, warrior_id: u64) -> (EmulatorView, StepOutcome) {
        if warrior_id >= self.settings.warriors {
            (self, Err(ErrorKind::InvalidParam))
        } else if self.queues[warrior_id as int].len() == 0 {
            (self, Ok(None))
        } else {
            let pc = self.queues[warrior_id as int][0];
            let (after, error) = self.with_queue(
                warrior_id,
                self.queues[warrior_id as int].drop_first(),
            ).execute_at(pc, warrior_id);
            (
                after,
                match error {
                    None => Ok(Some(pc)),
                    Some(kind) => Err(kind),
                },
            )
        }
    }

    /// The emulator after each of `warriors` took a step, in order, and the
    /// kind of the error that ended the cycle early, if one did.
    pub open spec fn cycle(self, warriors: Seq<u64>) -> (EmulatorView, Option<ErrorKind>)
        decreases warriors.len(),
    {
        if warriors.len() == 0 {
            (self, None)
        } else {
            let (after, outcome) = self.step(warriors[0]);
            match outcome {
                Err(kind) => (after, Some(kind)),
                Ok(_) => after.cycle(warriors.drop_first()),
            }
        }
    }

    /// The emulator after a run, the number of cycles completed, and the kind
    /// of the error that ended the run, if one did.  A cycle is run while
    /// fewer than `cycles` are completed and more than `warriors_remaining`
    /// warriors are active.  The warriors that take a step in a cycle are
    /// those that are active when it begins, in ascending order.
    pub open spec fn run(self, cycles: nat, warriors_remaining: u64) -> (
        EmulatorView,
        nat,
        Option<ErrorKind>,
    )
        decreases cycles,
    {
        if cycles == 0 || active_ids(self.queues).len() <= warriors_remaining {
            (self, 0, None)
        } else {
            let (after, error) = self.cycle(active_ids(self.queues));
            match error {
                Some(kind) => (after, 0, Some(kind)),
                None => {
                    let (last, completed, error) = after.run((cycles - 1) as nat, warriors_remaining);
                    (last, completed + 1, error)
                },
            }
        }
    }
}

/// What the invariant says of a cell and of a queue: both fields of every
/// cell are addresses of the core, and no process queue is longer than the
/// process limit.
pub proof fn lemma_invariant(state: EmulatorView, addr: int, warrior_id: int)
    requires
        state.wf(),
    ensures
        0 <= addr < state.settings.core_size ==> state.core[addr].a_field
            < state.settings.core_size && state.core[addr].b_field < state.settings.core_size,
        0 <= warrior_id < state.settings.warriors ==> state.queues[warrior_id].len()
            <= state.settings.processes,
{
}

/// Executing an instruction at an address of the core keeps the invariant.
pub proof fn lemma_execute_at_keeps_wf(before: EmulatorView, pc: CoreAddr, warrior_id: u64)
    requires
        before.wf(),
        pc < before.settings.core_size,
        warrior_id < before.settings.warriors,
    ensures
        before.execute_at(pc, warrior_id).0.wf(),
        before.execute_at(pc, warrior_id).0.settings == before.settings,
{
    let size = before.core.len() as int;
    lemma_evaluate_valid(before.core, pc as int);
    let regs = evaluate_registers(before.core, pc as int);
    let core = evaluate_core(before.core, pc as int);
    lemma_execute_keeps_valid(regs, core, before.pspace, warrior_id);
    let after = before.execute_at(pc, warrior_id).0;
    assert forall|w: int, i: int|
        0 <= w < after.queues.len() && 0 <= i < after.queues[w].len()
            implies #[trigger] after.queues[w][i] < after.settings.core_size by {
        if w != warrior_id {
            assert(after.queues[w] == before.queues[w]);
        } else {
            if i < before.queues[w].len() {
                assert(after.queues[w][i] == before.queues[w][i]);
            }
        }
    }
    assert forall|w: int| 0 <= w < after.queues.len() implies (#[trigger] after.queues[w]).len()
        <= after.settings.processes by {
        if w != warrior_id {
            assert(after.queues[w] == before.queues[w]);
        }
    }
}

/// Replacing the queue of a warrior by one that is no longer than the process
/// limit and holds addresses of the core keeps the invariant.
pub proof fn lemma_with_queue_keeps_wf(before: EmulatorView, warrior_id: u64, queue: Seq<CoreAddr>)
    requires
        before.wf(),
        warrior_id < before.settings.warriors,
        queue.len() <= before.settings.processes,
        forall|i: int| 0 <= i < queue.len() ==> queue[i] < before.settings.core_size,
    ensures
        before.with_queue(warrior_id, queue).wf(),
{
    let after = before.with_queue(warrior_id, queue);
    assert forall|v: int, i: int|
        0 <= v < after.queues.len() && 0 <= i < after.queues[v].len()
            implies #[trigger] after.queues[v][i] < after.settings.core_size by {
        if v != warrior_id {
            assert(after.queues[v] == before.queues[v]);
        }
    }
    assert forall|v: int| 0 <= v < after.queues.len() implies (#[trigger] after.queues[v]).len()
        <= after.settings.processes by {
        if v != warrior_id {
            assert(after.queues[v] == before.queues[v]);
        }
    }
}

/// A step keeps the invariant.
pub proof fn lemma_step_keeps_wf(before: EmulatorView, warrior_id: u64)
    requires
        before.wf(),
    ensures
        before.step(warrior_id).0.wf(),
        before.step(warrior_id).0.settings == before.settings,
{
    if warrior_id < before.settings.warriors && before.queues[warrior_id as int].len() > 0 {
        let queue = before.queues[warrior_id as int];
        assert forall|i: int| 0 <= i < queue.drop_first().len() implies queue.drop_first()[i]
            < before.settings.core_size by {
            assert(queue.drop_first()[i] == queue[i + 1]);
        }
        lemma_with_queue_keeps_wf(before, warrior_id, queue.drop_first());
        lemma_execute_at_keeps_wf(
            before.with_queue(warrior_id, queue.drop_first()),
            queue[0],
            warrior_id,
        );
    }
}

/// A cycle keeps the invariant.
pub proof fn lemma_cycle_keeps_wf(before: EmulatorView, warriors: Seq<u64>)
    requires
        before.wf(),
    ensures
        before.cycle(warriors).0.wf(),
        before.cycle(warriors).0.settings == before.settings,
    decreases warriors.len(),
{
    if warriors.len() > 0 {
        lemma_step_keeps_wf(before, warriors[0]);
        if before.step(warriors[0]).1 is Ok {
            lemma_cycle_keeps_wf(before.step(warriors[0]).0, warriors.drop_first());
        }
    }
}

/// A run keeps the invariant: whatever is executed, every field of the core
/// stays an address of the core, and no process queue grows beyond the
/// process limit.
pub proof fn lemma_run_keeps_wf(before: EmulatorView, cycles: nat, warriors_remaining: u64)
    requires
        before.wf(),
    ensures
        before.run(cycles, warriors_remaining).0.wf(),
        before.run(cycles, warriors_remaining).0.settings == before.settings,
        before.run(cycles, warriors_remaining).1 <= cycles,
    decreases cycles,
{
    if !(cycles == 0 || active_ids(before.queues).len() <= warriors_remaining) {
        lemma_cycle_keeps_wf(before, active_ids(before.queues));
        let (after, error) = before.cycle(active_ids(before.queues));
        if error is None {
            lemma_run_keeps_wf(after, (cycles - 1) as nat, warriors_remaining);
        }
    }
}

/// After a reset, every cell of the core reads as the instruction and the
/// fields that it was reset to, and no warrior is active.
pub proof fn lemma_reset_then_read(
    before: EmulatorView,
    instr: Instruction,
    a_field: CoreAddr,
    b_field: CoreAddr,
    addr: CoreAddr,
)
    requires
        addr < before.settings.core_size,
    ensures
        before.reset(CompleteInstruction { instr, a_field, b_field }).read_core(addr) == (
            spec_encode(instr),
            a_field,
            b_field,
        ),
        active_ids(before.reset(CompleteInstruction { instr, a_field, b_field }).queues).len()
            == 0,
{
    lemma_no_active_ids(before.settings.warriors as nat);
}

/// Where every queue is empty, no warrior is active.
proof fn lemma_no_active_ids(warriors: nat)
    ensures
        active_ids(Seq::new(warriors, |w: int| Seq::<CoreAddr>::empty())).len() == 0,
    decreases warriors,
{
    if warriors > 0 {
        let queues = Seq::new(warriors, |w: int| Seq::<CoreAddr>::empty());
        assert(queues.drop_last() =~= Seq::new(
            (warriors - 1) as nat,
            |w: int| Seq::<CoreAddr>::empty(),
        ));
        lemma_no_active_ids((warriors - 1) as nat);
    }
}


impl View for Emulator {
    type V = EmulatorView;

    closed spec fn view(&self) -> EmulatorView {
        EmulatorView {
            settings: self.config,
            core: self.state.core@,
            queues: self.state.pq@,
            pspace: self.state.pspace@,
        }
    }
}

/// A core of `size` cells that all hold `cell`.
fn filled_core(cell: CompleteInstruction, size: usize) -> (core: Vec<CompleteInstruction>)
    ensures
        core@ == Seq::new(size as nat, |i: int| cell),
{
    let mut core: Vec<CompleteInstruction> = Vec::new();
    let mut i: usize = 0;
    while i < size
        invariant
            i <= size,
            core@.len() == i,
            forall|k: int| 0 <= k < i ==> core@[k] == cell,
        decreases size - i,
    {
        core.push(cell);
        i += 1;
    }
    assert(core@ =~= Seq::new(size as nat, |i: int| cell));
    core
}

impl Emulator {
    /// The process limit that the queues were built with.
    pub closed spec fn queue_capacity(&self) -> nat {
        self.state.pq.capacity()
    }

    /// The emulator holds its invariant, and its queues have the process
    /// limit of the settings.
    pub open spec fn wf(&self) -> bool {
        self@.wf() && self.queue_capacity() == self@.settings.processes
    }

    /// Construct an emulator.  Its core is filled with the default
    /// instruction; no warrior has a process or a PSPACE.
    ///
    /// # Errors
    ///
    /// Returns [`EmulatorError::InvalidParam`] if the core is to have more
    /// than 2^31 cells or a PSPACE more cells than the core.
    pub fn new(core_size: u64, pspace_size: u64, warriors: u64, processes: u64) -> (r:
        EmulatorResult<Self>)
        requires
            warriors <= usize::MAX,
        ensures
            core_size > MAX_CORE_SIZE || pspace_size > core_size ==> (r matches Err(e) && e.kind()
                == ErrorKind::InvalidParam),
            core_size <= MAX_CORE_SIZE && pspace_size <= core_size ==> (r matches Ok(emulator)
                && emulator.wf() && emulator@ == EmulatorView::initial(
                core_size,
                pspace_size,
                warriors,
                processes,
            )),
    {
        if core_size > MAX_CORE_SIZE {
            return Err(EmulatorError::InvalidParam("core_size is too large"));
        }
        if pspace_size > core_size {
            return Err(EmulatorError::InvalidParam("pspace_size is too large"));
        }
        let config = CoreSettings {
            core_size,
            pspace_size,
            warriors,
            processes,
            bytecode_format: None,
        };
        let state = EmulatorState {
            pq: ProcessQueueSet::new(&config),
            core: filled_core(CompleteInstruction::default(), core_size as usize),
            pspace: PSpace::new(pspace_size as u32),
        };
        Ok(Self { state, config })
    }

    /// Checks that a value is an address of the core.
    ///
    /// # Errors
    ///
    /// Returns [`EmulatorError::InvalidParam`] if it is not.
    fn validate_addr_param(&self, val: CoreAddr, msg: &'static str) -> (r: EmulatorResult<CoreAddr>)
        ensures
            val < self@.settings.core_size ==> r == Ok::<CoreAddr, EmulatorError>(val),
            val >= self@.settings.core_size ==> (r matches Err(e) && e.kind()
                == ErrorKind::InvalidParam),
    {
        if (val as u64) < self.config.core_size {
            Ok(val)
        } else {
            Err(EmulatorError::InvalidParam(msg))
        }
    }

    /// Checks that a warrior id is one of this emulator.
    ///
    /// # Errors
    ///
    /// Returns [`EmulatorError::InvalidParam`] if it is not.
    fn validate_warrior_param(&self, warrior_id: u64, msg: &'static str) -> (r: EmulatorResult<u64>)
        ensures
            warrior_id < self@.settings.warriors ==> r == Ok::<u64, EmulatorError>(warrior_id),
            warrior_id >= self@.settings.warriors ==> (r matches Err(e) && e.kind()
                == ErrorKind::InvalidParam),
    {
        if warrior_id < self.config.warriors {
            Ok(warrior_id)
        } else {
            Err(EmulatorError::InvalidParam(msg))
        }
    }

    /// The size of the core as an address.
    fn core_size_addr(&self) -> (r: CoreAddr)
        requires
            self.wf(),
        ensures
            r == self@.settings.core_size,
    {
        self.config.core_size as u32
    }
}


/// Whether what an operation returned is the outcome that the model gives.
pub open spec fn returned<T>(result: EmulatorResult<T>, outcome: Result<T, ErrorKind>) -> bool {
    match outcome {
        Ok(value) => result == Ok::<T, EmulatorError>(value),
        Err(kind) => result matches Err(e) && e.kind() == kind,
    }
}

impl EmulatorView {
    /// What `warrior_id` reads from its PSPACE at `addr`.
    pub open spec fn read_pspace(self, warrior_id: u64, addr: CoreAddr) -> Result<
        CoreAddr,
        ErrorKind,
    > {
        if warrior_id >= self.settings.warriors {
            Err(ErrorKind::InvalidParam)
        } else if self.settings.pspace_size == 0 {
            Err(ErrorKind::UnsupportedFeature)
        } else {
            match self.pspace.read(addr, warrior_id) {
                Some(value) => Ok(value),
                None => Err(ErrorKind::InvalidParam),
            }
        }
    }

    /// The emulator after `warrior_id` wrote `value` to its PSPACE at `addr`.
    pub open spec fn write_pspace(self, warrior_id: u64, addr: CoreAddr, value: CoreAddr) -> Result<
        EmulatorView,
        ErrorKind,
    > {
        if value >= self.settings.core_size || warrior_id >= self.settings.warriors {
            Err(ErrorKind::InvalidParam)
        } else if self.settings.pspace_size == 0 {
            Err(ErrorKind::UnsupportedFeature)
        } else {
            match self.pspace.write(addr, value, warrior_id) {
                Some(written) => Ok(EmulatorView { pspace: written, ..self }),
                None => Err(ErrorKind::InvalidParam),
            }
        }
    }

    /// Whether a cell can be written at `addr`: the address and both fields
    /// are addresses of the core, and the identifier stands for an
    /// instruction.
    pub open spec fn accepts_write(
        self,
        addr: CoreAddr,
        insn: BytecodeInstructionIdentifier,
        a_field: CoreAddr,
        b_field: CoreAddr,
    ) -> bool {
        &&& addr < self.settings.core_size
        &&& a_field < self.settings.core_size
        &&& b_field < self.settings.core_size
        &&& spec_decode(insn) is Some
    }

    /// Whether the core can be reset to a cell: the identifier stands for an
    /// instruction, and both fields are addresses of the core, if it has any.
    pub open spec fn accepts_reset(
        self,
        insn: BytecodeInstructionIdentifier,
        a_field: CoreAddr,
        b_field: CoreAddr,
    ) -> bool {
        &&& spec_decode(insn) is Some
        &&& self.settings.core_size > 0 ==> a_field < self.settings.core_size && b_field
            < self.settings.core_size
    }

    /// Whether a queue may be given to a warrior: there is such a warrior,
    /// and the queue holds addresses of the core.
    pub open spec fn accepts_queue(self, warrior_id: u64, queue: Seq<CoreAddr>) -> bool {
        &&& warrior_id < self.settings.warriors
        &&& forall|i: int| 0 <= i < queue.len() ==> queue[i] < self.settings.core_size
    }

    /// The emulator after the queue of a warrior was replaced, or the kind of
    /// the error: a parameter is invalid if there is no such warrior or the
    /// queue holds a value that is no address of the core; a queue that is
    /// longer than the process limit is refused by the process queues.
    pub open spec fn replace_process_queue(self, warrior_id: u64, queue: Seq<CoreAddr>) -> Result<
        EmulatorView,
        ErrorKind,
    > {
        if !self.accepts_queue(warrior_id, queue) {
            Err(ErrorKind::InvalidParam)
        } else if queue.len() > self.settings.processes {
            Err(ErrorKind::InternalError)
        } else {
            Ok(self.with_queue(warrior_id, queue))
        }
    }
}

impl Emulator {
    /// Execute the instruction at `pc` as `warrior_id`.
    ///
    /// # Errors
    ///
    /// Returns the error of the instruction, if it fails.
    fn step_emulator(&mut self, pc: CoreAddr, warrior_id: u64) -> (r: EmulatorResult<()>)
        requires
            old(self).wf(),
            pc < old(self)@.settings.core_size,
            warrior_id < old(self)@.settings.warriors,
        ensures
            final(self).wf(),
            final(self)@ == old(self)@.execute_at(pc, warrior_id).0,
            match old(self)@.execute_at(pc, warrior_id).1 {
                None => r is Ok,
                Some(kind) => r matches Err(e) && e.kind() == kind,
            },
    {
        proof {
            lemma_execute_at_keeps_wf(old(self)@, pc, warrior_id);
        }
        let core_size = self.core_size_addr();
        // Evaluate the operands, and keep the addresses and values found at
        // the program counter and at both targets.
        let regs = evaluate(pc, self.state.core.as_mut_slice())?;
        let inputs = OpInputs {
            warrior_id,
            regs: &regs,
            core_size,
            pq: &mut self.state.pq,
            core: self.state.core.as_mut_slice(),
            pspace: &mut self.state.pspace,
        };
        // Execute the instruction at the program counter.
        match regs.current.instr.opcode {
            Opcode::Dat => dat_op(inputs),
            Opcode::Mov => mov_op(inputs),
            Opcode::Add | Opcode::Sub | Opcode::Mul | Opcode::Div | Opcode::Mod => arithmetic_op(
                inputs,
            ),
            Opcode::Jmp => jmp_op(inputs),
            Opcode::Jmz => jmz_op(inputs),
            Opcode::Jmn => jmn_op(inputs),
            Opcode::Djn => djn_op(inputs),
            Opcode::Spl => spl_op(inputs),
            Opcode::Slt => slt_op(inputs),
            Opcode::Cmp | Opcode::SeqOp => cmp_op(inputs),
            Opcode::Sne => sne_op(inputs),
            Opcode::Nop => nop_op(inputs),
            Opcode::Ldp => ldp_op(inputs),
            Opcode::Stp => stp_op(inputs),
        }
    }
}

impl EmulatorCore for Emulator {
    open spec fn valid(&self) -> bool {
        self.wf()
    }

    /// # Errors
    ///
    /// Returns [`EmulatorError::InvalidParam`] if there is no warrior with
    /// this id, and the error of the instruction if it fails.
    fn step(&mut self, warrior_id: u64) -> (r: EmulatorResult<Option<CoreAddr>>)
        ensures
            final(self)@ == old(self)@.step(warrior_id).0,
            returned(r, old(self)@.step(warrior_id).1),
    {
        proof {
            lemma_step_keeps_wf(old(self)@, warrior_id);
        }
        self.validate_warrior_param(warrior_id, "invalid warrior id")?;
        match self.state.pq.pop(warrior_id)? {
            // This warrior has an active process.
            Some(pc) => {
                proof {
                    let queue = old(self)@.queues[warrior_id as int];
                    assert forall|i: int| 0 <= i < queue.drop_first().len() implies queue.drop_first()[i]
                        < old(self)@.settings.core_size by {
                        assert(queue.drop_first()[i] == queue[i + 1]);
                    }
                    lemma_with_queue_keeps_wf(old(self)@, warrior_id, queue.drop_first());
                    assert(self@ == old(self)@.with_queue(warrior_id, queue.drop_first()));
                }
                self.step_emulator(pc, warrior_id)?;
                Ok(Some(pc))
            },
            // This warrior has no active processes.
            None => Ok(None),
        }
    }

    /// Two warriors may end each other in one cycle; the cycle is completed
    /// all the same.
    ///
    /// # Errors
    ///
    /// Returns the error of the instruction that failed, if one did.  The
    /// cycle is then left where it was.
    fn run(&mut self, cycles: u64, warriors_remaining: u64) -> (r: EmulatorResult<u64>)
        ensures
            final(self)@ == old(self)@.run(cycles as nat, warriors_remaining).0,
            match old(self)@.run(cycles as nat, warriors_remaining).2 {
                None => r == Ok::<u64, EmulatorError>(
                    old(self)@.run(cycles as nat, warriors_remaining).1 as u64,
                ),
                Some(kind) => r matches Err(e) && e.kind() == kind,
            },
    {
        let ghost start = self@;
        let mut cycles_executed: u64 = 0;
        proof {
            lemma_run_keeps_wf(start, cycles as nat, warriors_remaining);
        }
        while cycles_executed < cycles
            invariant
                self.wf(),
                start == old(self)@,
                cycles_executed <= cycles,
                start.run(cycles as nat, warriors_remaining).0 == self@.run(
                    (cycles - cycles_executed) as nat,
                    warriors_remaining,
                ).0,
                start.run(cycles as nat, warriors_remaining).1 == self@.run(
                    (cycles - cycles_executed) as nat,
                    warriors_remaining,
                ).1 + cycles_executed,
                start.run(cycles as nat, warriors_remaining).2 == self@.run(
                    (cycles - cycles_executed) as nat,
                    warriors_remaining,
                ).2,
            ensures
                self.wf(),
                start == old(self)@,
                start.run(cycles as nat, warriors_remaining) == (
                    self@,
                    cycles_executed as nat,
                    None::<ErrorKind>,
                ),
            decreases cycles - cycles_executed,
        {
            let active = self.active_warrior_set();
            if active.len() as u64 <= warriors_remaining {
                break ;
            }
            let ghost before = self@;
            let ghost left = (cycles - cycles_executed) as nat;
            assert(active@.skip(0) =~= active@);
            let mut i: usize = 0;
            while i < active.len()
                invariant
                    self.wf(),
                    start == old(self)@,
                    i <= active@.len(),
                    left > 0,
                    active@ == active_ids(before.queues),
                    active@.len() > warriors_remaining,
                    before.cycle(active@) == self@.cycle(active@.skip(i as int)),
                    start.run(cycles as nat, warriors_remaining).0 == before.run(
                        left,
                        warriors_remaining,
                    ).0,
                    start.run(cycles as nat, warriors_remaining).2 == before.run(
                        left,
                        warriors_remaining,
                    ).2,
                decreases active@.len() - i,
            {
                proof {
                    lemma_step_keeps_wf(self@, active@[i as int]);
                    assert(active@.skip(i as int)[0] == active@[i as int]);
                    assert(active@.skip(i as int).drop_first() =~= active@.skip(i + 1));
                }
                let ghost current = self@;
                match self.step(active[i]) {
                    Ok(_) => {},
                    Err(e) => {
                        proof {
                            assert(current.cycle(active@.skip(i as int)) == (self@, Some(e.kind())));
                            assert(before.run(left, warriors_remaining) == (
                                self@,
                                0nat,
                                Some(e.kind()),
                            ));
                        }
                        return Err(e);
                    },
                }
                i += 1;
            }
            cycles_executed += 1;
        }
        Ok(cycles_executed)
    }

    fn core_settings(&self) -> (r: CoreSettings)
        ensures
            r == self@.settings,
    {
        self.config
    }

    /// # Errors
    ///
    /// Returns [`EmulatorError::InvalidParam`] if `addr` is not an address of
    /// the core.
    fn read_core(&self, addr: CoreAddr) -> (r: EmulatorResult<
        (BytecodeInstructionIdentifier, CoreAddr, CoreAddr),
    >)
        ensures
            addr < self@.settings.core_size ==> r == Ok::<
                (BytecodeInstructionIdentifier, CoreAddr, CoreAddr),
                EmulatorError,
            >(self@.read_core(addr)),
            addr >= self@.settings.core_size ==> (r matches Err(e) && e.kind()
                == ErrorKind::InvalidParam),
    {
        self.validate_addr_param(addr, "invalid address to read from core")?;
        let cell = self.state.core[addr as usize];
        let bytecode = self.rc_to_bytecode(cell.instr);
        Ok((bytecode, cell.a_field, cell.b_field))
    }

    /// # Errors
    ///
    /// Returns [`EmulatorError::InvalidParam`] if `addr`, `a_field` or
    /// `b_field` is not an address of the core, or if `insn` stands for no
    /// instruction.  Nothing is written then.
    fn write_core(
        &mut self,
        addr: CoreAddr,
        insn: BytecodeInstructionIdentifier,
        a_field: CoreAddr,
        b_field: CoreAddr,
    ) -> (r: EmulatorResult<()>)
        ensures
            old(self)@.accepts_write(addr, insn, a_field, b_field) ==> r is Ok && final(self)@ == (
            EmulatorView {
                core: old(self)@.core.update(
                    addr as int,
                    CompleteInstruction { instr: spec_decode(insn)->0, a_field, b_field },
                ),
                ..old(self)@
            }),
            !old(self)@.accepts_write(addr, insn, a_field, b_field) ==> (r matches Err(e)
                && e.kind() == ErrorKind::InvalidParam) && final(self)@ == old(self)@,
    {
        self.validate_addr_param(addr, "invalid address to write to core")?;
        self.validate_addr_param(a_field, "invalid a_field to write to core")?;
        self.validate_addr_param(b_field, "invalid b_field to write to core")?;
        let instr = self.bytecode_to_rc(insn)?;
        let complete_value = CompleteInstruction { instr, a_field, b_field };
        self.state.core[addr as usize] = complete_value;
        Ok(())
    }

    /// # Errors
    ///
    /// Returns [`EmulatorError::InvalidParam`] if there is no warrior with
    /// this id, if `addr` is not an index of a PSPACE, or if the warrior has
    /// no PSPACE; and [`EmulatorError::UnsupportedFeature`] if the PSPACE of
    /// this emulator has no cells.
    fn read_pspace(&self, warrior_id: u64, addr: CoreAddr) -> (r: EmulatorResult<CoreAddr>)
        ensures
            returned(r, self@.read_pspace(warrior_id, addr)),
    {
        self.validate_warrior_param(warrior_id, "invalid warrior to read pspace")?;
        if self.config.pspace_size == 0 {
            return Err(EmulatorError::UnsupportedFeature("this core has no pspace"));
        }
        if addr as u64 >= self.config.pspace_size {
            return Err(
                EmulatorError::InvalidParam("pspace address larger than configured pspace size"),
            );
        }
        match self.state.pspace.read(addr, warrior_id) {
            Ok(value) => Ok(value),
            Err(_) => Err(EmulatorError::InvalidParam("pspace not configured for this warrior")),
        }
    }

    /// # Errors
    ///
    /// Returns [`EmulatorError::InvalidParam`] if `value` is not a field value
    /// of the core, if there is no warrior with this id, if `addr` is not an
    /// index of a PSPACE, or if the warrior has no PSPACE; and
    /// [`EmulatorError::UnsupportedFeature`] if the PSPACE of this emulator has
    /// no cells.  Nothing is written then.
    fn write_pspace(&mut self, warrior_id: u64, addr: CoreAddr, value: CoreAddr) -> (r:
        EmulatorResult<()>)
        ensures
            match old(self)@.write_pspace(warrior_id, addr, value) {
                Ok(written) => r is Ok && final(self)@ == written,
                Err(kind) => (r matches Err(e) && e.kind() == kind) && final(self)@ == old(self)@,
            },
    {
        self.validate_addr_param(value, "tried to write invalid value to pspace")?;
        self.validate_warrior_param(warrior_id, "invalid warrior to read pspace")?;
        if self.config.pspace_size == 0 {
            return Err(EmulatorError::UnsupportedFeature("this core has no pspace"));
        }
        if addr as u64 >= self.config.pspace_size {
            return Err(
                EmulatorError::InvalidParam("pspace address larger than configured pspace size"),
            );
        }
        proof {
            if old(self)@.pspace.write(addr, value, warrior_id) is Some {
                lemma_write_keeps(
                    old(self)@.pspace,
                    addr,
                    value,
                    warrior_id,
                    old(self)@.settings.core_size as int,
                );
            }
        }
        match self.state.pspace.write(addr, value, warrior_id) {
            Ok(()) => Ok(()),
            Err(_) => Err(EmulatorError::InvalidParam("pspace not configured for this warrior")),
        }
    }

    /// # Errors
    ///
    /// Returns [`EmulatorError::InvalidParam`] if `initial_instr` stands for
    /// no instruction, or if the core has cells and `initial_a` or
    /// `initial_b` is not an address of it.  Nothing changes then.
    fn reset_core(
        &mut self,
        initial_instr: BytecodeInstructionIdentifier,
        initial_a: CoreAddr,
        initial_b: CoreAddr,
    ) -> (r: EmulatorResult<()>)
        ensures
            old(self)@.accepts_reset(initial_instr, initial_a, initial_b) ==> r is Ok && final(self)@ == old(self)@.reset(
                CompleteInstruction {
                    instr: spec_decode(initial_instr)->0,
                    a_field: initial_a,
                    b_field: initial_b,
                },
            ),
            !old(self)@.accepts_reset(initial_instr, initial_a, initial_b) ==> (r matches Err(e)
                && e.kind() == ErrorKind::InvalidParam) && final(self)@ == old(self)@,
    {
        let initial_complete_instr = CompleteInstruction {
            instr: self.bytecode_to_rc(initial_instr)?,
            a_field: initial_a,
            b_field: initial_b,
        };
        if self.config.core_size > 0 {
            self.validate_addr_param(initial_a, "invalid a_field to fill the core with")?;
            self.validate_addr_param(initial_b, "invalid b_field to fill the core with")?;
        }
        self.state.pq.reset_queues();
        self.state.core = filled_core(initial_complete_instr, self.config.core_size as usize);
        self.state.pspace = PSpace::new(self.config.pspace_size as u32);
        Ok(())
    }

    /// The ids are in ascending order.
    fn active_warrior_set(&self) -> (r: Vec<u64>)
        ensures
            r@ == active_ids(self@.queues),
    {
        self.state.pq.active_warriors()
    }

    /// # Errors
    ///
    /// Returns [`EmulatorError::InvalidParam`] if there is no warrior with
    /// this id.
    fn read_process_queue(&self, warrior_id: u64) -> (r: EmulatorResult<Vec<CoreAddr>>)
        ensures
            warrior_id < self@.settings.warriors ==> (r matches Ok(queue) && queue@
                == self@.queues[warrior_id as int]),
            warrior_id >= self@.settings.warriors ==> (r matches Err(e) && e.kind()
                == ErrorKind::InvalidParam),
    {
        self.validate_warrior_param(warrior_id, "invalid warrior to read the process queue of")?;
        self.state.pq.read_queue(warrior_id)
    }

    /// # Errors
    ///
    /// Returns [`EmulatorError::InvalidParam`] if there is no warrior with
    /// this id or if the queue holds a value that is not an address of the
    /// core, and [`EmulatorError::InternalError`] if the queue is longer than
    /// the process limit.  Nothing changes then.
    fn replace_process_queue(&mut self, warrior_id: u64, process_queue: &[CoreAddr]) -> (r:
        EmulatorResult<()>)
        ensures
            match old(self)@.replace_process_queue(warrior_id, process_queue@) {
                Ok(replaced) => r is Ok && final(self)@ == replaced,
                Err(kind) => (r matches Err(e) && e.kind() == kind) && final(self)@ == old(self)@,
            },
    {
        let mut i: usize = 0;
        while i < process_queue.len()
            invariant
                i <= process_queue@.len(),
                forall|k: int| 0 <= k < i ==> process_queue@[k] < self@.settings.core_size,
                *self == *old(self),
                self.wf(),
            decreases process_queue@.len() - i,
        {
            self.validate_addr_param(
                process_queue[i],
                "attempted to add an invalid core address to a process queue",
            )?;
            i += 1;
        }
        self.validate_warrior_param(warrior_id, "invalid warrior to replace the process queue of")?;
        proof {
            if process_queue@.len() <= self@.settings.processes {
                lemma_with_queue_keeps_wf(old(self)@, warrior_id, process_queue@);
            }
        }
        self.state.pq.replace_queue(warrior_id, process_queue)
    }

    /// # Errors
    ///
    /// Returns [`EmulatorError::InvalidParam`] if the identifier stands for no
    /// instruction.
    fn bytecode_to_rc(&self, bytecode_instr: BytecodeInstructionIdentifier) -> (r: EmulatorResult<
        Instruction,
    >)
        ensures
            match spec_decode(bytecode_instr) {
                Some(instr) => r == Ok::<Instruction, EmulatorError>(instr),
                None => r matches Err(e) && e.kind() == ErrorKind::InvalidParam,
            },
    {
        match decode(bytecode_instr) {
            Some(instr) => Ok(instr),
            None => Err(EmulatorError::InvalidParam("invalid bytecode instruction")),
        }
    }

    fn rc_to_bytecode(&self, redcode_instr: Instruction) -> (r: BytecodeInstructionIdentifier)
        ensures
            r == spec_encode(redcode_instr),
    {
        encode(redcode_instr)
    }
}


/// The values of a sequence, each once, in the order in which they first
/// occur.
pub open spec fn first_occurrences(values: Seq<u64>) -> Seq<u64>
    decreases values.len(),
{
    if values.len() == 0 {
        Seq::empty()
    } else {
        let before = first_occurrences(values.drop_last());
        if before.contains(values.last()) {
            before
        } else {
            before.push(values.last())
        }
    }
}

/// The first occurrences of a sequence hold what the sequence holds, and
/// nothing twice.
pub proof fn lemma_first_occurrences(values: Seq<u64>)
    ensures
        first_occurrences(values).no_duplicates(),
        forall|value: u64|
            first_occurrences(values).contains(value) <==> values.contains(value),
    decreases values.len(),
{
    if values.len() > 0 {
        let shorter = values.drop_last();
        lemma_first_occurrences(shorter);
        let before = first_occurrences(shorter);
        let all = first_occurrences(values);
        assert forall|value: u64| all.contains(value) <==> values.contains(value) by {
            if values.contains(value) {
                let i = choose|i: int| 0 <= i < values.len() && values[i] == value;
                if i < shorter.len() {
                    assert(shorter[i] == value);
                    assert(shorter.contains(value));
                    assert(before.contains(value));
                    let k = choose|k: int| 0 <= k < before.len() && before[k] == value;
                    assert(all[k] == value);
                } else {
                    if !before.contains(value) {
                        assert(all[all.len() - 1] == value);
                    }
                }
            }
            if all.contains(value) {
                let k = choose|k: int| 0 <= k < all.len() && all[k] == value;
                if k < before.len() {
                    assert(before[k] == value);
                    assert(before.contains(value));
                    assert(shorter.contains(value));
                    let i = choose|i: int| 0 <= i < shorter.len() && shorter[i] == value;
                    assert(values[i] == value);
                } else {
                    assert(values[values.len() - 1] == value);
                }
            }
        }
    }
}

/// The values of `pins`, each once, in the order in which they first occur.
///
/// Calls `Itertools::unique` of the `itertools` crate on the values of the
/// list.  That what comes out is what [`first_occurrences`] says is taken
/// from the crate and not proved here: `unique` drops every item that the
/// iterator has produced before, and keeps the others in their order.
#[verifier::external_body]
fn unique_pins(pins: &Vec<u64>) -> (r: Vec<u64>)
    ensures
        r@ == first_occurrences(pins@),
{
    pins.iter().copied().unique().collect()
}

/// The pin that a list of pairs of a pin and a warrior gives to a warrior:
/// that of the last pair that names the warrior.
pub open spec fn pin_of(pairs: Seq<(u64, u64)>, warrior_id: u64) -> Option<u64>
    decreases pairs.len(),
{
    if pairs.len() == 0 {
        None
    } else if pairs.last().1 == warrior_id {
        Some(pairs.last().0)
    } else {
        pin_of(pairs.drop_last(), warrior_id)
    }
}

/// Whether a pair of the list names the pin.
pub open spec fn names_pin(pairs: Seq<(u64, u64)>, pin: u64) -> bool {
    exists|i: int| 0 <= i < pairs.len() && (#[trigger] pairs[i]).0 == pin
}

/// The PSPACE store that a list of pairs of a pin and a warrior sets up:
/// a PSPACE of zeros under each pin that the list names, and for each warrior
/// that it names the last pin that it gives to it and a zero at index 0.
pub open spec fn configured(size: nat, pairs: Seq<(u64, u64)>) -> PSpaceView {
    PSpaceView {
        size,
        pins: Map::new(|w: u64| pin_of(pairs, w) is Some, |w: u64| pin_of(pairs, w)->0),
        zero: Map::new(|w: u64| pin_of(pairs, w) is Some, |w: u64| 0u32),
        pages: Map::new(|pin: u64| names_pin(pairs, pin), |pin: u64| Seq::new(size, |i: int| 0u32)),
    }
}

/// The pin that a list gives to a warrior is named by the list, and the
/// warrior as well.
pub proof fn lemma_pin_of(pairs: Seq<(u64, u64)>, warrior_id: u64)
    ensures
        pin_of(pairs, warrior_id) matches Some(pin) ==> names_pin(pairs, pin) && exists|i: int|
            0 <= i < pairs.len() && (#[trigger] pairs[i]).1 == warrior_id,
    decreases pairs.len(),
{
    if pairs.len() > 0 {
        if pairs.last().1 == warrior_id {
            assert(pairs[pairs.len() - 1].0 == pairs.last().0);
        } else {
            lemma_pin_of(pairs.drop_last(), warrior_id);
            if pin_of(pairs, warrior_id) is Some {
                let pin = pin_of(pairs, warrior_id)->0;
                let i = choose|i: int|
                    0 <= i < pairs.drop_last().len() && (#[trigger] pairs.drop_last()[i]).0 == pin;
                assert(pairs[i].0 == pin);
                let k = choose|k: int|
                    0 <= k < pairs.drop_last().len() && (#[trigger] pairs.drop_last()[k]).1
                        == warrior_id;
                assert(pairs[k].1 == warrior_id);
            }
        }
    }
}

impl Emulator {
    /// Remove what there is of PSPACE, and set it up anew from a list of pairs
    /// of a pin and a warrior id: a PSPACE of zeros under each pin, shared by
    /// the warriors that the list gives the pin to.  Where the list names a
    /// warrior more than once, the last pair counts.
    ///
    /// # Errors
    ///
    /// Returns [`EmulatorError::InvalidParam`] if the list names a warrior
    /// that this emulator does not have.  Nothing changes then.
    pub fn initialize_pspace(&mut self, pspace_map: &[(u64, u64)]) -> (r: EmulatorResult<()>)
        requires
            old(self).wf(),
        ensures
            final(self).wf(),
            (forall|i: int|
                0 <= i < pspace_map@.len() ==> (#[trigger] pspace_map@[i]).1 < old(
                    self,
                )@.settings.warriors) ==> r is Ok && final(self)@ == (EmulatorView {
                pspace: configured(old(self)@.settings.pspace_size as nat, pspace_map@),
                ..old(self)@
            }),
            (exists|i: int|
                0 <= i < pspace_map@.len() && (#[trigger] pspace_map@[i]).1 >= old(
                    self,
                )@.settings.warriors) ==> (r matches Err(e) && e.kind() == ErrorKind::InvalidParam)
                && final(self)@ == old(self)@,
    {
        let mut pins: Vec<u64> = Vec::new();
        let mut i: usize = 0;
        while i < pspace_map.len()
            invariant
                i <= pspace_map@.len(),
                *self == *old(self),
                self.wf(),
                pins@.len() == i,
                forall|k: int| 0 <= k < i ==> pins@[k] == (#[trigger] pspace_map@[k]).0,
                forall|k: int|
                    0 <= k < i ==> (#[trigger] pspace_map@[k]).1 < self@.settings.warriors,
            decreases pspace_map@.len() - i,
        {
            let (pin, warrior_id) = pspace_map[i];
            self.validate_warrior_param(warrior_id, "invalid warrior ID in pspace map")?;
            pins.push(pin);
            i += 1;
        }
        let size = self.config.pspace_size as u32;
        // Write an empty PSPACE store.
        let mut store = PSpace::new(size);
        // Create a PSPACE for each pin.
        let unique = unique_pins(&pins);
        proof {
            lemma_first_occurrences(pins@);
        }
        let mut k: usize = 0;
        while k < unique.len()
            invariant
                k <= unique@.len(),
                unique@.no_duplicates(),
                store@.size == size,
                store@.pins == Map::<u64, u64>::empty(),
                store@.zero == Map::<u64, CoreAddr>::empty(),
                store@.pages == Map::new(
                    |pin: u64| unique@.take(k as int).contains(pin),
                    |pin: u64| Seq::new(size as nat, |i: int| 0u32),
                ),
            decreases unique@.len() - k,
        {
            let pin = unique[k];
            proof {
                if unique@.take(k as int).contains(pin) {
                    let j = choose|j: int| 0 <= j < k && unique@.take(k as int)[j] == pin;
                    assert(unique@[j] == unique@[k as int]);
                }
            }
            match store.add_pspace(pin) {
                Ok(()) => {},
                Err(e) => {
                    return Err(e);
                },
            }
            proof {
                let longer = unique@.take(k + 1);
                assert(longer.drop_last() =~= unique@.take(k as int));
                assert forall|other: u64| longer.contains(other) <==> unique@.take(
                    k as int,
                ).contains(other) || other == pin by {
                    if longer.contains(other) {
                        let j = choose|j: int| 0 <= j < longer.len() && longer[j] == other;
                        if j < k {
                            assert(unique@.take(k as int)[j] == other);
                        }
                    }
                    if unique@.take(k as int).contains(other) {
                        let j = choose|j: int| 0 <= j < k && unique@.take(k as int)[j] == other;
                        assert(longer[j] == other);
                    }
                    if other == pin {
                        assert(longer[k as int] == other);
                    }
                }
                assert(store@.pages =~= Map::new(
                    |pin: u64| longer.contains(pin),
                    |pin: u64| Seq::new(size as nat, |i: int| 0u32),
                ));
            }
            k += 1;
        }
        proof {
            assert(unique@.take(unique@.len() as int) =~= unique@);
            assert forall|pin: u64| unique@.contains(pin) <==> names_pin(pspace_map@, pin) by {
                if names_pin(pspace_map@, pin) {
                    let j = choose|j: int|
                        0 <= j < pspace_map@.len() && (#[trigger] pspace_map@[j]).0 == pin;
                    assert(pins@[j] == pin);
                    assert(pins@.contains(pin));
                }
                if pins@.contains(pin) {
                    let j = choose|j: int| 0 <= j < pins@.len() && pins@[j] == pin;
                    assert(pspace_map@[j].0 == pin);
                }
            }
            assert(store@.pages =~= configured(size as nat, pspace_map@).pages);
            assert(pspace_map@.take(0).len() == 0);
            assert(store@.pins =~= configured(size as nat, pspace_map@.take(0)).pins);
            assert(store@.zero =~= configured(size as nat, pspace_map@.take(0)).zero);
        }
        // Give each warrior its pin.
        let mut n: usize = 0;
        while n < pspace_map.len()
            invariant
                n <= pspace_map@.len(),
                store@.size == size,
                store@.pages == configured(size as nat, pspace_map@).pages,
                store@.pins == configured(size as nat, pspace_map@.take(n as int)).pins,
                store@.zero == configured(size as nat, pspace_map@.take(n as int)).zero,
            decreases pspace_map@.len() - n,
        {
            let (pin, warrior_id) = pspace_map[n];
            assert(names_pin(pspace_map@, pin)) by {
                assert(pspace_map@[n as int].0 == pin);
            }
            match store.assign_pspace(warrior_id, pin) {
                Ok(()) => {},
                Err(e) => {
                    return Err(e);
                },
            }
            proof {
                let shorter = pspace_map@.take(n as int);
                let longer = pspace_map@.take(n + 1);
                assert(longer.drop_last() =~= shorter);
                assert(longer.last() == (pin, warrior_id));
                assert(store@.pins =~= configured(size as nat, longer).pins);
                assert(store@.zero =~= configured(size as nat, longer).zero);
            }
            n += 1;
        }
        proof {
            assert(pspace_map@.take(pspace_map@.len() as int) =~= pspace_map@);
            let made = configured(size as nat, pspace_map@);
            assert(store@ == made);
            assert forall|w: u64| #[trigger] made.pins.contains_key(w) implies made.pages.contains_key(
                made.pins[w],
            ) by {
                lemma_pin_of(pspace_map@, w);
            }
            assert(made.wf());
            assert(self@.settings.core_size > 0 ==> made.bounded(self@.settings.core_size as int));
        }
        self.state.pspace = store;
        Ok(())
    }
}

} // verus!
