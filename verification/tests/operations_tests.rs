use marzipan::generic_emulator::emulation_operations::{
    arithmetic_op, cmp_op, dat_op, djn_op, jmn_op, jmp_op, jmz_op, ldp_op, mov_op, nop_op,
    slt_op, sne_op, spl_op, stp_op, OpInputs,
};
use marzipan::generic_emulator::operands::{RegisterValue, RegisterValues};
use marzipan::generic_emulator::processes::ProcessQueueSet;
use marzipan::generic_emulator::pspace::PSpace;
use marzipan::redcode::{AddrMode, CompleteInstruction, Instruction, Modifier, Opcode};
use marzipan::{CoreSettings, EmulatorError, EmulatorResult};

const SIZE: u32 = 100;
const PC: u32 = 99;
const A_AT: u32 = 20;
const B_AT: u32 = 30;
const ALL_MODIFIERS: [Modifier; 7] = [
    Modifier::A,
    Modifier::B,
    Modifier::AB,
    Modifier::BA,
    Modifier::F,
    Modifier::X,
    Modifier::I,
];

struct Machine {
    core: Vec<CompleteInstruction>,
    pq: ProcessQueueSet,
    pspace: PSpace,
}

fn machine(pspace_size: u32) -> Machine {
    let mut pspace = PSpace::new(pspace_size);
    pspace.add_pspace(1).unwrap();
    pspace.assign_pspace(0, 1).unwrap();
    Machine {
        core: vec![CompleteInstruction::default(); SIZE as usize],
        pq: ProcessQueueSet::new(&CoreSettings {
            core_size: u64::from(SIZE),
            pspace_size: u64::from(pspace_size),
            warriors: 2,
            processes: 4,
            bytecode_format: None,
        }),
        pspace,
    }
}

fn instr(opcode: Opcode, modifier: Modifier) -> Instruction {
    Instruction {
        opcode,
        modifier,
        a_addr_mode: AddrMode::Direct,
        b_addr_mode: AddrMode::Direct,
    }
}

fn jmp_a() -> Instruction {
    Instruction {
        opcode: Opcode::Jmp,
        modifier: Modifier::A,
        a_addr_mode: AddrMode::PostincB,
        b_addr_mode: AddrMode::IndirectA,
    }
}

/// Registers for an instruction at `PC` whose operands point at `A_AT` and
/// `B_AT`, where cells with the given fields are found.
fn registers(
    opcode: Opcode,
    modifier: Modifier,
    a: (u32, u32),
    b: (u32, u32),
) -> RegisterValues {
    RegisterValues {
        current: RegisterValue {
            idx: PC,
            instr: instr(opcode, modifier),
            a_field: A_AT + 1,
            b_field: B_AT + 1,
        },
        a: RegisterValue {
            idx: A_AT,
            instr: jmp_a(),
            a_field: a.0,
            b_field: a.1,
        },
        b: RegisterValue {
            idx: B_AT,
            instr: Instruction::default(),
            a_field: b.0,
            b_field: b.1,
        },
    }
}

/// Runs an operation for warrior 0 on a machine whose B-target holds the
/// fields of the B-register.
fn run(
    op: fn(OpInputs) -> EmulatorResult<()>,
    regs: &RegisterValues,
    machine: &mut Machine,
) -> EmulatorResult<()> {
    machine.core[B_AT as usize] = CompleteInstruction {
        instr: regs.b.instr,
        a_field: regs.b.a_field,
        b_field: regs.b.b_field,
    };
    op(OpInputs {
        warrior_id: 0,
        regs,
        core_size: SIZE,
        pq: &mut machine.pq,
        core: &mut machine.core,
        pspace: &mut machine.pspace,
    })
}

/// What an operation leaves in the B-target and in the queue.
fn outcome(
    op: fn(OpInputs) -> EmulatorResult<()>,
    opcode: Opcode,
    modifier: Modifier,
    a: (u32, u32),
    b: (u32, u32),
) -> ((u32, u32), Vec<u32>) {
    let mut machine = machine(10);
    let regs = registers(opcode, modifier, a, b);
    assert_eq!(run(op, &regs, &mut machine), Ok(()));
    for (at, cell) in machine.core.iter().enumerate() {
        if at != B_AT as usize {
            assert_eq!(*cell, CompleteInstruction::default());
        }
    }
    assert_eq!(machine.pq.read_queue(1), Ok(vec![]));
    let target = machine.core[B_AT as usize];
    if !(opcode == Opcode::Mov && modifier == Modifier::I) {
        assert_eq!(target.instr, regs.b.instr);
    }
    (
        (target.a_field, target.b_field),
        machine.pq.read_queue(0).unwrap(),
    )
}

#[test]
fn dat_does_nothing() {
    for modifier in ALL_MODIFIERS {
        assert_eq!(
            outcome(dat_op, Opcode::Dat, modifier, (1, 2), (3, 4)),
            ((3, 4), vec![])
        );
    }
}

#[test]
fn mov_routes_the_fields_by_modifier() {
    let cases = [
        (Modifier::A, (1, 4)),
        (Modifier::B, (3, 2)),
        (Modifier::AB, (3, 1)),
        (Modifier::BA, (2, 4)),
        (Modifier::F, (1, 2)),
        (Modifier::X, (2, 1)),
        (Modifier::I, (1, 2)),
    ];
    for (modifier, expected) in cases {
        assert_eq!(
            outcome(mov_op, Opcode::Mov, modifier, (1, 2), (3, 4)),
            (expected, vec![0]),
            "{modifier:?}"
        );
    }
}

#[test]
fn mov_i_copies_the_whole_instruction() {
    let mut machine = machine(10);
    let regs = registers(Opcode::Mov, Modifier::I, (1, 2), (3, 4));
    assert_eq!(run(mov_op, &regs, &mut machine), Ok(()));
    assert_eq!(
        machine.core[B_AT as usize],
        CompleteInstruction {
            instr: jmp_a(),
            a_field: 1,
            b_field: 2
        }
    );
    assert_eq!(machine.pq.read_queue(0), Ok(vec![0]));
    // The other modifiers leave the instruction of the target alone.
    let mut machine = machine_with_default();
    let regs = registers(Opcode::Mov, Modifier::F, (1, 2), (3, 4));
    assert_eq!(run(mov_op, &regs, &mut machine), Ok(()));
    assert_eq!(
        machine.core[B_AT as usize],
        CompleteInstruction {
            instr: Instruction::default(),
            a_field: 1,
            b_field: 2
        }
    );
}

fn machine_with_default() -> Machine {
    machine(10)
}

#[test]
fn add_sub_and_mul_work_modulo_the_core_size() {
    let a = (60, 70);
    let b = (50, 80);
    let add = [
        (Modifier::A, (10, 80)),
        (Modifier::B, (50, 50)),
        (Modifier::AB, (50, 40)),
        (Modifier::BA, (20, 80)),
        (Modifier::F, (10, 50)),
        (Modifier::I, (10, 50)),
        (Modifier::X, (20, 40)),
    ];
    for (modifier, expected) in add {
        assert_eq!(
            outcome(arithmetic_op, Opcode::Add, modifier, a, b),
            (expected, vec![0]),
            "Add.{modifier:?}"
        );
    }
    let sub = [
        (Modifier::A, (90, 80)),
        (Modifier::B, (50, 10)),
        (Modifier::AB, (50, 20)),
        (Modifier::BA, (80, 80)),
        (Modifier::F, (90, 10)),
        (Modifier::I, (90, 10)),
        (Modifier::X, (80, 20)),
    ];
    for (modifier, expected) in sub {
        assert_eq!(
            outcome(arithmetic_op, Opcode::Sub, modifier, a, b),
            (expected, vec![0]),
            "Sub.{modifier:?}"
        );
    }
    let mul = [
        (Modifier::A, (0, 80)),
        (Modifier::B, (50, 0)),
        (Modifier::AB, (50, 0)),
        (Modifier::BA, (0, 80)),
        (Modifier::F, (0, 0)),
        (Modifier::X, (0, 0)),
    ];
    for (modifier, expected) in mul {
        assert_eq!(
            outcome(arithmetic_op, Opcode::Mul, modifier, a, b),
            (expected, vec![0]),
            "Mul.{modifier:?}"
        );
    }
    assert_eq!(
        outcome(arithmetic_op, Opcode::Mul, Modifier::F, (99, 7), (99, 33)),
        ((1, 31), vec![0])
    );
}

#[test]
fn div_and_mod_divide_the_b_value_by_the_a_value() {
    let a = (7, 5);
    let b = (50, 83);
    let div = [
        (Modifier::A, (7, 83)),
        (Modifier::B, (50, 16)),
        (Modifier::AB, (50, 11)),
        (Modifier::BA, (10, 83)),
        (Modifier::F, (7, 16)),
        (Modifier::I, (7, 16)),
        (Modifier::X, (10, 11)),
    ];
    for (modifier, expected) in div {
        assert_eq!(
            outcome(arithmetic_op, Opcode::Div, modifier, a, b),
            (expected, vec![0]),
            "Div.{modifier:?}"
        );
    }
    let modulo = [
        (Modifier::A, (1, 83)),
        (Modifier::B, (50, 3)),
        (Modifier::AB, (50, 6)),
        (Modifier::BA, (0, 83)),
        (Modifier::F, (1, 3)),
        (Modifier::I, (1, 3)),
        (Modifier::X, (0, 6)),
    ];
    for (modifier, expected) in modulo {
        assert_eq!(
            outcome(arithmetic_op, Opcode::Mod, modifier, a, b),
            (expected, vec![0]),
            "Mod.{modifier:?}"
        );
    }
}

#[test]
fn a_division_by_zero_writes_nothing_and_queues_nothing() {
    for opcode in [Opcode::Div, Opcode::Mod] {
        // Both divisors are zero.
        for modifier in ALL_MODIFIERS {
            assert_eq!(
                outcome(arithmetic_op, opcode, modifier, (0, 0), (50, 83)),
                ((50, 83), vec![]),
                "{opcode:?}.{modifier:?}"
            );
        }
        // One divisor is zero: where only the other is used, all is well.
        let with_a_zero = [
            (Modifier::A, false),
            (Modifier::AB, false),
            (Modifier::B, true),
            (Modifier::BA, true),
            (Modifier::F, false),
            (Modifier::X, false),
            (Modifier::I, false),
        ];
        for (modifier, queued) in with_a_zero {
            let (_, queue) = outcome(arithmetic_op, opcode, modifier, (0, 5), (50, 83));
            assert_eq!(queue, if queued { vec![0] } else { vec![] });
        }
    }
    // The number whose divisor is not zero is written all the same.
    assert_eq!(
        outcome(arithmetic_op, Opcode::Div, Modifier::F, (0, 5), (50, 83)),
        ((50, 16), vec![])
    );
    assert_eq!(
        outcome(arithmetic_op, Opcode::Div, Modifier::F, (5, 0), (50, 83)),
        ((10, 83), vec![])
    );
    assert_eq!(
        outcome(arithmetic_op, Opcode::Div, Modifier::X, (0, 5), (50, 83)),
        ((10, 83), vec![])
    );
    assert_eq!(
        outcome(arithmetic_op, Opcode::Div, Modifier::X, (5, 0), (50, 83)),
        ((50, 16), vec![])
    );
    assert_eq!(
        outcome(arithmetic_op, Opcode::Mod, Modifier::I, (0, 5), (50, 83)),
        ((50, 3), vec![])
    );
    // Add and its kind do not mind zeros.
    assert_eq!(
        outcome(arithmetic_op, Opcode::Add, Modifier::F, (0, 0), (50, 83)),
        ((50, 83), vec![0])
    );
}

#[test]
fn arithmetic_refuses_other_opcodes() {
    let mut machine = machine(10);
    let regs = registers(Opcode::Mov, Modifier::F, (1, 2), (3, 4));
    assert!(matches!(
        run(arithmetic_op, &regs, &mut machine),
        Err(EmulatorError::InternalError(_))
    ));
    assert_eq!(machine.pq.read_queue(0), Ok(vec![]));
    assert_eq!(machine.core[B_AT as usize].a_field, 3);
    assert_eq!(machine.core[B_AT as usize].b_field, 4);
}

#[test]
fn jmp_queues_the_a_pointer() {
    for modifier in ALL_MODIFIERS {
        assert_eq!(
            outcome(jmp_op, Opcode::Jmp, modifier, (1, 2), (3, 4)),
            ((3, 4), vec![A_AT])
        );
    }
}

#[test]
fn jmz_jumps_if_all_selected_numbers_are_zero() {
    let jumps = |modifier, b| outcome(jmz_op, Opcode::Jmz, modifier, (1, 2), b).1 == vec![A_AT];
    let stays = |modifier, b| outcome(jmz_op, Opcode::Jmz, modifier, (1, 2), b).1 == vec![0];
    for modifier in [Modifier::A, Modifier::BA] {
        assert!(jumps(modifier, (0, 1)));
        assert!(stays(modifier, (1, 0)));
    }
    for modifier in [Modifier::B, Modifier::AB] {
        assert!(jumps(modifier, (1, 0)));
        assert!(stays(modifier, (0, 1)));
    }
    for modifier in [Modifier::F, Modifier::X, Modifier::I] {
        assert!(jumps(modifier, (0, 0)));
        assert!(stays(modifier, (0, 1)));
        assert!(stays(modifier, (1, 0)));
        assert!(stays(modifier, (1, 1)));
    }
}

#[test]
fn jmn_jumps_if_any_selected_number_is_not_zero() {
    let jumps = |modifier, b| outcome(jmn_op, Opcode::Jmn, modifier, (1, 2), b).1 == vec![A_AT];
    let stays = |modifier, b| outcome(jmn_op, Opcode::Jmn, modifier, (1, 2), b).1 == vec![0];
    for modifier in [Modifier::A, Modifier::BA] {
        assert!(stays(modifier, (0, 1)));
        assert!(jumps(modifier, (1, 0)));
    }
    for modifier in [Modifier::B, Modifier::AB] {
        assert!(stays(modifier, (1, 0)));
        assert!(jumps(modifier, (0, 1)));
    }
    for modifier in [Modifier::F, Modifier::X, Modifier::I] {
        assert!(stays(modifier, (0, 0)));
        assert!(jumps(modifier, (0, 1)));
        assert!(jumps(modifier, (1, 0)));
        assert!(jumps(modifier, (1, 1)));
    }
}

#[test]
fn djn_decrements_and_then_tests() {
    for modifier in [Modifier::A, Modifier::BA] {
        assert_eq!(
            outcome(djn_op, Opcode::Djn, modifier, (1, 2), (1, 5)),
            ((0, 5), vec![0])
        );
        assert_eq!(
            outcome(djn_op, Opcode::Djn, modifier, (1, 2), (0, 1)),
            ((99, 1), vec![A_AT])
        );
    }
    for modifier in [Modifier::B, Modifier::AB] {
        assert_eq!(
            outcome(djn_op, Opcode::Djn, modifier, (1, 2), (5, 1)),
            ((5, 0), vec![0])
        );
        assert_eq!(
            outcome(djn_op, Opcode::Djn, modifier, (1, 2), (1, 2)),
            ((1, 1), vec![A_AT])
        );
    }
    for modifier in [Modifier::F, Modifier::X, Modifier::I] {
        assert_eq!(
            outcome(djn_op, Opcode::Djn, modifier, (1, 2), (1, 1)),
            ((0, 0), vec![0])
        );
        assert_eq!(
            outcome(djn_op, Opcode::Djn, modifier, (1, 2), (1, 2)),
            ((0, 1), vec![A_AT])
        );
        assert_eq!(
            outcome(djn_op, Opcode::Djn, modifier, (1, 2), (0, 1)),
            ((99, 0), vec![A_AT])
        );
    }
}

#[test]
fn djn_decrements_what_the_core_holds_and_tests_what_the_register_holds() {
    // After a postincrement the core is one ahead of the register.
    let mut machine = machine(10);
    let regs = registers(Opcode::Djn, Modifier::B, (0, 0), (5, 1));
    machine.core[B_AT as usize] = CompleteInstruction {
        instr: Instruction::default(),
        a_field: 5,
        b_field: 2,
    };
    let result = djn_op(OpInputs {
        warrior_id: 0,
        regs: &regs,
        core_size: SIZE,
        pq: &mut machine.pq,
        core: &mut machine.core,
        pspace: &mut machine.pspace,
    });
    assert_eq!(result, Ok(()));
    assert_eq!(machine.core[B_AT as usize].b_field, 1);
    assert_eq!(machine.pq.read_queue(0), Ok(vec![0]));
}

#[test]
fn spl_queues_the_next_instruction_first() {
    for modifier in ALL_MODIFIERS {
        assert_eq!(
            outcome(spl_op, Opcode::Spl, modifier, (1, 2), (3, 4)),
            ((3, 4), vec![0, A_AT])
        );
    }
    let mut machine = machine(10);
    machine.pq.replace_queue(0, &[7, 8, 9]).unwrap();
    let regs = registers(Opcode::Spl, Modifier::B, (1, 2), (3, 4));
    assert_eq!(run(spl_op, &regs, &mut machine), Ok(()));
    assert_eq!(machine.pq.read_queue(0), Ok(vec![7, 8, 9, 0]));
    assert_eq!(run(spl_op, &regs, &mut machine), Ok(()));
    assert_eq!(machine.pq.read_queue(0), Ok(vec![7, 8, 9, 0]));
}

#[test]
fn slt_skips_if_every_routed_number_is_less() {
    let skips = |modifier, a, b| outcome(slt_op, Opcode::Slt, modifier, a, b).1 == vec![1];
    let stays = |modifier, a, b| outcome(slt_op, Opcode::Slt, modifier, a, b).1 == vec![0];
    assert!(skips(Modifier::A, (1, 9), (2, 0)));
    assert!(stays(Modifier::A, (2, 0), (2, 9)));
    assert!(skips(Modifier::B, (9, 1), (0, 2)));
    assert!(stays(Modifier::B, (0, 2), (9, 2)));
    assert!(skips(Modifier::AB, (1, 9), (0, 2)));
    assert!(stays(Modifier::AB, (2, 0), (9, 2)));
    assert!(skips(Modifier::BA, (9, 1), (2, 0)));
    assert!(stays(Modifier::BA, (0, 2), (2, 9)));
    for modifier in [Modifier::F, Modifier::I] {
        assert!(skips(modifier, (1, 1), (2, 2)));
        assert!(stays(modifier, (1, 2), (2, 2)));
        assert!(stays(modifier, (2, 1), (2, 2)));
    }
    assert!(skips(Modifier::X, (1, 5), (6, 2)));
    assert!(stays(Modifier::X, (1, 5), (5, 2)));
    assert!(stays(Modifier::X, (2, 5), (6, 2)));
}

#[test]
fn seq_and_sne_compare_the_routed_numbers() {
    let seq = |modifier, a, b| outcome(cmp_op, Opcode::SeqOp, modifier, a, b).1 == vec![1];
    let sne = |modifier, a, b| outcome(sne_op, Opcode::Sne, modifier, a, b).1 == vec![1];
    let cases = [
        (Modifier::A, (1, 9), (1, 0), true),
        (Modifier::A, (1, 9), (2, 9), false),
        (Modifier::B, (9, 1), (0, 1), true),
        (Modifier::B, (9, 1), (9, 2), false),
        (Modifier::AB, (1, 9), (0, 1), true),
        (Modifier::AB, (1, 9), (1, 9), false),
        (Modifier::BA, (9, 1), (1, 0), true),
        (Modifier::BA, (9, 1), (9, 1), false),
        (Modifier::F, (1, 2), (1, 2), true),
        (Modifier::F, (1, 2), (1, 3), false),
        (Modifier::F, (1, 2), (3, 2), false),
        (Modifier::X, (1, 2), (2, 1), true),
        (Modifier::X, (1, 2), (1, 2), false),
        (Modifier::X, (1, 2), (2, 2), false),
    ];
    for (modifier, a, b, equal) in cases {
        assert_eq!(seq(modifier, a, b), equal, "{modifier:?} {a:?} {b:?}");
        assert_eq!(sne(modifier, a, b), !equal, "{modifier:?} {a:?} {b:?}");
        let queue = outcome(cmp_op, Opcode::Cmp, modifier, a, b).1;
        assert_eq!(queue, if equal { vec![1] } else { vec![0] });
    }
}

#[test]
fn seq_i_compares_whole_instructions() {
    let direct = Instruction {
        opcode: Opcode::Dat,
        modifier: Modifier::F,
        a_addr_mode: AddrMode::Direct,
        b_addr_mode: AddrMode::Direct,
    };
    let immediate = Instruction::default();
    let with = |a: Instruction, b: Instruction, opcode: Opcode| {
        let mut regs = registers(opcode, Modifier::I, (0, 0), (0, 0));
        regs.a.instr = a;
        regs.b.instr = b;
        let mut machine = machine(10);
        let op = if opcode == Opcode::Sne { sne_op } else { cmp_op };
        assert_eq!(run(op, &regs, &mut machine), Ok(()));
        machine.pq.read_queue(0).unwrap()
    };
    assert_eq!(with(direct, immediate, Opcode::SeqOp), vec![0]);
    assert_eq!(with(direct, direct, Opcode::SeqOp), vec![1]);
    assert_eq!(with(immediate, immediate, Opcode::Cmp), vec![1]);
    assert_eq!(with(direct, immediate, Opcode::Sne), vec![1]);
    assert_eq!(with(direct, direct, Opcode::Sne), vec![0]);
    // With F the instructions are not looked at.
    let mut regs = registers(Opcode::SeqOp, Modifier::F, (0, 0), (0, 0));
    regs.a.instr = direct;
    let mut machine = machine(10);
    assert_eq!(run(cmp_op, &regs, &mut machine), Ok(()));
    assert_eq!(machine.pq.read_queue(0), Ok(vec![1]));
}

#[test]
fn nop_queues_the_next_instruction() {
    for modifier in ALL_MODIFIERS {
        assert_eq!(
            outcome(nop_op, Opcode::Nop, modifier, (1, 2), (3, 4)),
            ((3, 4), vec![0])
        );
    }
}

#[test]
fn ldp_loads_from_the_pspace() {
    let cases = [
        (Modifier::A, 3, true),
        (Modifier::AB, 3, false),
        (Modifier::B, 4, false),
        (Modifier::BA, 4, true),
        (Modifier::F, 4, false),
        (Modifier::X, 4, false),
        (Modifier::I, 4, false),
    ];
    for (modifier, index, to_a) in cases {
        let mut machine = machine(10);
        machine.pspace.write(3, 33, 0).unwrap();
        machine.pspace.write(4, 44, 0).unwrap();
        // The index is taken modulo the size of the PSPACE.
        let regs = registers(Opcode::Ldp, modifier, (13, 94), (1, 2));
        assert_eq!(run(ldp_op, &regs, &mut machine), Ok(()));
        let value = index * 11;
        let target = machine.core[B_AT as usize];
        let expected = if to_a { (value, 2) } else { (1, value) };
        assert_eq!((target.a_field, target.b_field), expected, "{modifier:?}");
        assert_eq!(machine.pq.read_queue(0), Ok(vec![0]));
    }
    // Index zero is the cell that the warrior has to itself.
    let mut machine = machine(10);
    machine.pspace.write(0, 77, 0).unwrap();
    let regs = registers(Opcode::Ldp, Modifier::A, (20, 0), (1, 2));
    assert_eq!(run(ldp_op, &regs, &mut machine), Ok(()));
    assert_eq!(machine.core[B_AT as usize].a_field, 77);
}

#[test]
fn stp_stores_to_the_pspace() {
    let cases = [
        (Modifier::A, 60, 3),
        (Modifier::AB, 60, 4),
        (Modifier::B, 70, 4),
        (Modifier::BA, 70, 3),
        (Modifier::F, 70, 4),
        (Modifier::X, 70, 4),
        (Modifier::I, 70, 4),
    ];
    for (modifier, value, index) in cases {
        let mut machine = machine(10);
        let regs = registers(Opcode::Stp, modifier, (60, 70), (13, 94));
        assert_eq!(run(stp_op, &regs, &mut machine), Ok(()));
        for location in 0..10 {
            let expected = if location == index { value } else { 0 };
            assert_eq!(machine.pspace.read(location, 0), Ok(expected), "{modifier:?}");
        }
        assert_eq!(machine.pq.read_queue(0), Ok(vec![0]));
        assert_eq!(machine.core[B_AT as usize].a_field, 13);
        assert_eq!(machine.core[B_AT as usize].b_field, 94);
    }
}

#[test]
fn pspace_operations_fail_without_a_pspace() {
    for op in [ldp_op, stp_op] {
        // Warrior 1 has no pin.
        let mut machine = machine(10);
        let regs = registers(Opcode::Ldp, Modifier::A, (3, 4), (1, 2));
        let result = op(OpInputs {
            warrior_id: 1,
            regs: &regs,
            core_size: SIZE,
            pq: &mut machine.pq,
            core: &mut machine.core,
            pspace: &mut machine.pspace,
        });
        assert!(matches!(result, Err(EmulatorError::InvalidParam(_))));
        assert_eq!(machine.pq.read_queue(1), Ok(vec![]));
        assert_eq!(machine.core, vec![CompleteInstruction::default(); SIZE as usize]);
        for location in 0..10 {
            assert_eq!(machine.pspace.read(location, 0), Ok(0));
        }
        // A PSPACE without cells cannot be used.
        let mut machine = machine_without_cells();
        let result = op(OpInputs {
            warrior_id: 0,
            regs: &regs,
            core_size: SIZE,
            pq: &mut machine.pq,
            core: &mut machine.core,
            pspace: &mut machine.pspace,
        });
        assert!(matches!(result, Err(EmulatorError::UnsupportedFeature(_))));
        assert_eq!(machine.pq.read_queue(0), Ok(vec![]));
    }
}

fn machine_without_cells() -> Machine {
    machine(0)
}

#[test]
fn operations_refuse_inputs_that_do_not_fit() {
    let ops: [fn(OpInputs) -> EmulatorResult<()>; 14] = [
        dat_op,
        mov_op,
        arithmetic_op,
        jmp_op,
        jmz_op,
        jmn_op,
        djn_op,
        spl_op,
        slt_op,
        cmp_op,
        sne_op,
        nop_op,
        ldp_op,
        stp_op,
    ];
    for op in ops {
        let regs = registers(Opcode::Add, Modifier::F, (1, 2), (3, 4));
        // There is no warrior 2.
        let mut machine = machine(10);
        let result = op(OpInputs {
            warrior_id: 2,
            regs: &regs,
            core_size: SIZE,
            pq: &mut machine.pq,
            core: &mut machine.core,
            pspace: &mut machine.pspace,
        });
        assert!(matches!(result, Err(EmulatorError::InternalError(_))));
        // The core is smaller than it is said to be.
        let result = op(OpInputs {
            warrior_id: 0,
            regs: &regs,
            core_size: SIZE + 1,
            pq: &mut machine.pq,
            core: &mut machine.core,
            pspace: &mut machine.pspace,
        });
        assert!(matches!(result, Err(EmulatorError::InternalError(_))));
        // A core has cells.
        let mut empty: Vec<CompleteInstruction> = vec![];
        let result = op(OpInputs {
            warrior_id: 0,
            regs: &regs,
            core_size: 0,
            pq: &mut machine.pq,
            core: &mut empty,
            pspace: &mut machine.pspace,
        });
        assert!(matches!(result, Err(EmulatorError::InternalError(_))));
        // The B-target lies outside of the core.
        let mut far = regs;
        far.b.idx = SIZE;
        let result = op(OpInputs {
            warrior_id: 0,
            regs: &far,
            core_size: SIZE,
            pq: &mut machine.pq,
            core: &mut machine.core,
            pspace: &mut machine.pspace,
        });
        assert!(matches!(result, Err(EmulatorError::InternalError(_))));
        assert_eq!(machine.core, vec![CompleteInstruction::default(); SIZE as usize]);
        assert_eq!(machine.pq.read_queue(0), Ok(vec![]));
        assert_eq!(machine.pq.read_queue(1), Ok(vec![]));
        for location in 0..10 {
            assert_eq!(machine.pspace.read(location, 0), Ok(0));
        }
    }
}
