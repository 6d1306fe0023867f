use rvcore::machine::Machine;
use rvcore::memory::{FlatMemory, Memory};
use rvcore::instructions::{decode, step, run, Instruction};
use rvcore::rv32m::{encode, factory, RtypeInstruction};
use rvcore::Error;

// funct3 selectors of the eight operations.
const F3_MUL: u32 = 0;
const F3_DIV: u32 = 4;
const F3_DIVU: u32 = 5;
const F3_REM: u32 = 6;
const F3_REMU: u32 = 7;

fn machine_with_program(words: &[u32], budget: u64) -> Machine<u64, FlatMemory> {
    let mut machine: Machine<u64, FlatMemory> = Machine::new(
        0u64,
        budget,
        FlatMemory::new(4 * words.len() + 64),
    );
    for (i, w) in words.iter().enumerate() {
        machine.store32(4 * i as u64, *w).unwrap();
    }
    machine
}

#[test]
fn remu_by_zero_leaves_dividend_and_advances_pc() {
    // Two registers hold 7 and 0; REMU x3, x1, x2 must leave 7 in x3 and
    // advance the pc by 4.
    let w = encode(F3_REMU, 3, 1, 2);
    let mut machine = machine_with_program(&[w], 100);
    machine.update_register(1, 7u64);
    machine.update_register(2, 0u64);
    assert_eq!(step(&mut machine), Ok(()));
    assert_eq!(machine.register(3), 7u64);
    assert_eq!(machine.pc(), 4u64);
}

#[test]
fn division_by_zero_substitutions() {
    // DIV by zero gives all ones (-1); DIVU gives the maximum; REM and
    // REMU give the dividend back.
    for (f3, expected) in [
        (F3_DIV, u64::MAX),
        (F3_DIVU, u64::MAX),
        (F3_REM, 7u64),
        (F3_REMU, 7u64),
    ] {
        let w = encode(f3, 3, 1, 2);
        let mut machine = machine_with_program(&[w], 100);
        machine.update_register(1, 7u64);
        machine.update_register(2, 0u64);
        assert_eq!(step(&mut machine), Ok(()));
        assert_eq!(machine.register(3), expected, "funct3 {}", f3);
    }
}

#[test]
fn signed_overflow_div_rem_u64() {
    let min = 0x8000_0000_0000_0000u64;
    let minus_one = (-1i64) as u64;
    let w = encode(F3_DIV, 3, 1, 2);
    let mut machine = machine_with_program(&[w], 100);
    machine.update_register(1, min);
    machine.update_register(2, minus_one);
    assert_eq!(step(&mut machine), Ok(()));
    assert_eq!(machine.register(3), min);

    let w = encode(F3_REM, 3, 1, 2);
    let mut machine = machine_with_program(&[w], 100);
    machine.update_register(1, min);
    machine.update_register(2, minus_one);
    assert_eq!(step(&mut machine), Ok(()));
    assert_eq!(machine.register(3), 0u64);
}

#[test]
fn signed_overflow_div_rem_u32() {
    let min = 0x8000_0000u32;
    let minus_one = (-1i32) as u32;
    let mut machine: Machine<u32, FlatMemory> = Machine::new(0u32, 100, FlatMemory::new(64));
    machine.store32(0, encode(F3_DIV, 3, 1, 2)).unwrap();
    machine.update_register(1, min);
    machine.update_register(2, minus_one);
    assert_eq!(step(&mut machine), Ok(()));
    assert_eq!(machine.register(3), min);
    assert_eq!(machine.pc(), 4u32);
}

#[test]
fn writes_to_register_zero_are_discarded() {
    // MUL x0, x1, x2 with nonzero operands leaves x0 at zero.
    let w = encode(F3_MUL, 0, 1, 2);
    let mut machine = machine_with_program(&[w], 100);
    machine.update_register(1, 6u64);
    machine.update_register(2, 7u64);
    assert_eq!(step(&mut machine), Ok(()));
    assert_eq!(machine.register(0), 0u64);
    // The write path itself also discards direct writes.
    machine.update_register(0, 99u64);
    assert_eq!(machine.register(0), 0u64);
}

#[test]
fn decode_round_trip_all_operations() {
    let expected = [
        RtypeInstruction::MUL,
        RtypeInstruction::MULH,
        RtypeInstruction::MULHSU,
        RtypeInstruction::MULHU,
        RtypeInstruction::DIV,
        RtypeInstruction::DIVU,
        RtypeInstruction::REM,
        RtypeInstruction::REMU,
    ];
    for f3 in 0..8u32 {
        for (rd, rs1, rs2) in [(0u32, 0u32, 0u32), (3, 1, 2), (31, 30, 29), (1, 31, 15)] {
            let w = encode(f3, rd, rs1, rs2);
            match factory(w) {
                Some(Instruction::RV32M(mi)) => {
                    assert_eq!(mi.0.rd, rd as usize);
                    assert_eq!(mi.0.rs1, rs1 as usize);
                    assert_eq!(mi.0.rs2, rs2 as usize);
                    assert_eq!(mi.0.inst, expected[f3 as usize]);
                },
                None => panic!("word {:#x} did not decode", w),
            }
        }
    }
}

#[test]
fn decode_known_word() {
    // mul x3, x1, x2 assembles to 0x022081b3.
    assert_eq!(encode(F3_MUL, 3, 1, 2), 0x0220_81b3);
    assert!(matches!(factory(0x0220_81b3), Some(Instruction::RV32M(_))));
}

#[test]
fn decode_rejects_foreign_words() {
    // addi x0, x0, 0 (opcode 0x13) belongs to another extension.
    assert!(factory(0x0000_0013).is_none());
    assert!(decode(0x0000_0013).is_none());
    // Right opcode but funct7 zero is plain ADD, not this extension.
    assert!(factory(0x0020_81b3).is_none());
    // An all-ones word matches neither.
    assert!(factory(0xffff_ffff).is_none());
}

#[test]
fn cycle_budget_halts_at_instruction_boundary() {
    // Budget 3 with a long straight-line program: exactly 3 instructions
    // execute, the fourth is never started.
    let w = encode(F3_MUL, 3, 1, 2);
    let program = [w; 16];
    let mut machine = machine_with_program(&program, 3);
    assert_eq!(run(&mut machine), Error::CycleBudgetExceeded);
    assert_eq!(machine.cycles(), 3);
    assert_eq!(machine.pc(), 12u64);
}

#[test]
fn zero_budget_executes_nothing() {
    let w = encode(F3_MUL, 3, 1, 2);
    let mut machine = machine_with_program(&[w], 0);
    machine.update_register(1, 6u64);
    machine.update_register(2, 7u64);
    assert_eq!(step(&mut machine), Err(Error::CycleBudgetExceeded));
    assert_eq!(machine.register(3), 0u64);
    assert_eq!(machine.pc(), 0u64);
    assert_eq!(machine.cycles(), 0);
}

#[test]
fn undecodable_word_is_a_decode_error() {
    let mut machine = machine_with_program(&[0xffff_ffff], 100);
    assert_eq!(step(&mut machine), Err(Error::DecodeError));
    assert_eq!(machine.pc(), 0u64);
}

#[test]
fn fetch_past_memory_end_is_a_memory_fault() {
    let mut machine: Machine<u64, FlatMemory> = Machine::new(0u64, 100, FlatMemory::new(2));
    assert_eq!(step(&mut machine), Err(Error::MemoryFault));
}

#[test]
fn run_until_illegal_instruction() {
    // Two MULs then zeroed memory, which does not decode.
    let w = encode(F3_MUL, 3, 1, 2);
    let mut machine = machine_with_program(&[w, w], 100);
    assert_eq!(run(&mut machine), Error::DecodeError);
    assert_eq!(machine.cycles(), 2);
    assert_eq!(machine.pc(), 8u64);
}

#[test]
fn mul_writes_low_bits_of_product() {
    let w = encode(F3_MUL, 3, 1, 2);
    let mut machine = machine_with_program(&[w], 100);
    machine.update_register(1, u64::MAX);
    machine.update_register(2, u64::MAX);
    assert_eq!(step(&mut machine), Ok(()));
    // (-1) * (-1) = 1.
    assert_eq!(machine.register(3), 1u64);
}

#[test]
fn memory_load_store_round_trips() {
    let mut mem = FlatMemory::new(32);
    mem.store8(0, 0xab).unwrap();
    assert_eq!(mem.load8(0), Ok(0xab));
    mem.store16(3, 0xbeef).unwrap();
    assert_eq!(mem.load16(3), Ok(0xbeef));
    mem.store32(7, 0xdead_beef).unwrap();
    assert_eq!(mem.load32(7), Ok(0xdead_beef));
    mem.store64(12, 0x0123_4567_89ab_cdef).unwrap();
    assert_eq!(mem.load64(12), Ok(0x0123_4567_89ab_cdef));
    // Little-endian byte order.
    assert_eq!(mem.load8(7), Ok(0xef));
    assert_eq!(mem.load8(10), Ok(0xde));
    // Out of bounds faults, in bounds stays readable.
    assert_eq!(mem.load32(30), Err(Error::MemoryFault));
    assert_eq!(mem.store32(29, 1), Err(Error::MemoryFault));
    assert_eq!(mem.load64(25), Err(Error::MemoryFault));
}
