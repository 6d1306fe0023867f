use ckb_vm_definitions::instructions as defs;
use rvcore::memory::{FlatMemory, Memory};
use rvcore::rv32m::{encode, op_name, op_opcode, RtypeInstruction};
use rvcore::trace::{
    bridge_step, build_trace, reason_code, reason_from_code, BridgeState, Reason, Trace,
    TraceCache, RET_DECODE_TRACE, RET_EBREAK, RET_ECALL, RET_MAX_CYCLES_EXCEEDED,
    TRACE_CACHE_CAPACITY, TRACE_ITEM_LENGTH,
};

const ALL_OPS: [RtypeInstruction; 8] = [
    RtypeInstruction::MUL,
    RtypeInstruction::MULH,
    RtypeInstruction::MULHSU,
    RtypeInstruction::MULHU,
    RtypeInstruction::DIV,
    RtypeInstruction::DIVU,
    RtypeInstruction::REM,
    RtypeInstruction::REMU,
];

fn memory_with_muls(count: usize) -> FlatMemory {
    let w = encode(0, 3, 1, 2);
    let mut mem = FlatMemory::new(4 * count);
    for i in 0..count {
        mem.store32(4 * i as u64, w).unwrap();
    }
    mem
}

#[test]
fn build_trace_covers_the_basic_block() {
    let mem = memory_with_muls(4);
    let t = build_trace(&mem, 0);
    assert_eq!(t.address, 0);
    assert_eq!(t.instructions.len(), 4);
    assert_eq!(t.length, 16);
    assert_eq!(t.cycles, 4);
}

#[test]
fn build_trace_stops_at_capacity() {
    let mem = memory_with_muls(40);
    let t = build_trace(&mem, 0);
    assert_eq!(t.instructions.len(), TRACE_ITEM_LENGTH);
    assert_eq!(t.length as usize, 4 * TRACE_ITEM_LENGTH);
}

#[test]
fn build_trace_stops_at_undecodable_word() {
    let mut mem = memory_with_muls(4);
    mem.store32(8, 0xffff_ffff).unwrap();
    let t = build_trace(&mem, 0);
    assert_eq!(t.instructions.len(), 2);
}

#[test]
fn trace_invalidation_forces_redecode() {
    // Cache a trace, write inside its byte range, and check that the
    // stale trace is gone and a re-decode sees the new memory.
    let mut mem = memory_with_muls(4);
    let t = build_trace(&mem, 0);
    assert_eq!(t.instructions.len(), 4);
    let mut cache = TraceCache::new();
    cache.insert(t);
    assert!(cache.find(0).is_some());

    mem.store32(8, 0xffff_ffff).unwrap();
    cache.invalidate_write(8, 4);
    assert!(cache.find(0).is_none());

    let fresh = build_trace(&mem, 0);
    assert_eq!(fresh.instructions.len(), 2);
}

#[test]
fn writes_outside_a_trace_keep_it() {
    let mem = memory_with_muls(4);
    let t = build_trace(&mem, 0);
    let mut cache = TraceCache::new();
    cache.insert(t);
    cache.invalidate_write(16, 4);
    let idx = cache.find(0).unwrap();
    let kept = cache.get(idx);
    assert_eq!(kept.address, 0);
    assert_eq!(kept.length, 16);
}

#[test]
fn invalidation_keeps_surviving_traces_in_order() {
    // Traces over [0, 8), [32, 40) and [64, 72); a write into the middle
    // one removes it alone and leaves the others in their original
    // (oldest-first) order.
    let mut cache = TraceCache::new();
    for start in [0u64, 32, 64] {
        cache.insert(Trace {
            address: start,
            length: 8,
            cycles: 2,
            instructions: Vec::new(),
            thread: 0,
        });
    }
    cache.invalidate_write(33, 4);
    assert_eq!(cache.len(), 2);
    assert_eq!(cache.get(0).address, 0);
    assert_eq!(cache.get(1).address, 64);
}

#[test]
fn bridge_state_machine_transitions() {
    let miss = Reason::DecodeTraceMiss;
    // Fresh blocks are decoded and cached, cached blocks are handed to the
    // accelerated path, and the path's return carries its reason.
    assert_eq!(bridge_step(BridgeState::Fresh, miss, false), BridgeState::Cached);
    assert_eq!(bridge_step(BridgeState::Cached, miss, false), BridgeState::Executing);
    assert_eq!(
        bridge_step(BridgeState::Executing, Reason::EnvironmentCall, false),
        BridgeState::Returned(Reason::EnvironmentCall)
    );
    // After a return, the next round is Cached exactly when the new pc
    // already has a cached trace.
    assert_eq!(
        bridge_step(BridgeState::Returned(miss), miss, true),
        BridgeState::Cached
    );
    assert_eq!(
        bridge_step(BridgeState::Returned(miss), miss, false),
        BridgeState::Fresh
    );
}

#[test]
fn cache_is_bounded_and_evicts_the_oldest() {
    let mem = memory_with_muls(1);
    let mut cache = TraceCache::new();
    for i in 0..(TRACE_CACHE_CAPACITY + 1) {
        let mut t = build_trace(&mem, 0);
        t.address = (4 * i) as u64;
        cache.insert(t);
    }
    assert_eq!(cache.len(), TRACE_CACHE_CAPACITY);
    // The first inserted trace was evicted; the newest is present.
    assert!(cache.find(0).is_none());
    assert!(cache.find((4 * TRACE_CACHE_CAPACITY) as u64).is_some());
}

#[test]
fn reason_codes_round_trip() {
    for r in [
        Reason::DecodeTraceMiss,
        Reason::EnvironmentCall,
        Reason::Breakpoint,
        Reason::CycleBudgetExceeded,
    ] {
        assert_eq!(reason_from_code(reason_code(r)), Some(r));
    }
    assert_eq!(reason_from_code(0), None);
    assert_eq!(reason_from_code(9), None);
}

#[test]
fn reason_codes_hold_their_contract_values() {
    assert_eq!(RET_DECODE_TRACE, 1);
    assert_eq!(RET_ECALL, 2);
    assert_eq!(RET_EBREAK, 3);
    assert_eq!(RET_MAX_CYCLES_EXCEEDED, 5);
    assert_eq!(TRACE_ITEM_LENGTH, 16);
}

#[test]
fn opcode_identifiers_match_the_accelerated_path() {
    assert_eq!(op_opcode(RtypeInstruction::MUL), defs::OP_MUL);
    assert_eq!(op_opcode(RtypeInstruction::MULH), defs::OP_MULH);
    assert_eq!(op_opcode(RtypeInstruction::MULHSU), defs::OP_MULHSU);
    assert_eq!(op_opcode(RtypeInstruction::MULHU), defs::OP_MULHU);
    assert_eq!(op_opcode(RtypeInstruction::DIV), defs::OP_DIV);
    assert_eq!(op_opcode(RtypeInstruction::DIVU), defs::OP_DIVU);
    assert_eq!(op_opcode(RtypeInstruction::REM), defs::OP_REM);
    assert_eq!(op_opcode(RtypeInstruction::REMU), defs::OP_REMU);
}

#[test]
fn every_operation_has_exactly_one_name_and_id() {
    for (i, a) in ALL_OPS.iter().enumerate() {
        assert_eq!(op_name(*a), ckb_vm_definitions::instructions::instruction_opcode_name(
            op_opcode(*a),
        ));
        for (j, b) in ALL_OPS.iter().enumerate() {
            if i != j {
                assert_ne!(op_name(*a), op_name(*b));
                assert_ne!(op_opcode(*a), op_opcode(*b));
            }
        }
    }
}
