use vstd::prelude::*;
use crate::instructions::{Instruction, spec_decode, decode, INSTRUCTION_CYCLE_COST};
use crate::memory::{Memory, le32};

verus! {

/// Largest number of instructions a cached basic block may carry.
pub const TRACE_ITEM_LENGTH: usize = 16;

/// Number of traces the cache retains; inserting into a full cache evicts
/// the oldest entry first.
pub const TRACE_CACHE_CAPACITY: usize = 64;

/// Return codes of the accelerated execution path, part of the binary
/// contract with it: why control came back to the generic interpreter.
pub const RET_DECODE_TRACE: u8 = 1;

pub const RET_ECALL: u8 = 2;

pub const RET_EBREAK: u8 = 3;

pub const RET_MAX_CYCLES_EXCEEDED: u8 = 5;

/// Why the accelerated path handed control back: a program counter with
/// no cached trace, an environment call, a breakpoint, or an exhausted
/// cycle budget.  None of these is an error.
#[derive(Clone, Copy, Debug, PartialEq, Eq, Structural)]
pub enum Reason {
    DecodeTraceMiss,
    EnvironmentCall,
    Breakpoint,
    CycleBudgetExceeded,
}

pub open spec fn spec_reason_code(r: Reason) -> u8 {
    match r {
        Reason::DecodeTraceMiss => RET_DECODE_TRACE,
        Reason::EnvironmentCall => RET_ECALL,
        Reason::Breakpoint => RET_EBREAK,
        Reason::CycleBudgetExceeded => RET_MAX_CYCLES_EXCEEDED,
    }
}

/// The numeric code of a reason, as the accelerated path reports it.
pub fn reason_code(r: Reason) -> (c: u8)
    ensures
        c == spec_reason_code(r),
{
    match r {
        Reason::DecodeTraceMiss => RET_DECODE_TRACE,
        Reason::EnvironmentCall => RET_ECALL,
        Reason::Breakpoint => RET_EBREAK,
        Reason::CycleBudgetExceeded => RET_MAX_CYCLES_EXCEEDED,
    }
}

/// Read a reason back from its numeric code; codes outside the
/// enumeration are refused.
pub fn reason_from_code(c: u8) -> (r: Option<Reason>)
    ensures
        r matches Some(reason) ==> spec_reason_code(reason) == c,
        r is None ==> forall|reason: Reason| spec_reason_code(reason) != c,
{
    if c == RET_DECODE_TRACE {
        Some(Reason::DecodeTraceMiss)
    } else if c == RET_ECALL {
        Some(Reason::EnvironmentCall)
    } else if c == RET_EBREAK {
        Some(Reason::Breakpoint)
    } else if c == RET_MAX_CYCLES_EXCEEDED {
        Some(Reason::CycleBudgetExceeded)
    } else {
        None
    }
}

/// Codes round-trip: every reason is recovered from its own code.
pub proof fn lemma_reason_code_round_trip(r: Reason)
    ensures
        forall|other: Reason|
            spec_reason_code(other) == spec_reason_code(r) ==> other == r,
{
}

/// A cached, already-decoded basic block: the byte range it was decoded
/// from, its accumulated cycle cost, the decoded instructions, and the
/// ownership tag of the accelerated-execution invocation that considers
/// it valid.
pub struct Trace {
    pub address: u64,
    pub length: u64,
    pub cycles: u64,
    pub instructions: Vec<Instruction>,
    pub thread: u64,
}

/// Whether a write of `len` bytes at `addr` touches the byte range the
/// trace was decoded from.
pub open spec fn overlaps(t: Trace, addr: u64, len: u64) -> bool {
    t.address < addr + len && addr < t.address + t.length
}

/// What it means for entry `k` of a trace decoded at `pc` to be faithful
/// to the memory below it: the word lies inside the memory, decodes, and
/// decodes to exactly this instruction.
pub open spec fn trace_entry_ok(mem: Seq<u8>, pc: u64, k: int, inst: Instruction) -> bool {
    &&& pc + 4 * k + 4 <= mem.len()
    &&& spec_decode(le32(mem, pc + 4 * k) as u32) == Some(inst)
    &&& inst.wf()
}

/// Why decoding stops at entry `n` of a block at `pc`: the address space
/// ends, the memory ends, or the word there is not a recognized
/// instruction.  A trace shorter than its capacity is maximal: it stops
/// only for one of these reasons, so in particular it is never empty
/// while the word under `pc` decodes.
pub open spec fn trace_blocked(mem: Seq<u8>, pc: u64, n: int) -> bool {
    ||| pc + 4 * n > u64::MAX
    ||| pc + 4 * n + 4 > mem.len()
    ||| spec_decode(le32(mem, pc + 4 * n) as u32) is None
}

/// Decode the basic block that starts at `pc`: consecutive instruction
/// words are decoded until a word is not recognized, the memory ends, or
/// the block reaches its capacity.  Every instruction in the trace is
/// exactly what decoding the bytes below it yields.
pub fn build_trace<M: Memory>(memory: &M, pc: u64) -> (t: Trace)
    ensures
        t.address == pc,
        t.instructions@.len() <= TRACE_ITEM_LENGTH,
        t.length == 4 * t.instructions@.len(),
        t.cycles == INSTRUCTION_CYCLE_COST * t.instructions@.len(),
        forall|k: int|
            0 <= k < t.instructions@.len() ==> #[trigger] trace_entry_ok(
                memory.view(),
                pc,
                k,
                t.instructions@[k],
            ),
        t.instructions@.len() < TRACE_ITEM_LENGTH ==> trace_blocked(
            memory.view(),
            pc,
            t.instructions@.len() as int,
        ),
{
    let mut instructions: Vec<Instruction> = Vec::new();
    let mut done = false;
    while !done && instructions.len() < TRACE_ITEM_LENGTH
        invariant
            instructions@.len() <= TRACE_ITEM_LENGTH,
            forall|k: int|
                0 <= k < instructions@.len() ==> #[trigger] trace_entry_ok(
                    memory.view(),
                    pc,
                    k,
                    instructions@[k],
                ),
            done ==> trace_blocked(memory.view(), pc, instructions@.len() as int),
        decreases TRACE_ITEM_LENGTH - instructions@.len(), if done { 0int } else { 1int },
    {
        match pc.checked_add(4 * (instructions.len() as u64)) {
            None => {
                done = true;
            },
            Some(addr) => {
                match memory.load32(addr) {
                    Err(_) => {
                        done = true;
                    },
                    Ok(w) => {
                        match decode(w) {
                            None => {
                                proof {
                                    assert(le32(memory.view(), pc + 4 * instructions@.len()) as u32
                                        == w);
                                }
                                done = true;
                            },
                            Some(inst) => {
                                let ghost prev = instructions@;
                                instructions.push(inst);
                                proof {
                                    assert forall|k: int| 0 <= k < instructions@.len() implies
                                        #[trigger] trace_entry_ok(
                                        memory.view(),
                                        pc,
                                        k,
                                        instructions@[k],
                                    ) by {
                                        if k < prev.len() {
                                            assert(instructions@[k] == prev[k]);
                                        } else {
                                            assert(instructions@[k] == inst);
                                            assert(pc + 4 * k == addr as int);
                                            assert(le32(memory.view(), addr as int) == w);
                                            assert(le32(memory.view(), pc + 4 * k) as u32 == w);
                                        }
                                    }
                                }
                            },
                        }
                    },
                }
            },
        }
    }
    let n = instructions.len() as u64;
    Trace {
        address: pc,
        length: 4 * n,
        cycles: INSTRUCTION_CYCLE_COST * n,
        instructions,
        thread: 0,
    }
}

/// The bounded cache of decoded basic blocks used by the accelerated
/// execution path.
pub struct TraceCache {
    traces: Vec<Trace>,
}

/// The traces that survive a write of `len` bytes at `addr`: exactly
/// those whose byte range the write does not touch, in their original
/// order.
pub open spec fn surviving(s: Seq<Trace>, addr: u64, len: u64) -> Seq<Trace> {
    s.filter(|t: Trace| !overlaps(t, addr, len))
}

/// Relation between the cache before and after it has seen a write of
/// `len` bytes at `addr`: every trace still present does not touch the
/// written range and was present before, and every untouched trace is
/// still present.
pub open spec fn invalidated(pre: TraceCache, post: TraceCache, addr: u64, len: u64) -> bool {
    &&& forall|i: int|
        0 <= i < post.spec_traces().len() ==> !overlaps(#[trigger] post.spec_traces()[i], addr, len)
            && pre.spec_traces().contains(post.spec_traces()[i])
    &&& forall|j: int|
        0 <= j < pre.spec_traces().len() && !overlaps(#[trigger] pre.spec_traces()[j], addr, len)
            ==> post.spec_traces().contains(pre.spec_traces()[j])
}

impl TraceCache {
    pub closed spec fn spec_traces(self) -> Seq<Trace> {
        self.traces@
    }

    pub open spec fn inv(self) -> bool {
        self.spec_traces().len() <= TRACE_CACHE_CAPACITY
    }

    pub fn new() -> (c: TraceCache)
        ensures
            c.inv(),
            c.spec_traces().len() == 0,
    {
        TraceCache { traces: Vec::new() }
    }

    pub fn len(&self) -> (n: usize)
        ensures
            n == self.spec_traces().len(),
    {
        self.traces.len()
    }

    /// Cache a trace; a full cache evicts its oldest entry first.
    pub fn insert(&mut self, t: Trace)
        requires
            old(self).inv(),
        ensures
            final(self).inv(),
            old(self).spec_traces().len() < TRACE_CACHE_CAPACITY ==> final(self).spec_traces()
                == old(self).spec_traces().push(t),
            old(self).spec_traces().len() >= TRACE_CACHE_CAPACITY ==> final(self).spec_traces()
                == old(self).spec_traces().subrange(
                1,
                old(self).spec_traces().len() as int,
            ).push(t),
    {
        if self.traces.len() >= TRACE_CACHE_CAPACITY {
            self.traces.remove(0);
            proof {
                assert(self.traces@ =~= old(self).spec_traces().subrange(
                    1,
                    old(self).spec_traces().len() as int,
                ));
            }
        }
        self.traces.push(t);
    }

    /// Find the cached trace decoded from exactly the given address.
    pub fn find(&self, addr: u64) -> (r: Option<usize>)
        ensures
            r matches Some(i) ==> i < self.spec_traces().len() && self.spec_traces()[i as int].address
                == addr,
            r is None ==> forall|i: int|
                0 <= i < self.spec_traces().len() ==> (#[trigger] self.spec_traces()[i]).address
                    != addr,
    {
        let mut i: usize = 0;
        while i < self.traces.len()
            invariant
                i <= self.spec_traces().len(),
                forall|j: int|
                    0 <= j < i ==> (#[trigger] self.spec_traces()[j]).address != addr,
            decreases self.spec_traces().len() - i,
        {
            if self.traces[i].address == addr {
                return Some(i);
            }
            i = i + 1;
        }
        None
    }

    pub fn get(&self, i: usize) -> (t: &Trace)
        requires
            i < self.spec_traces().len(),
        ensures
            *t == self.spec_traces()[i as int],
    {
        &self.traces[i]
    }

    /// Drop every trace whose byte range the write touches: stale decoded
    /// instructions must never run after the bytes below them changed.
    /// The untouched traces survive in their original order, so the
    /// cache's oldest-first eviction keeps its meaning.
    pub fn invalidate_write(&mut self, addr: u64, len: u64)
        requires
            old(self).inv(),
        ensures
            final(self).inv(),
            final(self).spec_traces() == surviving(old(self).spec_traces(), addr, len),
            invalidated(*old(self), *final(self), addr, len),
    {
        let ghost pre = *self;
        let mut kept: Vec<Trace> = Vec::new();
        proof {
            assert(self.traces@ =~= pre.spec_traces().subrange(
                0,
                pre.spec_traces().len() as int,
            ));
            assert(pre.spec_traces().take(0) =~= Seq::<Trace>::empty());
            reveal(Seq::filter);
        }
        while self.traces.len() > 0
            invariant
                kept@.len() + self.traces@.len() <= pre.spec_traces().len(),
                self.traces@ == pre.spec_traces().subrange(
                    pre.spec_traces().len() - self.traces@.len(),
                    pre.spec_traces().len() as int,
                ),
                kept@ == surviving(
                    pre.spec_traces().take(pre.spec_traces().len() - self.traces@.len()),
                    addr,
                    len,
                ),
                forall|i: int|
                    0 <= i < kept@.len() ==> !overlaps(#[trigger] kept@[i], addr, len)
                        && pre.spec_traces().contains(kept@[i]),
                forall|j: int|
                    0 <= j < pre.spec_traces().len() - self.traces@.len() && !overlaps(
                        #[trigger] pre.spec_traces()[j],
                        addr,
                        len,
                    ) ==> kept@.contains(pre.spec_traces()[j]),
            decreases self.traces@.len(),
        {
            let ghost k = pre.spec_traces().len() - self.traces@.len();
            let t = self.traces.remove(0);
            proof {
                assert(t == pre.spec_traces()[k]);
                assert(self.traces@ =~= pre.spec_traces().subrange(
                    k + 1,
                    pre.spec_traces().len() as int,
                ));
                assert(pre.spec_traces().take(k + 1).drop_last() =~= pre.spec_traces().take(k));
                assert(pre.spec_traces().take(k + 1).last() == pre.spec_traces()[k]);
                reveal(Seq::filter);
            }
            let touches = ((t.address as u128) < (addr as u128) + (len as u128)) && ((addr as u128)
                < (t.address as u128) + (t.length as u128));
            let ghost kept_before = kept@;
            if !touches {
                kept.push(t);
            }
            proof {
                assert forall|x: Trace| kept_before.contains(x) implies kept@.contains(x) by {
                    let w = choose|w: int| 0 <= w < kept_before.len() && kept_before[w] == x;
                    assert(kept@[w] == x);
                }
                if !touches {
                    assert(kept@[kept@.len() - 1] == t);
                    assert(kept@.contains(t));
                }
            }
        }
        proof {
            assert(pre.spec_traces().take(pre.spec_traces().len() as int) =~= pre.spec_traces());
        }
        self.traces = kept;
    }
}

/// State of the accelerated-execution bridge for the block under the
/// current program counter: no cached trace yet, a valid trace present,
/// control handed to the accelerated path, or control handed back with a
/// reason code.
#[derive(Clone, Copy, Debug, PartialEq, Eq, Structural)]
pub enum BridgeState {
    Fresh,
    Cached,
    Executing,
    Returned(Reason),
}

/// One transition of the bridge's state machine.  From Fresh the block is
/// decoded and cached; from Cached control goes to the accelerated path;
/// from Executing the path comes back with the reason it stopped; from
/// Returned the next round starts Cached or Fresh depending on whether
/// the new program counter already has a cached trace.
pub open spec fn spec_bridge_step(s: BridgeState, reason: Reason, has_cached: bool) -> BridgeState {
    match s {
        BridgeState::Fresh => BridgeState::Cached,
        BridgeState::Cached => BridgeState::Executing,
        BridgeState::Executing => BridgeState::Returned(reason),
        BridgeState::Returned(_) => if has_cached {
            BridgeState::Cached
        } else {
            BridgeState::Fresh
        },
    }
}

/// Advance the bridge's state machine: `reason` is what the accelerated
/// path reported when it stopped (read only out of Executing), and
/// `has_cached` says whether the trace cache holds the block under the
/// new program counter (read only out of Returned).
pub fn bridge_step(s: BridgeState, reason: Reason, has_cached: bool) -> (r: BridgeState)
    ensures
        r == spec_bridge_step(s, reason, has_cached),
{
    match s {
        BridgeState::Fresh => BridgeState::Cached,
        BridgeState::Cached => BridgeState::Executing,
        BridgeState::Executing => BridgeState::Returned(reason),
        BridgeState::Returned(_) => if has_cached {
            BridgeState::Cached
        } else {
            BridgeState::Fresh
        },
    }
}

/// Trace invalidation, seen from a later lookup: once the cache has
/// processed a write, no trace it still holds covers any byte of the
/// written range, so re-entering the written code must re-decode from the
/// updated memory.
pub proof fn lemma_no_stale_trace(pre: TraceCache, post: TraceCache, addr: u64, len: u64, i: int)
    requires
        invalidated(pre, post, addr, len),
        0 <= i < post.spec_traces().len(),
    ensures
        !overlaps(post.spec_traces()[i], addr, len),
{
}

} // verus!
