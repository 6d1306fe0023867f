use vstd::prelude::*;
use crate::machine::Machine;
use crate::memory::Memory;
use crate::register::Register;
use crate::Error;

verus! {

/// Opcode field of an instruction word: bits 0 to 6.
pub open spec fn opcode_of(w: u32) -> u32 {
    w & 0x7f
}

/// funct3 field: bits 12 to 14.
pub open spec fn funct3_of(w: u32) -> u32 {
    (w >> 12) & 0x7
}

/// funct7 field: bits 25 to 31.
pub open spec fn funct7_of(w: u32) -> u32 {
    (w >> 25) & 0x7f
}

/// Destination register index: bits 7 to 11.
pub open spec fn rd_of(w: u32) -> u32 {
    (w >> 7) & 0x1f
}

/// First source register index: bits 15 to 19.
pub open spec fn rs1_of(w: u32) -> u32 {
    (w >> 15) & 0x1f
}

/// Second source register index: bits 20 to 24.
pub open spec fn rs2_of(w: u32) -> u32 {
    (w >> 20) & 0x1f
}

pub fn opcode(instruction_bits: u32) -> (r: u32)
    ensures
        r == opcode_of(instruction_bits),
{
    instruction_bits & 0x7f
}

pub fn funct3(instruction_bits: u32) -> (r: u32)
    ensures
        r == funct3_of(instruction_bits),
{
    (instruction_bits >> 12) & 0x7
}

pub fn funct7(instruction_bits: u32) -> (r: u32)
    ensures
        r == funct7_of(instruction_bits),
{
    (instruction_bits >> 25) & 0x7f
}

pub fn rd(instruction_bits: u32) -> (r: usize)
    ensures
        r == rd_of(instruction_bits) as usize,
        r < 32,
{
    proof {
        assert((instruction_bits >> 7) & 0x1f < 32) by (bit_vector);
    }
    ((instruction_bits >> 7) & 0x1f) as usize
}

pub fn rs1(instruction_bits: u32) -> (r: usize)
    ensures
        r == rs1_of(instruction_bits) as usize,
        r < 32,
{
    proof {
        assert((instruction_bits >> 15) & 0x1f < 32) by (bit_vector);
    }
    ((instruction_bits >> 15) & 0x1f) as usize
}

pub fn rs2(instruction_bits: u32) -> (r: usize)
    ensures
        r == rs2_of(instruction_bits) as usize,
        r < 32,
{
    proof {
        assert((instruction_bits >> 20) & 0x1f < 32) by (bit_vector);
    }
    ((instruction_bits >> 20) & 0x1f) as usize
}

/// The tagged union over all instruction-set extensions.  Adding an
/// extension means adding a variant and a match arm below.
pub enum Instruction {
    RV32M(crate::rv32m::Instruction),
}

impl Instruction {
    pub open spec fn wf(self) -> bool {
        match self {
            Instruction::RV32M(mi) => mi.0.wf(),
        }
    }
}

/// Abstract cost charged for every executed instruction.
pub const INSTRUCTION_CYCLE_COST: u64 = 1;

/// What the aggregate decoder yields: extensions are tried in a fixed
/// order and the first match wins; a word no extension recognizes is an
/// illegal instruction.
pub open spec fn spec_decode(w: u32) -> Option<Instruction> {
    crate::rv32m::spec_factory(w)
}

pub fn decode(instruction_bits: u32) -> (r: Option<Instruction>)
    ensures
        r == spec_decode(instruction_bits),
        r matches Some(i) ==> i.wf(),
{
    crate::rv32m::factory(instruction_bits)
}

/// Dispatch one decoded instruction against the machine.
pub fn execute<R: Register, M: Memory>(inst: &Instruction, machine: &mut Machine<R, M>) -> (r: Result<(), Error>)
    requires
        old(machine).wf(),
        inst.wf(),
    ensures
        final(machine).wf(),
        (inst matches Instruction::RV32M(mi) ==> r == Ok::<(), Error>(())
            && crate::rv32m::full_post(*old(machine), *final(machine), mi.0)),
{
    match inst {
        Instruction::RV32M(mi) => mi.execute(machine),
    }
}

/// The instruction word under the program counter, or nothing when the
/// counter points past the memory's extent.
pub open spec fn spec_fetch<R: Register, M: Memory>(m: Machine<R, M>) -> Option<u32> {
    if m.spec_pc().uval() + 4 <= m.spec_memory().view().len() {
        Some(crate::memory::le32(m.spec_memory().view(), m.spec_pc().uval()) as u32)
    } else {
        None
    }
}

/// Effect of one completed fetch-decode-execute round on the machine:
/// the instruction's own effect plus the charged cycle cost.
pub open spec fn step_post<R: Register, M: Memory>(
    pre: Machine<R, M>,
    post: Machine<R, M>,
    rt: crate::rv32m::Rtype,
) -> bool {
    &&& post.wf()
    &&& post.spec_regs().len() == pre.spec_regs().len()
    &&& forall|i: int|
        0 <= i < pre.spec_regs().len() && i != rt.rd ==> post.spec_regs()[i] == pre.spec_regs()[i]
    &&& rt.rd != 0 ==> post.spec_regs()[rt.rd as int].uval() == crate::rv32m::rtype_value(
        rt.inst,
        pre.spec_regs()[rt.rs1 as int],
        pre.spec_regs()[rt.rs2 as int],
    )
    &&& rt.rd == 0 ==> post.spec_regs() == pre.spec_regs()
    &&& post.spec_pc().uval() == if pre.spec_pc().uval() + 4 < R::wmod() {
        pre.spec_pc().uval() + 4
    } else {
        pre.spec_pc().uval() + 4 - R::wmod()
    }
    &&& post.spec_cycles() == pre.spec_cycles() + INSTRUCTION_CYCLE_COST
    &&& post.spec_max_cycles() == pre.spec_max_cycles()
    &&& post.spec_memory() == pre.spec_memory()
}

/// One round of the generic interpreter: check the cycle budget, fetch
/// the word under the program counter, decode it, charge the cost, and
/// execute.  Every failure leaves the machine exactly as it was: the
/// budget is checked at the instruction boundary, before any work, so the
/// instruction that would cross it is never executed.
pub fn step<R: Register, M: Memory>(machine: &mut Machine<R, M>) -> (r: Result<(), Error>)
    requires
        old(machine).wf(),
    ensures
        final(machine).wf(),
        old(machine).spec_cycles() + INSTRUCTION_CYCLE_COST > old(machine).spec_max_cycles() ==> r
            == Err::<(), Error>(Error::CycleBudgetExceeded) && *final(machine) == *old(machine),
        old(machine).spec_cycles() + INSTRUCTION_CYCLE_COST <= old(machine).spec_max_cycles()
            && spec_fetch(*old(machine)) is None ==> r == Err::<(), Error>(Error::MemoryFault)
            && *final(machine) == *old(machine),
        old(machine).spec_cycles() + INSTRUCTION_CYCLE_COST <= old(machine).spec_max_cycles()
            ==> (spec_fetch(*old(machine)) matches Some(w) ==> (spec_decode(w) is None ==> r
            == Err::<(), Error>(Error::DecodeError) && *final(machine) == *old(machine))),
        old(machine).spec_cycles() + INSTRUCTION_CYCLE_COST <= old(machine).spec_max_cycles()
            ==> (spec_fetch(*old(machine)) matches Some(w) ==> (spec_decode(w) matches Some(
            Instruction::RV32M(mi),
        ) ==> r == Ok::<(), Error>(()) && step_post(*old(machine), *final(machine), mi.0))),
{
    let within_budget = INSTRUCTION_CYCLE_COST <= machine.max_cycles() - machine.cycles();
    if !within_budget {
        return Err(Error::CycleBudgetExceeded);
    }
    let pc = machine.pc();
    let w = match machine.load32(pc.to_u64()) {
        Ok(w) => w,
        Err(_) => {
            return Err(Error::MemoryFault);
        },
    };
    let inst = match decode(w) {
        Some(inst) => inst,
        None => {
            return Err(Error::DecodeError);
        },
    };
    match machine.add_cycles(INSTRUCTION_CYCLE_COST) {
        Ok(()) => {},
        Err(e) => {
            return Err(e);
        },
    }
    execute(&inst, machine)
}

/// One completed fetch-decode-execute round, as a relation between
/// machine states: the budget admitted the charge, the word under the
/// program counter was fetched and decoded, and the machine moved
/// exactly as that instruction prescribes.
pub open spec fn one_step<R: Register, M: Memory>(pre: Machine<R, M>, post: Machine<R, M>) -> bool {
    &&& pre.spec_cycles() + INSTRUCTION_CYCLE_COST <= pre.spec_max_cycles()
    &&& spec_fetch(pre) matches Some(w) && (spec_decode(w) matches Some(Instruction::RV32M(mi))
        && step_post(pre, post, mi.0))
}

/// The machine `post` results from exactly `n` completed rounds starting
/// at `pre`.
pub open spec fn runs_to<R: Register, M: Memory>(
    pre: Machine<R, M>,
    post: Machine<R, M>,
    n: nat,
) -> bool
    decreases n,
{
    if n == 0 {
        post == pre
    } else {
        exists|mid: Machine<R, M>|
            runs_to(pre, mid, (n - 1) as nat) && one_step(mid, post)
    }
}

/// A run extended by one round is a run.
proof fn lemma_runs_to_extend<R: Register, M: Memory>(
    pre: Machine<R, M>,
    mid: Machine<R, M>,
    post: Machine<R, M>,
    n: nat,
)
    requires
        runs_to(pre, mid, n),
        one_step(mid, post),
    ensures
        runs_to(pre, post, n + 1),
{
    assert(runs_to(pre, mid, n) && one_step(mid, post));
}

/// Drive the interpreter until an instruction cannot complete, and say
/// why.  The final state results from some number of completed
/// fetch-decode-execute rounds: nothing changes the machine but decoded
/// instructions.  The cycle counter never passes the budget: the run
/// halts with CycleBudgetExceeded at the first instruction boundary
/// where one more charge would cross it.
pub fn run<R: Register, M: Memory>(machine: &mut Machine<R, M>) -> (r: Error)
    requires
        old(machine).wf(),
    ensures
        final(machine).wf(),
        exists|n: nat| runs_to(*old(machine), *final(machine), n),
        r == Error::CycleBudgetExceeded ==> final(machine).spec_cycles() + INSTRUCTION_CYCLE_COST
            > final(machine).spec_max_cycles(),
        r == Error::MemoryFault ==> spec_fetch(*final(machine)) is None,
        r == Error::DecodeError ==> (spec_fetch(*final(machine)) matches Some(w) && spec_decode(w)
            is None),
{
    let ghost m0 = *machine;
    let ghost mut steps: nat = 0;
    loop
        invariant
            machine.wf(),
            m0 == *old(machine),
            runs_to(m0, *machine, steps),
        decreases machine.spec_max_cycles() - machine.spec_cycles(),
    {
        let ghost prev = *machine;
        match step(machine) {
            Ok(()) => {
                proof {
                    lemma_runs_to_extend(m0, prev, *machine, steps);
                    steps = steps + 1;
                }
            },
            Err(e) => {
                return e;
            },
        }
    }
}

} // verus!
