use vstd::prelude::*;
use crate::register::Register;
use crate::memory::Memory;
use crate::Error;

verus! {

/// Number of architectural registers of the RV32/RV64 base ISA.
pub const REGISTER_COUNT: usize = 32;

/// The execution context threaded through every instruction: the register
/// file, the program counter, the cycle counter with its budget, and the
/// backing memory.  Register 0 is the hard-wired zero register: the
/// machine discards every write to it, so instructions need not check.
pub struct Machine<R: Register, M: Memory> {
    registers: Vec<R>,
    pc: R,
    cycles: u64,
    max_cycles: u64,
    memory: M,
}

impl<R: Register, M: Memory> Machine<R, M> {
    pub closed spec fn spec_regs(self) -> Seq<R> {
        self.registers@
    }

    pub closed spec fn spec_pc(self) -> R {
        self.pc
    }

    pub closed spec fn spec_cycles(self) -> u64 {
        self.cycles
    }

    pub closed spec fn spec_max_cycles(self) -> u64 {
        self.max_cycles
    }

    pub closed spec fn spec_memory(self) -> M {
        self.memory
    }

    /// The machine's invariant: a full register file, a zero in register 0,
    /// and a cycle counter within its budget.
    pub open spec fn wf(self) -> bool {
        &&& self.spec_regs().len() == REGISTER_COUNT
        &&& self.spec_regs()[0].uval() == 0
        &&& self.spec_cycles() <= self.spec_max_cycles()
    }

    pub fn new(pc: R, max_cycles: u64, memory: M) -> (m: Machine<R, M>)
        ensures
            m.wf(),
            m.spec_regs().len() == REGISTER_COUNT,
            forall|i: int| 0 <= i < REGISTER_COUNT ==> m.spec_regs()[i].uval() == 0,
            m.spec_pc() == pc,
            m.spec_cycles() == 0,
            m.spec_max_cycles() == max_cycles,
            m.spec_memory() == memory,
    {
        let mut registers: Vec<R> = Vec::new();
        let mut n: usize = 0;
        while n < REGISTER_COUNT
            invariant
                n <= REGISTER_COUNT,
                registers@.len() == n,
                forall|i: int| 0 <= i < n ==> registers@[i].uval() == 0,
            decreases REGISTER_COUNT - n,
        {
            registers.push(R::zero());
            n = n + 1;
        }
        Machine { registers, pc, cycles: 0, max_cycles, memory }
    }

    pub fn register(&self, i: usize) -> (r: R)
        requires
            self.wf(),
            i < REGISTER_COUNT,
        ensures
            r == self.spec_regs()[i as int],
    {
        self.registers[i]
    }

    /// The one write path into the register file.  A write to register 0 is
    /// discarded, keeping the hard-wired zero; every other register is
    /// replaced.
    pub fn update_register(&mut self, i: usize, v: R)
        requires
            old(self).wf(),
            i < REGISTER_COUNT,
        ensures
            final(self).wf(),
            i == 0 ==> final(self).spec_regs() == old(self).spec_regs(),
            i != 0 ==> final(self).spec_regs() == old(self).spec_regs().update(i as int, v),
            final(self).spec_pc() == old(self).spec_pc(),
            final(self).spec_cycles() == old(self).spec_cycles(),
            final(self).spec_max_cycles() == old(self).spec_max_cycles(),
            final(self).spec_memory() == old(self).spec_memory(),
    {
        if i != 0 {
            self.registers[i] = v;
        }
    }

    pub fn pc(&self) -> (r: R)
        ensures
            r == self.spec_pc(),
    {
        self.pc
    }

    pub fn set_pc(&mut self, v: R)
        requires
            old(self).wf(),
        ensures
            final(self).wf(),
            final(self).spec_pc() == v,
            final(self).spec_regs() == old(self).spec_regs(),
            final(self).spec_cycles() == old(self).spec_cycles(),
            final(self).spec_max_cycles() == old(self).spec_max_cycles(),
            final(self).spec_memory() == old(self).spec_memory(),
    {
        self.pc = v;
    }

    pub fn cycles(&self) -> (r: u64)
        ensures
            r == self.spec_cycles(),
    {
        self.cycles
    }

    pub fn max_cycles(&self) -> (r: u64)
        ensures
            r == self.spec_max_cycles(),
    {
        self.max_cycles
    }

    /// Charge `c` cycles.  If the counter would pass the budget the charge
    /// is refused, the machine is left untouched, and CycleBudgetExceeded
    /// signals the halt; the caller must not execute the instruction the
    /// charge was for.
    pub fn add_cycles(&mut self, c: u64) -> (r: Result<(), Error>)
        requires
            old(self).wf(),
        ensures
            final(self).wf(),
            old(self).spec_cycles() + c <= old(self).spec_max_cycles() ==> r == Ok::<(), Error>(())
                && final(self).spec_cycles() == old(self).spec_cycles() + c,
            old(self).spec_cycles() + c > old(self).spec_max_cycles() ==> r == Err::<(), Error>(
                Error::CycleBudgetExceeded,
            ) && final(self).spec_cycles() == old(self).spec_cycles(),
            final(self).spec_regs() == old(self).spec_regs(),
            final(self).spec_pc() == old(self).spec_pc(),
            final(self).spec_max_cycles() == old(self).spec_max_cycles(),
            final(self).spec_memory() == old(self).spec_memory(),
    {
        if c <= self.max_cycles - self.cycles {
            self.cycles = self.cycles + c;
            Ok(())
        } else {
            Err(Error::CycleBudgetExceeded)
        }
    }

    pub fn load32(&self, addr: u64) -> (r: Result<u32, Error>)
        ensures
            addr + 4 <= self.spec_memory().view().len() ==> (r matches Ok(v) && v == crate::memory::le32(
                self.spec_memory().view(),
                addr as int,
            )),
            addr + 4 > self.spec_memory().view().len() ==> r == Err::<u32, Error>(Error::MemoryFault),
    {
        self.memory.load32(addr)
    }

    pub fn store8(&mut self, addr: u64, v: u8) -> (r: Result<(), Error>)
        requires
            old(self).wf(),
        ensures
            final(self).wf(),
            addr + 1 <= old(self).spec_memory().view().len() ==> r == Ok::<(), Error>(()) && final(self).spec_memory().view() == old(self).spec_memory().view().update(addr as int, v),
            addr + 1 > old(self).spec_memory().view().len() ==> r == Err::<(), Error>(Error::MemoryFault)
                && final(self).spec_memory().view() == old(self).spec_memory().view(),
            final(self).spec_regs() == old(self).spec_regs(),
            final(self).spec_pc() == old(self).spec_pc(),
            final(self).spec_cycles() == old(self).spec_cycles(),
            final(self).spec_max_cycles() == old(self).spec_max_cycles(),
    {
        self.memory.store8(addr, v)
    }

    pub fn store32(&mut self, addr: u64, v: u32) -> (r: Result<(), Error>)
        requires
            old(self).wf(),
        ensures
            final(self).wf(),
            addr + 4 <= old(self).spec_memory().view().len() ==> r == Ok::<(), Error>(()) && final(self).spec_memory().view().len() == old(self).spec_memory().view().len() && crate::memory::le32(
                final(self).spec_memory().view(),
                addr as int,
            ) == v && (forall|i: int|
                0 <= i < old(self).spec_memory().view().len() && !(addr <= i < addr + 4) ==> final(
                    self).spec_memory().view()[i] == old(self).spec_memory().view()[i]),
            addr + 4 > old(self).spec_memory().view().len() ==> r == Err::<(), Error>(Error::MemoryFault)
                && final(self).spec_memory().view() == old(self).spec_memory().view(),
            final(self).spec_regs() == old(self).spec_regs(),
            final(self).spec_pc() == old(self).spec_pc(),
            final(self).spec_cycles() == old(self).spec_cycles(),
            final(self).spec_max_cycles() == old(self).spec_max_cycles(),
    {
        self.memory.store32(addr, v)
    }
}

} // verus!
