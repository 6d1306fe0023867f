use vstd::prelude::*;
use crate::machine::{Machine, REGISTER_COUNT};
use crate::memory::Memory;
use crate::register::{Register, trunc_div, trunc_rem};
use crate::instructions::{
    opcode, funct3, funct7, rd, rs1, rs2, opcode_of, funct3_of, funct7_of, rd_of, rs1_of, rs2_of,
    Instruction as GenericInstruction,
};
use crate::Error;

verus! {

/// The eight operations of the multiply/divide extension, selected by
/// funct3 under the R-type arithmetic opcode.
#[derive(Clone, Copy, Debug, PartialEq, Eq, Structural)]
pub enum RtypeInstruction {
    MUL,
    MULH,
    MULHSU,
    MULHU,
    DIV,
    DIVU,
    REM,
    REMU,
}

/// A decoded register-register instruction: destination, two sources, and
/// the operation.  This extension carries no immediates.
#[derive(Clone, Copy, Debug, PartialEq, Eq, Structural)]
pub struct Rtype {
    pub rd: usize,
    pub rs1: usize,
    pub rs2: usize,
    pub inst: RtypeInstruction,
}

/// A decoded instruction of this extension.
#[derive(Clone, Copy, Debug, PartialEq, Eq, Structural)]
pub struct Instruction(pub Rtype);

/// A signed value in [-2^(W-1), 2^(W-1)) read back as the unsigned value
/// of the register that holds it.
pub open spec fn to_unsigned(q: int, m: int) -> int {
    if q >= 0 {
        q
    } else {
        q + m
    }
}

/// The unsigned value left in the destination register by `op` on source
/// values (a, b): the ISA's semantics of the eight operations, including
/// the division-by-zero and signed-overflow substitutions that replace
/// trapping.
pub open spec fn rtype_value<R: Register>(op: RtypeInstruction, a: R, b: R) -> int {
    let m = R::wmod();
    let h = R::wmod() / 2;
    match op {
        RtypeInstruction::MUL => (a.uval() * b.uval()) % m,
        RtypeInstruction::MULH => to_unsigned((a.sval() * b.sval()) / m, m),
        RtypeInstruction::MULHSU => to_unsigned((a.sval() * b.uval()) / m, m),
        RtypeInstruction::MULHU => (a.uval() * b.uval()) / m,
        RtypeInstruction::DIV => if b.uval() == 0 {
            m - 1
        } else if a.sval() == -h && b.sval() == -1 {
            h
        } else {
            to_unsigned(trunc_div(a.sval(), b.sval()), m)
        },
        RtypeInstruction::DIVU => if b.uval() == 0 {
            m - 1
        } else {
            a.uval() / b.uval()
        },
        RtypeInstruction::REM => if b.uval() == 0 {
            a.uval()
        } else if a.sval() == -h && b.sval() == -1 {
            0
        } else {
            to_unsigned(trunc_rem(a.sval(), b.sval()), m)
        },
        RtypeInstruction::REMU => if b.uval() == 0 {
            a.uval()
        } else {
            a.uval() % b.uval()
        },
    }
}

impl Rtype {
    pub open spec fn wf(self) -> bool {
        self.rd < REGISTER_COUNT && self.rs1 < REGISTER_COUNT && self.rs2 < REGISTER_COUNT
    }
}

/// Effect of an R-type arithmetic instruction on the machine, short of the
/// program-counter update: the destination register receives rtype_value
/// of the two sources unless it is the hard-wired zero register, and
/// nothing else moves.
pub open spec fn rtype_post<R: Register, M: Memory>(
    pre: Machine<R, M>,
    post: Machine<R, M>,
    rt: Rtype,
) -> bool {
    &&& post.wf()
    &&& post.spec_regs().len() == pre.spec_regs().len()
    &&& forall|i: int|
        0 <= i < pre.spec_regs().len() && i != rt.rd ==> post.spec_regs()[i] == pre.spec_regs()[i]
    &&& rt.rd != 0 ==> post.spec_regs()[rt.rd as int].uval() == rtype_value(
        rt.inst,
        pre.spec_regs()[rt.rs1 as int],
        pre.spec_regs()[rt.rs2 as int],
    )
    &&& rt.rd == 0 ==> post.spec_regs() == pre.spec_regs()
    &&& post.spec_pc() == pre.spec_pc()
    &&& post.spec_cycles() == pre.spec_cycles()
    &&& post.spec_max_cycles() == pre.spec_max_cycles()
    &&& post.spec_memory() == pre.spec_memory()
}

/// Effect of the full instruction: the register update of `rtype_post`
/// plus the default advance of the program counter by the instruction's
/// 4-byte length, wrapping at the register width.
pub open spec fn full_post<R: Register, M: Memory>(
    pre: Machine<R, M>,
    post: Machine<R, M>,
    rt: Rtype,
) -> bool {
    &&& post.wf()
    &&& post.spec_regs().len() == pre.spec_regs().len()
    &&& forall|i: int|
        0 <= i < pre.spec_regs().len() && i != rt.rd ==> post.spec_regs()[i] == pre.spec_regs()[i]
    &&& rt.rd != 0 ==> post.spec_regs()[rt.rd as int].uval() == rtype_value(
        rt.inst,
        pre.spec_regs()[rt.rs1 as int],
        pre.spec_regs()[rt.rs2 as int],
    )
    &&& rt.rd == 0 ==> post.spec_regs() == pre.spec_regs()
    &&& post.spec_pc().uval() == if pre.spec_pc().uval() + 4 < R::wmod() {
        pre.spec_pc().uval() + 4
    } else {
        pre.spec_pc().uval() + 4 - R::wmod()
    }
    &&& post.spec_cycles() == pre.spec_cycles()
    &&& post.spec_max_cycles() == pre.spec_max_cycles()
    &&& post.spec_memory() == pre.spec_memory()
}

impl Rtype {
    /// Execute the operation against the machine: read both sources,
    /// compute per `rtype_value`, write the destination.  Arithmetic never
    /// faults, and control-transfer never happens here, so the result is
    /// always Ok(None): no explicit new program counter.
    pub fn execute<R: Register, M: Memory>(&self, machine: &mut Machine<R, M>) -> (res: Result<
        Option<R>,
        Error,
    >)
        requires
            old(machine).wf(),
            self.wf(),
        ensures
            res == Ok::<Option<R>, Error>(None::<R>),
            rtype_post(*old(machine), *final(machine), *self),
    {
        let rs1_value = machine.register(self.rs1);
        let rs2_value = machine.register(self.rs2);
        proof {
            rs1_value.lemma_valid();
            rs2_value.lemma_valid();
        }
        match self.inst {
            RtypeInstruction::MUL => {
                let (value, _) = rs1_value.overflowing_mul(rs2_value);
                machine.update_register(self.rd, value);
            },
            RtypeInstruction::MULH => {
                let value = rs1_value.overflowing_mul_high_signed(rs2_value);
                proof {
                    value.lemma_valid();
                }
                machine.update_register(self.rd, value);
            },
            RtypeInstruction::MULHSU => {
                let value = rs1_value.overflowing_mul_high_signed_unsigned(rs2_value);
                proof {
                    value.lemma_valid();
                }
                machine.update_register(self.rd, value);
            },
            RtypeInstruction::MULHU => {
                let value = rs1_value.overflowing_mul_high_unsigned(rs2_value);
                machine.update_register(self.rd, value);
            },
            RtypeInstruction::DIV => {
                // The ISA defines division by zero as all-ones and the
                // overflowing quotient as the dividend, instead of a trap.
                let value = if rs2_value.is_zero() {
                    R::zero().overflowing_sub(R::one()).0
                } else {
                    let (v, overflow) = rs1_value.overflowing_div_signed(rs2_value);
                    if overflow {
                        R::min_value()
                    } else {
                        v
                    }
                };
                proof {
                    value.lemma_valid();
                }
                machine.update_register(self.rd, value);
            },
            RtypeInstruction::DIVU => {
                let value = if rs2_value.is_zero() {
                    R::max_value()
                } else {
                    rs1_value.overflowing_div(rs2_value).0
                };
                machine.update_register(self.rd, value);
            },
            RtypeInstruction::REM => {
                let value = if rs2_value.is_zero() {
                    rs1_value
                } else {
                    let (v, overflow) = rs1_value.overflowing_rem_signed(rs2_value);
                    if overflow {
                        R::zero()
                    } else {
                        v
                    }
                };
                proof {
                    value.lemma_valid();
                }
                machine.update_register(self.rd, value);
            },
            RtypeInstruction::REMU => {
                let value = if rs2_value.is_zero() {
                    rs1_value
                } else {
                    rs1_value.overflowing_rem(rs2_value).0
                };
                machine.update_register(self.rd, value);
            },
        }
        Ok(None)
    }
}

impl Instruction {
    /// Execute the instruction and advance the program counter: arithmetic
    /// instructions request no explicit new pc, so the default advance of
    /// 4 bytes applies.
    pub fn execute<R: Register, M: Memory>(&self, machine: &mut Machine<R, M>) -> (res: Result<
        (),
        Error,
    >)
        requires
            old(machine).wf(),
            self.0.wf(),
        ensures
            res == Ok::<(), Error>(()),
            full_post(*old(machine), *final(machine), self.0),
    {
        let next_pc = match self.0.execute(machine) {
            Ok(p) => p,
            Err(e) => {
                return Err(e);
            },
        };
        let pc = machine.pc();
        proof {
            pc.lemma_valid();
            vstd::arithmetic::div_mod::lemma_small_mod(4nat, R::wmod() as nat);
        }
        let default_next_pc = pc.overflowing_add(R::from_usize(4)).0;
        machine.set_pc(
            match next_pc {
                Some(p) => p,
                None => default_next_pc,
            },
        );
        Ok(())
    }
}

/// The operation selected by a funct3 field value.
pub open spec fn spec_op_of_funct3(f3: u32) -> Option<RtypeInstruction> {
    if f3 == 0 {
        Some(RtypeInstruction::MUL)
    } else if f3 == 1 {
        Some(RtypeInstruction::MULH)
    } else if f3 == 2 {
        Some(RtypeInstruction::MULHSU)
    } else if f3 == 3 {
        Some(RtypeInstruction::MULHU)
    } else if f3 == 4 {
        Some(RtypeInstruction::DIV)
    } else if f3 == 5 {
        Some(RtypeInstruction::DIVU)
    } else if f3 == 6 {
        Some(RtypeInstruction::REM)
    } else if f3 == 7 {
        Some(RtypeInstruction::REMU)
    } else {
        None
    }
}

/// What decoding an instruction word yields for this extension: an
/// instruction exactly when the opcode is the R-type arithmetic opcode
/// and funct7 is the extension's signature, with operands taken from the
/// word's fixed bit fields.
pub open spec fn spec_factory(w: u32) -> Option<GenericInstruction> {
    if opcode_of(w) != 0b_0110011 || funct7_of(w) != 0b_0000001 {
        None
    } else {
        match spec_op_of_funct3(funct3_of(w)) {
            Some(op) => Some(
                GenericInstruction::RV32M(
                    Instruction(
                        Rtype {
                            rd: rd_of(w) as usize,
                            rs1: rs1_of(w) as usize,
                            rs2: rs2_of(w) as usize,
                            inst: op,
                        },
                    ),
                ),
            ),
            None => None,
        }
    }
}

/// Decode one instruction word for this extension, or report that the
/// word is not recognized here.
pub fn factory(instruction_bits: u32) -> (r: Option<GenericInstruction>)
    ensures
        r == spec_factory(instruction_bits),
        (opcode_of(instruction_bits) != 0b_0110011 || funct7_of(instruction_bits) != 0b_0000001)
            ==> r is None,
        r matches Some(i) ==> i.wf(),
{
    if opcode(instruction_bits) != 0b_0110011 || funct7(instruction_bits) != 0b_0000001 {
        None
    } else {
        let f3 = funct3(instruction_bits);
        let inst_opt = if f3 == 0 {
            Some(RtypeInstruction::MUL)
        } else if f3 == 1 {
            Some(RtypeInstruction::MULH)
        } else if f3 == 2 {
            Some(RtypeInstruction::MULHSU)
        } else if f3 == 3 {
            Some(RtypeInstruction::MULHU)
        } else if f3 == 4 {
            Some(RtypeInstruction::DIV)
        } else if f3 == 5 {
            Some(RtypeInstruction::DIVU)
        } else if f3 == 6 {
            Some(RtypeInstruction::REM)
        } else if f3 == 7 {
            Some(RtypeInstruction::REMU)
        } else {
            None
        };
        match inst_opt {
            Some(inst) => Some(
                GenericInstruction::RV32M(
                    Instruction(
                        Rtype {
                            rd: rd(instruction_bits),
                            rs1: rs1(instruction_bits),
                            rs2: rs2(instruction_bits),
                            inst,
                        },
                    ),
                ),
            ),
            None => None,
        }
    }
}

/// The instruction word carrying the given funct3 and register operands
/// under this extension's opcode and funct7 signature.
pub open spec fn spec_encode(f3: u32, rd_i: u32, rs1_i: u32, rs2_i: u32) -> u32 {
    0b_0110011u32 | (rd_i << 7) | (f3 << 12) | (rs1_i << 15) | (rs2_i << 20) | (1u32 << 25)
}

/// Build the instruction word for one operation of this extension.
pub fn encode(f3: u32, rd_i: u32, rs1_i: u32, rs2_i: u32) -> (w: u32)
    requires
        f3 < 8,
        rd_i < 32,
        rs1_i < 32,
        rs2_i < 32,
    ensures
        w == spec_encode(f3, rd_i, rs1_i, rs2_i),
{
    0b_0110011u32 | (rd_i << 7) | (f3 << 12) | (rs1_i << 15) | (rs2_i << 20) | (1u32 << 25)
}

/// An encoded word's bit fields read back exactly as what was encoded.
proof fn lemma_encode_fields(f3: u32, rd_i: u32, rs1_i: u32, rs2_i: u32)
    by (bit_vector)
    requires
        f3 < 8,
        rd_i < 32,
        rs1_i < 32,
        rs2_i < 32,
    ensures
        opcode_of(spec_encode(f3, rd_i, rs1_i, rs2_i)) == 0b_0110011,
        funct7_of(spec_encode(f3, rd_i, rs1_i, rs2_i)) == 0b_0000001,
        funct3_of(spec_encode(f3, rd_i, rs1_i, rs2_i)) == f3,
        rd_of(spec_encode(f3, rd_i, rs1_i, rs2_i)) == rd_i,
        rs1_of(spec_encode(f3, rd_i, rs1_i, rs2_i)) == rs1_i,
        rs2_of(spec_encode(f3, rd_i, rs1_i, rs2_i)) == rs2_i,
{
}

/// Decode round-trip: a word encoding any operation of this extension
/// with any operand indices decodes back to exactly that operation and
/// those operands.
pub proof fn lemma_decode_round_trip(f3: u32, rd_i: u32, rs1_i: u32, rs2_i: u32)
    requires
        f3 < 8,
        rd_i < 32,
        rs1_i < 32,
        rs2_i < 32,
    ensures
        ({
            let w = spec_encode(f3, rd_i, rs1_i, rs2_i);
            spec_factory(w) == Some(
                GenericInstruction::RV32M(
                    Instruction(
                        Rtype {
                            rd: rd_i as usize,
                            rs1: rs1_i as usize,
                            rs2: rs2_i as usize,
                            inst: spec_op_of_funct3(f3)->Some_0,
                        },
                    ),
                ),
            )
        }),
{
    lemma_encode_fields(f3, rd_i, rs1_i, rs2_i);
}

/// Decode rejection: a word whose opcode or funct7 is not this
/// extension's signature is not recognized by its decoder.
pub proof fn lemma_decode_rejection(w: u32)
    requires
        opcode_of(w) != 0b_0110011 || funct7_of(w) != 0b_0000001,
    ensures
        spec_factory(w) is None,
{
}

/// The low W bits of a product do not depend on whether the factors are
/// read signed or unsigned, so MUL computes the signed product's low
/// W bits even though it is specified over the unsigned readings.
pub proof fn lemma_mul_low_bits_signed<R: Register>(a: R, b: R)
    ensures
        (a.sval() * b.sval()) % R::wmod() == rtype_value(RtypeInstruction::MUL, a, b),
{
    let m = R::wmod();
    a.lemma_valid();
    b.lemma_valid();
    let ua = a.uval();
    let ub = b.uval();
    let sa = a.sval();
    let sb = b.sval();
    if sa == ua && sb == ub {
    } else if sa == ua - m && sb == ub {
        assert((ua - m) * ub == m * (-ub) + ua * ub) by (nonlinear_arith);
        vstd::arithmetic::div_mod::lemma_mod_multiples_vanish(-ub, ua * ub, m);
    } else if sa == ua && sb == ub - m {
        assert(ua * (ub - m) == m * (-ua) + ua * ub) by (nonlinear_arith);
        vstd::arithmetic::div_mod::lemma_mod_multiples_vanish(-ua, ua * ub, m);
    } else {
        assert((ua - m) * (ub - m) == m * (m - ua - ub) + ua * ub) by (nonlinear_arith);
        vstd::arithmetic::div_mod::lemma_mod_multiples_vanish(m - ua - ub, ua * ub, m);
    }
}

/// Division by zero never traps: DIV yields all ones (signed -1), DIVU
/// yields the unsigned maximum, and both remainders return the dividend
/// unchanged.
pub proof fn lemma_division_by_zero<R: Register>(a: R, b: R)
    requires
        b.uval() == 0,
    ensures
        rtype_value(RtypeInstruction::DIV, a, b) == R::wmod() - 1,
        rtype_value(RtypeInstruction::DIVU, a, b) == R::wmod() - 1,
        rtype_value(RtypeInstruction::REM, a, b) == a.uval(),
        rtype_value(RtypeInstruction::REMU, a, b) == a.uval(),
{
}

/// The one overflowing signed division, most negative dividend divided by
/// -1, yields the dividend back for DIV and a zero remainder for REM,
/// with no trap.
pub proof fn lemma_signed_overflow<R: Register>(a: R, b: R)
    requires
        a.sval() == -(R::wmod() / 2),
        b.sval() == -1,
    ensures
        rtype_value(RtypeInstruction::DIV, a, b) == R::wmod() / 2,
        rtype_value(RtypeInstruction::DIV, a, b) == to_unsigned(a.sval(), R::wmod()),
        rtype_value(RtypeInstruction::REM, a, b) == 0,
{
    a.lemma_valid();
    b.lemma_valid();
}

/// The stable numeric identifier of each operation, shared with the
/// accelerated path's dispatch table; part of the binary contract.
pub open spec fn spec_op_opcode(op: RtypeInstruction) -> u16 {
    match op {
        RtypeInstruction::MUL => 0x2a,
        RtypeInstruction::MULH => 0x2b,
        RtypeInstruction::MULHSU => 0x2c,
        RtypeInstruction::MULHU => 0x2d,
        RtypeInstruction::DIV => 0x17,
        RtypeInstruction::DIVU => 0x18,
        RtypeInstruction::REM => 0x31,
        RtypeInstruction::REMU => 0x32,
    }
}

pub fn op_opcode(op: RtypeInstruction) -> (c: u16)
    ensures
        c == spec_op_opcode(op),
{
    match op {
        RtypeInstruction::MUL => 0x2a,
        RtypeInstruction::MULH => 0x2b,
        RtypeInstruction::MULHSU => 0x2c,
        RtypeInstruction::MULHU => 0x2d,
        RtypeInstruction::DIV => 0x17,
        RtypeInstruction::DIVU => 0x18,
        RtypeInstruction::REM => 0x31,
        RtypeInstruction::REMU => 0x32,
    }
}

/// Display name of each operation, keyed by the operation itself rather
/// than by any table order.
pub fn op_name(op: RtypeInstruction) -> (r: &'static str)
    ensures
        op == RtypeInstruction::MUL ==> r@ == "MUL"@,
        op == RtypeInstruction::MULH ==> r@ == "MULH"@,
        op == RtypeInstruction::MULHSU ==> r@ == "MULHSU"@,
        op == RtypeInstruction::MULHU ==> r@ == "MULHU"@,
        op == RtypeInstruction::DIV ==> r@ == "DIV"@,
        op == RtypeInstruction::DIVU ==> r@ == "DIVU"@,
        op == RtypeInstruction::REM ==> r@ == "REM"@,
        op == RtypeInstruction::REMU ==> r@ == "REMU"@,
{
    match op {
        RtypeInstruction::MUL => "MUL",
        RtypeInstruction::MULH => "MULH",
        RtypeInstruction::MULHSU => "MULHSU",
        RtypeInstruction::MULHU => "MULHU",
        RtypeInstruction::DIV => "DIV",
        RtypeInstruction::DIVU => "DIVU",
        RtypeInstruction::REM => "REM",
        RtypeInstruction::REMU => "REMU",
    }
}

/// No two operations share a numeric identifier.
pub proof fn lemma_op_opcode_injective(x: RtypeInstruction, y: RtypeInstruction)
    requires
        spec_op_opcode(x) == spec_op_opcode(y),
    ensures
        x == y,
{
}

/// Register 0 is unwritable: whatever arithmetic instruction ran, with
/// whatever operands, the hard-wired zero register still reads zero.
pub proof fn lemma_zero_register_unwritable<R: Register, M: Memory>(
    pre: Machine<R, M>,
    post: Machine<R, M>,
    rt: Rtype,
)
    requires
        rtype_post(pre, post, rt) || full_post(pre, post, rt),
    ensures
        post.spec_regs()[0].uval() == 0,
{
}

} // verus!
