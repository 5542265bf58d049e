//! The virtual machine: a sixteen-register, variable-length instruction
//! machine over a flat address space split into program, stack, canary and
//! heap regions.
//!
//! The machine's observable state is its view, a `VmView`; every mutation is
//! pinned to a mathematical transition function (`step_spec`,
//! `resolve_float_spec`).  Traps never panic: they are recorded in the state
//! and terminate execution.
//!
//! Floating-point instructions are decoded and dispatched here, but the IEEE
//! arithmetic itself is delegated: executing one leaves a pending
//! `FloatReq` describing the operation on the operands' bit patterns, and
//! the embedder answers it through `resolve_float`, which stores the result.
//! Everything else — operand truncation to the funct's width, register
//! write-back, program-counter advancement — is verified here.

use vstd::prelude::*;
use vstd::arithmetic::div_mod::{lemma_fundamental_div_mod, lemma_mod_add_multiples_vanish,
    lemma_mod_multiples_vanish, lemma_mod_sub_multiples_vanish, lemma_small_mod};
use crate::bc::{AFunct, BcBlob, Opcode, afunct_from_bits, instr_len, is_control_flow,
    opcode_code, opcode_from_byte, spec_afunct_from_bits, spec_opcode_from_byte};
use crate::bytes_le::{le_read, le_write, lemma_le_value_at_one, lemma_pow256_values, pow256};
use crate::mem::{Size, Trap, TrapKind, in_program, in_stack, prog_end, spec_read_mem,
    spec_write_mem, stack_bottom, stack_top, lemma_read_mem_bound};
use crate::regs::{Registers, reg_read, reg_write};
use crate::{DWord, PROGRAM_START};

verus! {

/// A floating-point operation the machine has asked its embedder to carry
/// out: `op` applied to the bit patterns `lhs` and `rhs`, both already
/// truncated to the operand width.
#[derive(Clone, Copy, Debug, PartialEq, Eq, Structural)]
pub struct FloatReq {
    pub op: FloatOp,
    pub width: FloatWidth,
    pub rd: u8,
    pub lhs: u64,
    pub rhs: u64,
}

/// The operation of a pending floating-point request.
#[derive(Clone, Copy, Debug, PartialEq, Eq, Structural)]
pub enum FloatOp {
    Add,
    Sub,
    Mul,
    Div,
    Rem,
    Clt,
    Cge,
    Ceq,
    Cne,
}

/// The IEEE width of a pending floating-point request.
#[derive(Clone, Copy, Debug, PartialEq, Eq, Structural)]
pub enum FloatWidth {
    F16,
    F32,
    F64,
}

impl FloatOp {
    /// Comparison requests store 0 or 1; arithmetic requests store bits.
    pub open spec fn spec_is_compare(self) -> bool {
        match self {
            FloatOp::Clt => true,
            FloatOp::Cge => true,
            FloatOp::Ceq => true,
            FloatOp::Cne => true,
            _ => false,
        }
    }

    /// Whether this request is a comparison, executable.
    #[verifier::when_used_as_spec(spec_is_compare)]
    pub fn is_compare(self) -> (r: bool)
        ensures
            r == self.spec_is_compare(),
    {
        match self {
            FloatOp::Clt => true,
            FloatOp::Cge => true,
            FloatOp::Ceq => true,
            FloatOp::Cne => true,
            _ => false,
        }
    }
}

impl FloatWidth {
    /// The width of the operand bit patterns, in bytes.
    pub open spec fn spec_bytes(self) -> int {
        match self {
            FloatWidth::F16 => 2,
            FloatWidth::F32 => 4,
            FloatWidth::F64 => 8,
        }
    }
}

/// The machine's observable state.
#[verifier::ext_equal]
pub ghost struct VmView {
    /// The sixteen general-purpose registers; index 0 is always 0.
    pub regs: Seq<u64>,
    /// The program counter.
    pub pc: u64,
    /// The program image bytes, mapped read-only at `PROGRAM_START`.
    pub prog: Seq<u8>,
    /// The stack bytes, mapped read/write above the program.
    pub stack: Seq<u8>,
    /// Whether execution has terminated.
    pub done: bool,
    /// The trap that terminated execution, if any.
    pub trap: Option<Trap>,
    /// A floating-point request awaiting `resolve_float`, if any.
    pub pending: Option<FloatReq>,
}

/// Well-formedness of a machine state: sixteen registers with the zero
/// register reading zero, every region address representable in a word, and
/// the termination bookkeeping consistent.
pub open spec fn view_wf(v: VmView) -> bool {
    &&& v.regs.len() == 16
    &&& v.regs[0] == 0
    &&& stack_bottom(v.prog, v.stack) + 1025 <= 0xffff_ffff_ffff_ffff
    &&& (v.trap is Some ==> v.done)
    &&& (v.pending is Some ==> !v.done && v.pending->Some_0.rd < 16)
}

/// The state after raising the trap `kind`: execution is terminated and the
/// trap is recorded with the `pc` at which it occurred; nothing else moves.
pub open spec fn trap_view(v: VmView, kind: TrapKind) -> VmView {
    VmView { done: true, trap: Some(Trap { kind, pc: v.pc }), ..v }
}

/// Reduction of an arbitrary integer into a machine word, as two's
/// complement wrap-around.
pub open spec fn wrap64(x: int) -> u64 {
    (x % 0x1_0000_0000_0000_0000) as u64
}

/// The signed value of a raw 16-bit immediate.
pub open spec fn sext16(x: u64) -> int {
    if x < 0x8000 {
        x as int
    } else {
        x - 0x10000
    }
}

/// The byte at `pc` can be fetched: `pc` lies in a readable region.
pub open spec fn fetch_ok(v: VmView) -> bool {
    spec_read_mem(v.prog, v.stack, v.pc as int, 1) is Ok
}

/// The encoded length of each immediate-load instruction.
pub open spec fn li_len(sz: Size) -> int {
    match sz {
        Size::Byte => 3,
        Size::Half => 4,
        Size::Word => 6,
        Size::Double => 10,
    }
}

/// Decoding an A-type instruction's operand bytes: `(funct, rd, rs1, rs2)`
/// from the bytes at `pc + 1` and `pc + 2`, or the trap that the fetch or an
/// unknown funct raises.
pub open spec fn spec_decode_a(v: VmView) -> Result<(AFunct, u8, u8, u8), TrapKind> {
    match spec_read_mem(v.prog, v.stack, v.pc as int + 1, 1) {
        Result::Err(k) => Result::Err(k),
        Result::Ok(b1) => match spec_read_mem(v.prog, v.stack, v.pc as int + 2, 1) {
            Result::Err(k) => Result::Err(k),
            Result::Ok(b2) => match spec_afunct_from_bits((b1 as u8) / 16) {
                Option::None => Result::Err(TrapKind::InvalidFunct),
                Option::Some(f) => Result::Ok(
                    (f, (b1 as u8) % 16, (b2 as u8) / 16, (b2 as u8) % 16),
                ),
            },
        },
    }
}

/// Decoding a register-register-immediate instruction's operands:
/// `(reg1, reg2, imm16)` from the byte at `pc + 1` and the halfword at
/// `pc + 2`.
pub open spec fn spec_decode_rir(v: VmView) -> Result<(u8, u8, u64), TrapKind> {
    match spec_read_mem(v.prog, v.stack, v.pc as int + 1, 1) {
        Result::Err(k) => Result::Err(k),
        Result::Ok(b1) => match spec_read_mem(v.prog, v.stack, v.pc as int + 2, 2) {
            Result::Err(k) => Result::Err(k),
            Result::Ok(imm) => Result::Ok(((b1 as u8) / 16, (b1 as u8) % 16, imm)),
        },
    }
}

/// Integer arithmetic: wrapping two's-complement on the full word.
pub open spec fn alu_int_val(op: Opcode, a: u64, b: u64) -> u64 {
    match op {
        Opcode::Add => wrap64(a + b),
        Opcode::Sub => wrap64(a - b),
        Opcode::Mul => wrap64(a as int * b as int),
        Opcode::Div => a / b,
        Opcode::Rem => a % b,
        _ => 0,
    }
}

/// Integer comparison: unsigned on the full word, 0 or 1.
pub open spec fn cmp_int_val(op: Opcode, a: u64, b: u64) -> u64 {
    match op {
        Opcode::Clt => if a < b { 1 } else { 0 },
        Opcode::Cge => if a >= b { 1 } else { 0 },
        Opcode::Ceq => if a == b { 1 } else { 0 },
        Opcode::Cne => if a != b { 1 } else { 0 },
        _ => 0,
    }
}

/// Bitwise logic, integer only.
pub open spec fn bit_val(op: Opcode, a: u64, b: u64) -> u64 {
    match op {
        Opcode::And => a & b,
        Opcode::Or => a | b,
        Opcode::Xor => a ^ b,
        _ => 0,
    }
}

/// The pending-request operation for a typed arithmetic or comparison
/// opcode.
pub open spec fn float_op_of(op: Opcode) -> FloatOp {
    match op {
        Opcode::Add => FloatOp::Add,
        Opcode::Sub => FloatOp::Sub,
        Opcode::Mul => FloatOp::Mul,
        Opcode::Div => FloatOp::Div,
        Opcode::Rem => FloatOp::Rem,
        Opcode::Clt => FloatOp::Clt,
        Opcode::Cge => FloatOp::Cge,
        Opcode::Ceq => FloatOp::Ceq,
        _ => FloatOp::Cne,
    }
}

/// The IEEE width selected by a floating-point funct.
pub open spec fn float_width_of(f: AFunct) -> FloatWidth {
    match f {
        AFunct::F16 => FloatWidth::F16,
        AFunct::F32 => FloatWidth::F32,
        _ => FloatWidth::F64,
    }
}

/// The modulus that truncates a word to a floating-point width.
pub open spec fn width_mod(w: FloatWidth) -> int {
    match w {
        FloatWidth::F16 => 0x1_0000,
        FloatWidth::F32 => 0x1_0000_0000,
        FloatWidth::F64 => 0x1_0000_0000_0000_0000,
    }
}

/// A word truncated to the low bits of a floating-point width.
pub open spec fn trunc_width(a: u64, w: FloatWidth) -> u64 {
    (a as int % width_mod(w)) as u64
}

/// The state after an instruction that writes `val` to `rd` and advances
/// `pc` by its own length.
pub open spec fn adv_write(v: VmView, len: int, rd: u8, val: u64) -> VmView {
    VmView { regs: reg_write(v.regs, rd as int, val), pc: wrap64(v.pc + len), ..v }
}

/// The state after dispatching a floating-point operation: `pc` advanced
/// past the instruction, the operation recorded for the embedder with both
/// operands truncated to the width.
pub open spec fn float_req_view(
    v: VmView,
    fop: FloatOp,
    w: FloatWidth,
    rd: u8,
    a: u64,
    b: u64,
) -> VmView {
    VmView {
        pc: wrap64(v.pc + 3),
        pending: Some(
            FloatReq { op: fop, width: w, rd, lhs: trunc_width(a, w), rhs: trunc_width(b, w) },
        ),
        ..v
    }
}

/// Arithmetic (`Add`/`Sub`/`Mul`/`Div`/`Rem`): integer funct computes the
/// wrapping result, zero divisor traps; floating funct leaves a pending
/// request.
pub open spec fn alu_spec(v: VmView, op: Opcode) -> VmView {
    match spec_decode_a(v) {
        Result::Err(k) => trap_view(v, k),
        Result::Ok((f, rd, rs1, rs2)) => {
            let a = reg_read(v.regs, rs1 as int);
            let b = reg_read(v.regs, rs2 as int);
            match f {
                AFunct::X => {
                    if (op == Opcode::Div || op == Opcode::Rem) && b == 0 {
                        trap_view(v, TrapKind::DivByZero)
                    } else {
                        adv_write(v, 3, rd, alu_int_val(op, a, b))
                    }
                },
                _ => float_req_view(v, float_op_of(op), float_width_of(f), rd, a, b),
            }
        },
    }
}

/// Comparison (`Clt`/`Cge`/`Ceq`/`Cne`): integer funct stores 0 or 1;
/// floating funct leaves a pending request.
pub open spec fn cmp_spec(v: VmView, op: Opcode) -> VmView {
    match spec_decode_a(v) {
        Result::Err(k) => trap_view(v, k),
        Result::Ok((f, rd, rs1, rs2)) => {
            let a = reg_read(v.regs, rs1 as int);
            let b = reg_read(v.regs, rs2 as int);
            match f {
                AFunct::X => adv_write(v, 3, rd, cmp_int_val(op, a, b)),
                _ => float_req_view(v, float_op_of(op), float_width_of(f), rd, a, b),
            }
        },
    }
}

/// Bitwise logic (`And`/`Or`/`Xor`): integer funct only; a floating funct
/// traps.
pub open spec fn bitwise_spec(v: VmView, op: Opcode) -> VmView {
    match spec_decode_a(v) {
        Result::Err(k) => trap_view(v, k),
        Result::Ok((f, rd, rs1, rs2)) => {
            let a = reg_read(v.regs, rs1 as int);
            let b = reg_read(v.regs, rs2 as int);
            match f {
                AFunct::X => adv_write(v, 3, rd, bit_val(op, a, b)),
                _ => trap_view(v, TrapKind::BitwiseOnFloat),
            }
        },
    }
}

/// Loads: effective address is `[rs]` plus the sign-extended immediate,
/// wrapping; the value read is zero-extended into `rd`.
pub open spec fn load_spec(v: VmView, sz: Size) -> VmView {
    match spec_decode_rir(v) {
        Result::Err(k) => trap_view(v, k),
        Result::Ok((rd, rs, imm)) => {
            let ea = wrap64(reg_read(v.regs, rs as int) + sext16(imm));
            match spec_read_mem(v.prog, v.stack, ea as int, sz.spec_bytes()) {
                Result::Err(k) => trap_view(v, k),
                Result::Ok(val) => adv_write(v, 4, rd, val),
            }
        },
    }
}

/// Stores: effective address is `[r1]` plus the sign-extended immediate,
/// wrapping; the low bytes of `[r2]` are written.
pub open spec fn store_spec(v: VmView, sz: Size) -> VmView {
    match spec_decode_rir(v) {
        Result::Err(k) => trap_view(v, k),
        Result::Ok((r1, r2, imm)) => {
            let ea = wrap64(reg_read(v.regs, r1 as int) + sext16(imm));
            match spec_write_mem(v.prog, v.stack, ea as int, sz.spec_bytes(), reg_read(
                v.regs,
                r2 as int,
            )) {
                Result::Err(k) => trap_view(v, k),
                Result::Ok(stack2) => VmView { stack: stack2, pc: wrap64(v.pc + 4), ..v },
            }
        },
    }
}

/// Conditional branches: unsigned comparison of `[r1]` and `[r2]`; when
/// taken the unsigned immediate is added to the advanced `pc`.
pub open spec fn branch_spec(v: VmView, op: Opcode) -> VmView {
    match spec_decode_rir(v) {
        Result::Err(k) => trap_view(v, k),
        Result::Ok((r1, r2, imm)) => {
            let a = reg_read(v.regs, r1 as int);
            let b = reg_read(v.regs, r2 as int);
            let taken = match op {
                Opcode::Beq => a == b,
                Opcode::Bne => a != b,
                Opcode::Blt => a < b,
                _ => a >= b,
            };
            VmView {
                pc: wrap64(v.pc + 4 + if taken {
                    imm as int
                } else {
                    0
                }),
                ..v
            }
        },
    }
}

/// `Jze`: when `[r2]` is zero, `pc` becomes the advanced `pc` plus the
/// sign-extended immediate plus `[r1]`, all wrapping.
pub open spec fn jze_spec(v: VmView) -> VmView {
    match spec_decode_rir(v) {
        Result::Err(k) => trap_view(v, k),
        Result::Ok((r1, r2, imm)) => {
            if reg_read(v.regs, r2 as int) == 0 {
                VmView { pc: wrap64(v.pc + 4 + sext16(imm) + reg_read(v.regs, r1 as int)), ..v }
            } else {
                VmView { pc: wrap64(v.pc + 4), ..v }
            }
        },
    }
}

/// `Call`: push the address of the following instruction and jump to the
/// 32-bit immediate target.  Moving `sp` above the stack top is a stack
/// overflow.
pub open spec fn call_spec(v: VmView) -> VmView {
    match spec_read_mem(v.prog, v.stack, v.pc as int + 1, 4) {
        Result::Err(k) => trap_view(v, k),
        Result::Ok(target) => {
            let sp = reg_read(v.regs, 15);
            if stack_top(v.prog) <= sp - 8 && sp <= stack_bottom(v.prog, v.stack) {
                let newsp = (sp - 8) as u64;
                let ra = wrap64(v.pc + 5);
                let stack2 = spec_write_mem(v.prog, v.stack, newsp as int, 8, ra)->Ok_0;
                VmView { regs: reg_write(v.regs, 15, newsp), pc: target, stack: stack2, ..v }
            } else {
                trap_view(v, TrapKind::StackOverflow)
            }
        },
    }
}

/// `Ret`: pop the return address into `pc`.  Moving `sp` below the stack
/// bottom is a stack underflow.
pub open spec fn ret_spec(v: VmView) -> VmView {
    let sp = reg_read(v.regs, 15);
    if stack_top(v.prog) <= sp && sp + 8 <= stack_bottom(v.prog, v.stack) {
        let ra = spec_read_mem(v.prog, v.stack, sp as int, 8)->Ok_0;
        VmView { regs: reg_write(v.regs, 15, (sp + 8) as u64), pc: ra, ..v }
    } else {
        trap_view(v, TrapKind::StackUnderflow)
    }
}

/// `Push`: decrement `sp` by 8 and store the named register — read after
/// the decrement, as the dispatcher does.
pub open spec fn push_spec(v: VmView) -> VmView {
    match spec_read_mem(v.prog, v.stack, v.pc as int + 1, 1) {
        Result::Err(k) => trap_view(v, k),
        Result::Ok(b1) => {
            let rs = (b1 as u8) % 16;
            let sp = reg_read(v.regs, 15);
            if stack_top(v.prog) <= sp - 8 && sp <= stack_bottom(v.prog, v.stack) {
                let newsp = (sp - 8) as u64;
                let regs2 = reg_write(v.regs, 15, newsp);
                let val = reg_read(regs2, rs as int);
                let stack2 = spec_write_mem(v.prog, v.stack, newsp as int, 8, val)->Ok_0;
                VmView { regs: regs2, stack: stack2, pc: wrap64(v.pc + 2), ..v }
            } else {
                trap_view(v, TrapKind::StackOverflow)
            }
        },
    }
}

/// `Pop`: load the double word at `sp` into the named register, then move
/// `sp` down by 8 — in that order, so popping into `sp` itself ends with
/// the loaded value plus 8.
pub open spec fn pop_spec(v: VmView) -> VmView {
    match spec_read_mem(v.prog, v.stack, v.pc as int + 1, 1) {
        Result::Err(k) => trap_view(v, k),
        Result::Ok(b1) => {
            let rd = (b1 as u8) % 16;
            let sp = reg_read(v.regs, 15);
            if stack_top(v.prog) <= sp && sp + 8 <= stack_bottom(v.prog, v.stack) {
                let val = spec_read_mem(v.prog, v.stack, sp as int, 8)->Ok_0;
                let regs2 = reg_write(v.regs, rd as int, val);
                let regs3 = reg_write(regs2, 15, wrap64(reg_read(regs2, 15) + 8));
                VmView { regs: regs3, pc: wrap64(v.pc + 2), ..v }
            } else {
                trap_view(v, TrapKind::StackUnderflow)
            }
        },
    }
}

/// Immediate loads: the immediate of `nimm` bytes is zero-extended into
/// `rd`; the instruction is `len` bytes long.
pub open spec fn li_spec(v: VmView, nimm: int, len: int) -> VmView {
    match spec_read_mem(v.prog, v.stack, v.pc as int + 1, 1) {
        Result::Err(k) => trap_view(v, k),
        Result::Ok(b1) => match spec_read_mem(v.prog, v.stack, v.pc as int + 2, nimm) {
            Result::Err(k) => trap_view(v, k),
            Result::Ok(imm) => adv_write(v, len, (b1 as u8) % 16, imm),
        },
    }
}

/// `Mov`: copy `[rs]` into `rd`.
pub open spec fn mov_spec(v: VmView) -> VmView {
    match spec_read_mem(v.prog, v.stack, v.pc as int + 1, 1) {
        Result::Err(k) => trap_view(v, k),
        Result::Ok(b1) => adv_write(
            v,
            2,
            (b1 as u8) / 16,
            reg_read(v.regs, ((b1 as u8) % 16) as int),
        ),
    }
}

/// The action of one decoded instruction.
pub open spec fn step_op_spec(v: VmView, op: Opcode) -> VmView {
    match op {
        Opcode::Add => alu_spec(v, op),
        Opcode::Sub => alu_spec(v, op),
        Opcode::Mul => alu_spec(v, op),
        Opcode::Div => alu_spec(v, op),
        Opcode::Rem => alu_spec(v, op),
        Opcode::Clt => cmp_spec(v, op),
        Opcode::Cge => cmp_spec(v, op),
        Opcode::Ceq => cmp_spec(v, op),
        Opcode::Cne => cmp_spec(v, op),
        Opcode::And => bitwise_spec(v, op),
        Opcode::Or => bitwise_spec(v, op),
        Opcode::Xor => bitwise_spec(v, op),
        Opcode::Call => call_spec(v),
        Opcode::Ret => ret_spec(v),
        Opcode::Jze => jze_spec(v),
        Opcode::Beq => branch_spec(v, op),
        Opcode::Bne => branch_spec(v, op),
        Opcode::Blt => branch_spec(v, op),
        Opcode::Bge => branch_spec(v, op),
        Opcode::LdB => load_spec(v, Size::Byte),
        Opcode::LdH => load_spec(v, Size::Half),
        Opcode::LdW => load_spec(v, Size::Word),
        Opcode::LdD => load_spec(v, Size::Double),
        Opcode::StB => store_spec(v, Size::Byte),
        Opcode::StH => store_spec(v, Size::Half),
        Opcode::StW => store_spec(v, Size::Word),
        Opcode::StD => store_spec(v, Size::Double),
        Opcode::LiB => li_spec(v, 1, 3),
        Opcode::LiH => li_spec(v, 2, 4),
        Opcode::LiW => li_spec(v, 4, 6),
        Opcode::LiD => li_spec(v, 8, 10),
        Opcode::Mov => mov_spec(v),
        Opcode::Push => push_spec(v),
        Opcode::Pop => pop_spec(v),
    }
}

/// One dispatch step of the machine.  A terminated machine, or one with a
/// pending floating-point request, does not move; otherwise the byte at
/// `pc` is fetched and decoded, and its instruction executed; every fault
/// records a trap and terminates.
pub open spec fn step_spec(v: VmView) -> VmView {
    if v.done || v.pending is Some {
        v
    } else {
        match spec_read_mem(v.prog, v.stack, v.pc as int, 1) {
            Result::Err(k) => trap_view(v, k),
            Result::Ok(b) => match spec_opcode_from_byte(b as u8) {
                Option::None => trap_view(v, TrapKind::InvalidOpcode),
                Option::Some(op) => step_op_spec(v, op),
            },
        }
    }
}

/// The value a resolved floating-point request stores: comparison results
/// are canonicalized to 0 or 1, arithmetic results are the returned bit
/// pattern truncated to the width and zero-extended.
pub open spec fn float_result_val(req: FloatReq, bits: u64) -> u64 {
    if req.op.spec_is_compare() {
        if bits != 0 {
            1
        } else {
            0
        }
    } else {
        (bits as int % width_mod(req.width)) as u64
    }
}

/// Resolving a pending floating-point request: the result is stored in the
/// request's destination register and the request is cleared.  Without a
/// pending request nothing moves.
pub open spec fn resolve_float_spec(v: VmView, bits: u64) -> VmView {
    match v.pending {
        Option::None => v,
        Option::Some(req) => VmView {
            regs: reg_write(v.regs, req.rd as int, float_result_val(req, bits)),
            pending: Option::None,
            ..v
        },
    }
}

/// The bytecode virtual machine.
pub struct Vm {
    /// General purpose registers.
    x: Registers,
    /// The program counter.
    pc: DWord,
    /// One past the last program byte: `PROGRAM_START + P`.
    program_end: DWord,
    /// One past the highest stack address.
    stack_bottom: DWord,
    /// The last canary address.
    canary_end: DWord,
    /// The program image.
    program: BcBlob,
    /// The stack buffer.
    stack: Vec<u8>,
    /// Whether execution has terminated.
    done: bool,
    /// The trap that terminated execution, if any.
    trap: Option<Trap>,
    /// A floating-point request awaiting resolution, if any.
    pending: Option<FloatReq>,
}

impl View for Vm {
    type V = VmView;

    closed spec fn view(&self) -> VmView {
        VmView {
            regs: self.x@,
            pc: self.pc,
            prog: self.program.code@,
            stack: self.stack@,
            done: self.done,
            trap: self.trap,
            pending: self.pending,
        }
    }
}

impl Vm {
    /// The machine is well-formed: its view is, and the cached region
    /// boundaries agree with the buffers they were computed from.
    pub closed spec fn wf(self) -> bool {
        &&& view_wf(self@)
        &&& self.program_end == prog_end(self.program.code@)
        &&& self.stack_bottom == stack_bottom(self.program.code@, self.stack@)
        &&& self.canary_end == stack_bottom(self.program.code@, self.stack@) + 1024
    }

    /// Constructs an initialized machine: `pc` at the program start, `sp` at
    /// the stack bottom, all other registers zero, the stack zeroed.
    pub fn new(stack_size: DWord, program: BcBlob) -> (vm: Vm)
        requires
            program.code@.len() + stack_size + 1282 <= 0xffff_ffff_ffff_ffff,
            stack_size <= usize::MAX,
        ensures
            vm.wf(),
            vm@.prog == program.code@,
            vm@.pc == PROGRAM_START,
            vm@.stack.len() == stack_size,
            forall|i: int| 0 <= i < stack_size ==> vm@.stack[i] == 0,
            vm@.regs == reg_write(
                Seq::new(16, |i: int| 0u64),
                15,
                (stack_top(program.code@) + stack_size) as u64,
            ),
            vm@.regs[15] == stack_bottom(program.code@, vm@.stack),
            forall|i: int| 0 <= i < 15 ==> vm@.regs[i] == 0,
            !vm@.done,
            vm@.trap is None,
            vm@.pending is None,
    {
        let program_end: u64 = PROGRAM_START + program.code.len() as u64;
        let stack_top_a: u64 = program_end + 1;
        let stack_bottom_a: u64 = stack_top_a + stack_size;
        let canary_end: u64 = stack_bottom_a + 1024;

        let mut x = Registers::new();
        x.write(15, stack_bottom_a);

        let mut stack: Vec<u8> = Vec::new();
        let n: usize = stack_size as usize;
        let mut i: usize = 0;
        while i < n
            invariant
                i <= n,
                stack.len() == i,
                forall|j: int| 0 <= j < i ==> stack@[j] == 0,
            decreases n - i,
        {
            stack.push(0);
            i = i + 1;
        }

        let vm = Vm {
            x,
            pc: PROGRAM_START,
            program_end,
            stack_bottom: stack_bottom_a,
            canary_end,
            program,
            stack,
            done: false,
            trap: None,
            pending: None,
        };
        proof {
            assert(vm@.regs =~= reg_write(
                Seq::new(16, |i: int| 0u64),
                15,
                (stack_top(vm@.prog) + stack_size) as u64,
            ));
        }
        vm
    }

    /// The lowest stack address.
    pub fn stack_top(&self) -> (r: DWord)
        requires
            self.wf(),
        ensures
            r as int == stack_top(self@.prog),
    {
        self.program_end + 1
    }

    /// The first canary address, one past the stack.
    pub fn canary_start(&self) -> (r: DWord)
        requires
            self.wf(),
        ensures
            r as int == stack_bottom(self@.prog, self@.stack) + 1,
    {
        self.stack_bottom + 1
    }

    /// The first heap address, one past the canary.
    pub fn heap_base(&self) -> (r: DWord)
        requires
            self.wf(),
        ensures
            r as int == stack_bottom(self@.prog, self@.stack) + 1025,
    {
        self.canary_end + 1
    }

    /// The observable value of register `i`.
    pub fn reg(&self, i: u8) -> (r: u64)
        requires
            self.wf(),
            i < 16,
        ensures
            r == reg_read(self@.regs, i as int),
    {
        self.x.read(i)
    }

    /// The program counter.
    pub fn pc(&self) -> (r: u64)
        ensures
            r == self@.pc,
    {
        self.pc
    }

    /// Whether execution has terminated.
    pub fn is_done(&self) -> (r: bool)
        ensures
            r == self@.done,
    {
        self.done
    }

    /// The trap that terminated execution, if any.
    pub fn trap(&self) -> (r: Option<Trap>)
        ensures
            r == self@.trap,
    {
        self.trap
    }

    /// The floating-point request awaiting resolution, if any.
    pub fn pending_float(&self) -> (r: Option<FloatReq>)
        ensures
            r == self@.pending,
    {
        self.pending
    }

    /// Records the trap `kind` at the current `pc` and terminates execution;
    /// no other state moves.
    fn raise(&mut self, kind: TrapKind)
        requires
            old(self).wf(),
            old(self)@.pending is None,
        ensures
            final(self).wf(),
            final(self)@ == trap_view(old(self)@, kind),
    {
        self.trap = Some(Trap { kind, pc: self.pc });
        self.done = true;
        proof {
            assert(self@ =~= trap_view(old(self)@, kind));
        }
    }

    /// Reads the `size`-byte little-endian value at `addr`, zero-extended
    /// into a word.  The range must lie entirely within the program or the
    /// stack region; every other range is an access violation.
    pub fn read(&self, addr: DWord, size: Size) -> (r: Result<DWord, TrapKind>)
        requires
            self.wf(),
        ensures
            r == spec_read_mem(self@.prog, self@.stack, addr as int, size.spec_bytes()),
    {
        let n: usize = size.bytes();
        let n64: u64 = n as u64;
        if PROGRAM_START <= addr && addr <= self.program_end - n64 && n64 <= self.program_end {
            proof {
                assert(in_program(self@.prog, addr as int, n as int));
                lemma_read_mem_bound(self@.prog, self@.stack, addr as int, n as int);
                assert(addr - PROGRAM_START <= self.program.code.len());
            }
            let off: usize = (addr - PROGRAM_START) as usize;
            let v = le_read(&self.program.code, off, n);
            Ok(v)
        } else if self.program_end + 1 <= addr && addr <= self.stack_bottom - n64 {
            let st: u64 = self.program_end + 1;
            proof {
                assert(in_stack(self@.prog, self@.stack, addr as int, n as int));
                assert(!in_program(self@.prog, addr as int, n as int));
                lemma_read_mem_bound(self@.prog, self@.stack, addr as int, n as int);
                assert(addr - st <= self.stack.len());
            }
            let off: usize = (addr - st) as usize;
            let v = le_read(&self.stack, off, n);
            Ok(v)
        } else {
            proof {
                assert(!in_program(self@.prog, addr as int, n as int));
                assert(!in_stack(self@.prog, self@.stack, addr as int, n as int));
            }
            Err(TrapKind::AccessViolation)
        }
    }

    /// Writes the low `size` bytes of `value` at `addr`, little-endian.  The
    /// range must lie entirely within the stack region; a write based in the
    /// read-only program region is refused as such, every other invalid
    /// range is an access violation.  On a trap nothing moves.
    pub fn write(&mut self, addr: DWord, size: Size, value: DWord) -> (r: Result<(), TrapKind>)
        requires
            old(self).wf(),
        ensures
            final(self).wf(),
            match spec_write_mem(
                old(self)@.prog,
                old(self)@.stack,
                addr as int,
                size.spec_bytes(),
                value,
            ) {
                Ok(stack2) => r is Ok && final(self)@ == VmView { stack: stack2, ..old(self)@ },
                Err(k) => r == Err::<(), TrapKind>(k) && final(self)@ == old(self)@,
            },
    {
        let n: usize = size.bytes();
        let n64: u64 = n as u64;
        let st: u64 = self.program_end + 1;
        if st <= addr && addr <= self.stack_bottom - n64 {
            let off: usize = (addr - st) as usize;
            proof {
                assert(in_stack(self@.prog, self@.stack, addr as int, n as int));
            }
            le_write(&mut self.stack, off, n, value);
            proof {
                let spec_stack = spec_write_mem(
                    old(self)@.prog,
                    old(self)@.stack,
                    addr as int,
                    n as int,
                    value,
                )->Ok_0;
                assert(final(self)@.stack =~= spec_stack);
                assert(final(self)@ =~= VmView { stack: spec_stack, ..old(self)@ });
            }
            Ok(())
        } else if PROGRAM_START <= addr && addr < self.program_end {
            proof {
                assert(!in_stack(self@.prog, self@.stack, addr as int, n as int));
            }
            Err(TrapKind::WriteToReadOnly)
        } else {
            proof {
                assert(!in_stack(self@.prog, self@.stack, addr as int, n as int));
                assert(!(256 <= addr as int && (addr as int) < prog_end(self@.prog)));
            }
            Err(TrapKind::AccessViolation)
        }
    }

    /// Decodes the operands of an instruction with layout
    /// `opcode | funct rd | rs1 rs2`, reading the bytes at `pc + 1` and
    /// `pc + 2`.
    fn decode_arithmetic_inst(&self) -> (r: Result<(AFunct, u8, u8, u8), TrapKind>)
        requires
            self.wf(),
            fetch_ok(self@),
        ensures
            r == spec_decode_a(self@),
            r matches Ok(t) ==> t.1 < 16 && t.2 < 16 && t.3 < 16,
    {
        proof {
            lemma_pc_headroom(self@);
        }
        let b1 = match self.read(self.pc + 1, Size::Byte) {
            Ok(b) => b,
            Err(k) => {
                return Err(k);
            },
        };
        let b2 = match self.read(self.pc + 2, Size::Byte) {
            Ok(b) => b,
            Err(k) => {
                return Err(k);
            },
        };
        let b1b = b1 as u8;
        let b2b = b2 as u8;
        match afunct_from_bits(b1b / 16) {
            None => Err(TrapKind::InvalidFunct),
            Some(f) => Ok((f, b1b % 16, b2b / 16, b2b % 16)),
        }
    }

    /// Decodes the operands of an instruction with layout
    /// `opcode | reg1 reg2 | imm16`, reading the byte at `pc + 1` and the
    /// halfword at `pc + 2`.
    fn dissassemble_reg_imm16_reg(&self) -> (r: Result<(u8, u8, u64), TrapKind>)
        requires
            self.wf(),
            fetch_ok(self@),
        ensures
            r == spec_decode_rir(self@),
            r matches Ok(t) ==> t.0 < 16 && t.1 < 16 && t.2 < 0x10000,
    {
        proof {
            lemma_pc_headroom(self@);
        }
        let b1 = match self.read(self.pc + 1, Size::Byte) {
            Ok(b) => b,
            Err(k) => {
                return Err(k);
            },
        };
        let imm = match self.read(self.pc + 2, Size::Half) {
            Ok(v) => v,
            Err(k) => {
                return Err(k);
            },
        };
        proof {
            lemma_read_mem_bound(self@.prog, self@.stack, self@.pc as int + 2, 2);
            lemma_pow256_values();
        }
        let b1b = b1 as u8;
        Ok((b1b / 16, b1b % 16, imm))
    }

    /// Arithmetic family: integer funct computes the wrapping result (zero
    /// divisor traps); a floating funct records a pending request.
    fn exec_alu(&mut self, op: Opcode)
        requires
            old(self).wf(),
            !old(self)@.done,
            old(self)@.pending is None,
            fetch_ok(old(self)@),
            op == Opcode::Add || op == Opcode::Sub || op == Opcode::Mul || op == Opcode::Div || op
                == Opcode::Rem,
        ensures
            final(self).wf(),
            final(self)@ == alu_spec(old(self)@, op),
    {
        proof {
            lemma_pc_headroom(old(self)@);
        }
        let (f, rd, rs1, rs2) = match self.decode_arithmetic_inst() {
            Ok(t) => t,
            Err(k) => {
                self.raise(k);
                return;
            },
        };
        let a = self.x.read(rs1);
        let b = self.x.read(rs2);
        match f {
            AFunct::X => {
                if (op == Opcode::Div || op == Opcode::Rem) && b == 0 {
                    self.raise(TrapKind::DivByZero);
                    return;
                }
                let val = match op {
                    Opcode::Add => a.wrapping_add(b),
                    Opcode::Sub => a.wrapping_sub(b),
                    Opcode::Mul => a.wrapping_mul(b),
                    Opcode::Div => a / b,
                    _ => a % b,
                };
                proof {
                    if op == Opcode::Add {
                        if a + b < 0x1_0000_0000_0000_0000 {
                            lemma_wrap64_id(a + b);
                        } else {
                            lemma_wrap64_high(a + b);
                        }
                    } else if op == Opcode::Sub {
                        if a >= b {
                            lemma_wrap64_id(a - b);
                        } else {
                            lemma_wrap64_neg(a - b);
                        }
                    }
                    assert(val == alu_int_val(op, a, b));
                }
                self.x.write(rd, val);
                self.pc = self.pc + 3;
                proof {
                    lemma_wrap64_id(old(self)@.pc as int + 3);
                    assert(self@ =~= alu_spec(old(self)@, op));
                }
            },
            _ => {
                self.dispatch_float(float_op_exec(op), f, rd, a, b);
                proof {
                    assert(self@ =~= alu_spec(old(self)@, op));
                }
            },
        }
    }

    /// Records a pending floating-point request for the embedder, operands
    /// truncated to the funct's width, and advances `pc` past the
    /// three-byte instruction.
    fn dispatch_float(&mut self, fop: FloatOp, f: AFunct, rd: u8, a: u64, b: u64)
        requires
            old(self).wf(),
            !old(self)@.done,
            old(self)@.pending is None,
            old(self)@.pc as int + 3 < 0x1_0000_0000_0000_0000,
            rd < 16,
            f != AFunct::X,
        ensures
            final(self).wf(),
            final(self)@ == float_req_view(old(self)@, fop, float_width_of(f), rd, a, b),
    {
        let w = match f {
            AFunct::F16 => FloatWidth::F16,
            AFunct::F32 => FloatWidth::F32,
            _ => FloatWidth::F64,
        };
        let lhs = match w {
            FloatWidth::F16 => a % 0x1_0000,
            FloatWidth::F32 => a % 0x1_0000_0000,
            FloatWidth::F64 => a,
        };
        let rhs = match w {
            FloatWidth::F16 => b % 0x1_0000,
            FloatWidth::F32 => b % 0x1_0000_0000,
            FloatWidth::F64 => b,
        };
        self.pending = Some(FloatReq { op: fop, width: w, rd, lhs, rhs });
        self.pc = self.pc + 3;
        proof {
            lemma_wrap64_id(old(self)@.pc as int + 3);
            if w == FloatWidth::F64 {
                lemma_wrap64_id(a as int);
                lemma_wrap64_id(b as int);
            }
            assert(self@ =~= float_req_view(old(self)@, fop, float_width_of(f), rd, a, b));
        }
    }

    /// Comparison family: integer funct stores 0 or 1; a floating funct
    /// records a pending request.
    fn exec_cmp(&mut self, op: Opcode)
        requires
            old(self).wf(),
            !old(self)@.done,
            old(self)@.pending is None,
            fetch_ok(old(self)@),
            op == Opcode::Clt || op == Opcode::Cge || op == Opcode::Ceq || op == Opcode::Cne,
        ensures
            final(self).wf(),
            final(self)@ == cmp_spec(old(self)@, op),
    {
        proof {
            lemma_pc_headroom(old(self)@);
        }
        let (f, rd, rs1, rs2) = match self.decode_arithmetic_inst() {
            Ok(t) => t,
            Err(k) => {
                self.raise(k);
                return;
            },
        };
        let a = self.x.read(rs1);
        let b = self.x.read(rs2);
        match f {
            AFunct::X => {
                let taken = match op {
                    Opcode::Clt => a < b,
                    Opcode::Cge => a >= b,
                    Opcode::Ceq => a == b,
                    _ => a != b,
                };
                let val: u64 = if taken {
                    1
                } else {
                    0
                };
                self.x.write(rd, val);
                self.pc = self.pc + 3;
                proof {
                    lemma_wrap64_id(old(self)@.pc as int + 3);
                    assert(self@ =~= cmp_spec(old(self)@, op));
                }
            },
            _ => {
                self.dispatch_float(float_op_exec(op), f, rd, a, b);
                proof {
                    assert(self@ =~= cmp_spec(old(self)@, op));
                }
            },
        }
    }

    /// Bitwise family: integer funct only; a floating funct traps.
    fn exec_bitwise(&mut self, op: Opcode)
        requires
            old(self).wf(),
            !old(self)@.done,
            old(self)@.pending is None,
            fetch_ok(old(self)@),
            op == Opcode::And || op == Opcode::Or || op == Opcode::Xor,
        ensures
            final(self).wf(),
            final(self)@ == bitwise_spec(old(self)@, op),
    {
        proof {
            lemma_pc_headroom(old(self)@);
        }
        let (f, rd, rs1, rs2) = match self.decode_arithmetic_inst() {
            Ok(t) => t,
            Err(k) => {
                self.raise(k);
                return;
            },
        };
        let a = self.x.read(rs1);
        let b = self.x.read(rs2);
        match f {
            AFunct::X => {
                let val = match op {
                    Opcode::And => a & b,
                    Opcode::Or => a | b,
                    _ => a ^ b,
                };
                self.x.write(rd, val);
                self.pc = self.pc + 3;
                proof {
                    lemma_wrap64_id(old(self)@.pc as int + 3);
                    assert(self@ =~= bitwise_spec(old(self)@, op));
                }
            },
            _ => {
                self.raise(TrapKind::BitwiseOnFloat);
                proof {
                    assert(self@ =~= bitwise_spec(old(self)@, op));
                }
            },
        }
    }

    /// Loads: read at `[rs]` plus the sign-extended immediate, zero-extend
    /// into `rd`.
    fn exec_load(&mut self, sz: Size)
        requires
            old(self).wf(),
            !old(self)@.done,
            old(self)@.pending is None,
            fetch_ok(old(self)@),
        ensures
            final(self).wf(),
            final(self)@ == load_spec(old(self)@, sz),
    {
        proof {
            lemma_pc_headroom(old(self)@);
        }
        let (rd, rs, imm) = match self.dissassemble_reg_imm16_reg() {
            Ok(t) => t,
            Err(k) => {
                self.raise(k);
                return;
            },
        };
        let base = self.x.read(rs);
        let ea = ea_signed(base, imm);
        let val = match self.read(ea, sz) {
            Ok(v) => v,
            Err(k) => {
                self.raise(k);
                return;
            },
        };
        self.x.write(rd, val);
        self.pc = self.pc + 4;
        proof {
            lemma_wrap64_id(old(self)@.pc as int + 4);
            assert(self@ =~= load_spec(old(self)@, sz));
        }
    }

    /// Stores: write the low bytes of `[r2]` at `[r1]` plus the
    /// sign-extended immediate.
    fn exec_store(&mut self, sz: Size)
        requires
            old(self).wf(),
            !old(self)@.done,
            old(self)@.pending is None,
            fetch_ok(old(self)@),
        ensures
            final(self).wf(),
            final(self)@ == store_spec(old(self)@, sz),
    {
        proof {
            lemma_pc_headroom(old(self)@);
        }
        let (r1, r2, imm) = match self.dissassemble_reg_imm16_reg() {
            Ok(t) => t,
            Err(k) => {
                self.raise(k);
                return;
            },
        };
        let base = self.x.read(r1);
        let ea = ea_signed(base, imm);
        let val = self.x.read(r2);
        match self.write(ea, sz, val) {
            Ok(_) => {
                self.pc = self.pc + 4;
                proof {
                    lemma_wrap64_id(old(self)@.pc as int + 4);
                    assert(self@ =~= store_spec(old(self)@, sz));
                }
            },
            Err(k) => {
                self.raise(k);
                proof {
                    assert(self@ =~= store_spec(old(self)@, sz));
                }
            },
        }
    }

    /// Conditional branches: on an unsigned comparison of `[r1]` and
    /// `[r2]`, add the unsigned immediate to the advanced `pc`.
    fn exec_branch(&mut self, op: Opcode)
        requires
            old(self).wf(),
            !old(self)@.done,
            old(self)@.pending is None,
            fetch_ok(old(self)@),
            op == Opcode::Beq || op == Opcode::Bne || op == Opcode::Blt || op == Opcode::Bge,
        ensures
            final(self).wf(),
            final(self)@ == branch_spec(old(self)@, op),
    {
        proof {
            lemma_pc_headroom(old(self)@);
        }
        let (r1, r2, imm) = match self.dissassemble_reg_imm16_reg() {
            Ok(t) => t,
            Err(k) => {
                self.raise(k);
                return;
            },
        };
        let a = self.x.read(r1);
        let b = self.x.read(r2);
        let taken = match op {
            Opcode::Beq => a == b,
            Opcode::Bne => a != b,
            Opcode::Blt => a < b,
            _ => a >= b,
        };
        let base = self.pc + 4;
        proof {
            lemma_wrap64_id(old(self)@.pc as int + 4);
            if base + imm < 0x1_0000_0000_0000_0000 {
                lemma_wrap64_id(base + imm);
            } else {
                lemma_wrap64_high(base + imm);
            }
        }
        self.pc = if taken {
            base.wrapping_add(imm)
        } else {
            base
        };
        proof {
            assert(self@ =~= branch_spec(old(self)@, op));
        }
    }

    /// `Jze`: when `[r2]` is zero, jump to the advanced `pc` plus the
    /// sign-extended immediate plus `[r1]`.
    fn exec_jze(&mut self)
        requires
            old(self).wf(),
            !old(self)@.done,
            old(self)@.pending is None,
            fetch_ok(old(self)@),
        ensures
            final(self).wf(),
            final(self)@ == jze_spec(old(self)@),
    {
        proof {
            lemma_pc_headroom(old(self)@);
        }
        let (r1, r2, imm) = match self.dissassemble_reg_imm16_reg() {
            Ok(t) => t,
            Err(k) => {
                self.raise(k);
                return;
            },
        };
        if self.x.read(r2) == 0 {
            let a = self.x.read(r1);
            let t1 = ea_signed(self.pc + 4, imm);
            proof {
                lemma_wrap64_id(old(self)@.pc as int + 4);
                if t1 + a < 0x1_0000_0000_0000_0000 {
                    lemma_wrap64_id(t1 + a);
                } else {
                    lemma_wrap64_high(t1 + a);
                }
                lemma_wrap64_add(
                    old(self)@.pc as int + 4 + sext16(imm),
                    a as int,
                );
            }
            self.pc = t1.wrapping_add(a);
        } else {
            proof {
                lemma_wrap64_id(old(self)@.pc as int + 4);
            }
            self.pc = self.pc + 4;
        }
        proof {
            assert(self@ =~= jze_spec(old(self)@));
        }
    }

    /// `Call`: push the address of the following instruction and jump to
    /// the 32-bit immediate target.
    fn exec_call(&mut self)
        requires
            old(self).wf(),
            !old(self)@.done,
            old(self)@.pending is None,
            fetch_ok(old(self)@),
        ensures
            final(self).wf(),
            final(self)@ == call_spec(old(self)@),
    {
        proof {
            lemma_pc_headroom(old(self)@);
        }
        let target = match self.read(self.pc + 1, Size::Word) {
            Ok(v) => v,
            Err(k) => {
                self.raise(k);
                return;
            },
        };
        let sp = self.x.read(15);
        let st = self.program_end + 1;
        if st + 8 <= sp && sp <= self.stack_bottom {
            let newsp = sp - 8;
            let ra = self.pc + 5;
            proof {
                lemma_wrap64_id(old(self)@.pc as int + 5);
                assert(in_stack(self@.prog, self@.stack, newsp as int, 8));
            }
            let wr = self.write(newsp, Size::Double, ra);
            proof {
                assert(wr is Ok);
            }
            self.x.write(15, newsp);
            self.pc = target;
            proof {
                assert(self@ =~= call_spec(old(self)@));
            }
        } else {
            self.raise(TrapKind::StackOverflow);
            proof {
                assert(self@ =~= call_spec(old(self)@));
            }
        }
    }

    /// `Ret`: pop the return address into `pc`.
    fn exec_ret(&mut self)
        requires
            old(self).wf(),
            !old(self)@.done,
            old(self)@.pending is None,
            fetch_ok(old(self)@),
        ensures
            final(self).wf(),
            final(self)@ == ret_spec(old(self)@),
    {
        let sp = self.x.read(15);
        let st = self.program_end + 1;
        if st <= sp && sp <= self.stack_bottom - 8 {
            proof {
                assert(in_stack(self@.prog, self@.stack, sp as int, 8));
            }
            let ra = match self.read(sp, Size::Double) {
                Ok(v) => v,
                Err(_) => {
                    proof {
                        assert(false);
                    }
                    return;
                },
            };
            self.x.write(15, sp + 8);
            self.pc = ra;
            proof {
                assert(self@ =~= ret_spec(old(self)@));
            }
        } else {
            self.raise(TrapKind::StackUnderflow);
            proof {
                assert(self@ =~= ret_spec(old(self)@));
            }
        }
    }

    /// `Push`: decrement `sp` by 8 and store the named register, read after
    /// the decrement.
    fn exec_push(&mut self)
        requires
            old(self).wf(),
            !old(self)@.done,
            old(self)@.pending is None,
            fetch_ok(old(self)@),
        ensures
            final(self).wf(),
            final(self)@ == push_spec(old(self)@),
    {
        proof {
            lemma_pc_headroom(old(self)@);
        }
        let b1 = match self.read(self.pc + 1, Size::Byte) {
            Ok(v) => v,
            Err(k) => {
                self.raise(k);
                return;
            },
        };
        let rs = (b1 as u8) % 16;
        let sp = self.x.read(15);
        let st = self.program_end + 1;
        if st + 8 <= sp && sp <= self.stack_bottom {
            let newsp = sp - 8;
            self.x.write(15, newsp);
            let val = self.x.read(rs);
            proof {
                assert(in_stack(self@.prog, self@.stack, newsp as int, 8));
            }
            let wr = self.write(newsp, Size::Double, val);
            proof {
                assert(wr is Ok);
            }
            self.pc = self.pc + 2;
            proof {
                lemma_wrap64_id(old(self)@.pc as int + 2);
                assert(self@ =~= push_spec(old(self)@));
            }
        } else {
            self.raise(TrapKind::StackOverflow);
            proof {
                assert(self@ =~= push_spec(old(self)@));
            }
        }
    }

    /// `Pop`: load the double word at `sp` into the named register, then
    /// move `sp` down by 8.
    fn exec_pop(&mut self)
        requires
            old(self).wf(),
            !old(self)@.done,
            old(self)@.pending is None,
            fetch_ok(old(self)@),
        ensures
            final(self).wf(),
            final(self)@ == pop_spec(old(self)@),
    {
        proof {
            lemma_pc_headroom(old(self)@);
        }
        let b1 = match self.read(self.pc + 1, Size::Byte) {
            Ok(v) => v,
            Err(k) => {
                self.raise(k);
                return;
            },
        };
        let rd = (b1 as u8) % 16;
        let sp = self.x.read(15);
        let st = self.program_end + 1;
        if st <= sp && sp <= self.stack_bottom - 8 {
            proof {
                assert(in_stack(self@.prog, self@.stack, sp as int, 8));
            }
            let val = match self.read(sp, Size::Double) {
                Ok(v) => v,
                Err(_) => {
                    proof {
                        assert(false);
                    }
                    return;
                },
            };
            self.x.write(rd, val);
            let sp2 = self.x.read(15);
            proof {
                if sp2 + 8 < 0x1_0000_0000_0000_0000 {
                    lemma_wrap64_id(sp2 as int + 8);
                } else {
                    lemma_wrap64_high(sp2 as int + 8);
                }
            }
            self.x.write(15, sp2.wrapping_add(8));
            self.pc = self.pc + 2;
            proof {
                lemma_wrap64_id(old(self)@.pc as int + 2);
                assert(self@ =~= pop_spec(old(self)@));
            }
        } else {
            self.raise(TrapKind::StackUnderflow);
            proof {
                assert(self@ =~= pop_spec(old(self)@));
            }
        }
    }

    /// Immediate loads: zero-extend the immediate into `rd`.
    fn exec_li(&mut self, sz: Size)
        requires
            old(self).wf(),
            !old(self)@.done,
            old(self)@.pending is None,
            fetch_ok(old(self)@),
        ensures
            final(self).wf(),
            final(self)@ == li_spec(old(self)@, sz.spec_bytes(), li_len(sz)),
    {
        proof {
            lemma_pc_headroom(old(self)@);
        }
        let b1 = match self.read(self.pc + 1, Size::Byte) {
            Ok(v) => v,
            Err(k) => {
                self.raise(k);
                return;
            },
        };
        let imm = match self.read(self.pc + 2, sz) {
            Ok(v) => v,
            Err(k) => {
                self.raise(k);
                return;
            },
        };
        let rd = (b1 as u8) % 16;
        self.x.write(rd, imm);
        let len: u64 = match sz {
            Size::Byte => 3,
            Size::Half => 4,
            Size::Word => 6,
            Size::Double => 10,
        };
        self.pc = self.pc + len;
        proof {
            lemma_wrap64_id(old(self)@.pc as int + li_len(sz));
            assert(self@ =~= li_spec(old(self)@, sz.spec_bytes(), li_len(sz)));
        }
    }

    /// `Mov`: copy `[rs]` into `rd`.
    fn exec_mov(&mut self)
        requires
            old(self).wf(),
            !old(self)@.done,
            old(self)@.pending is None,
            fetch_ok(old(self)@),
        ensures
            final(self).wf(),
            final(self)@ == mov_spec(old(self)@),
    {
        proof {
            lemma_pc_headroom(old(self)@);
        }
        let b1 = match self.read(self.pc + 1, Size::Byte) {
            Ok(v) => v,
            Err(k) => {
                self.raise(k);
                return;
            },
        };
        let rd = (b1 as u8) / 16;
        let rs = (b1 as u8) % 16;
        let val = self.x.read(rs);
        self.x.write(rd, val);
        self.pc = self.pc + 2;
        proof {
            lemma_wrap64_id(old(self)@.pc as int + 2);
            assert(self@ =~= mov_spec(old(self)@));
        }
    }

    /// Executes exactly one instruction, or records the trap it raises.  A
    /// terminated machine, or one still waiting on `resolve_float`, does
    /// not move.
    pub fn step(&mut self)
        requires
            old(self).wf(),
        ensures
            final(self).wf(),
            final(self)@ == step_spec(old(self)@),
            reg_read(final(self)@.regs, 0) == 0,
    {
        if self.done {
            return;
        }
        if self.pending.is_some() {
            return;
        }
        let b = match self.read(self.pc, Size::Byte) {
            Ok(b) => b,
            Err(k) => {
                self.raise(k);
                return;
            },
        };
        let op = match opcode_from_byte(b as u8) {
            Some(op) => op,
            None => {
                self.raise(TrapKind::InvalidOpcode);
                return;
            },
        };
        match op {
            Opcode::Add | Opcode::Sub | Opcode::Mul | Opcode::Div | Opcode::Rem => self.exec_alu(
                op,
            ),
            Opcode::Clt | Opcode::Cge | Opcode::Ceq | Opcode::Cne => self.exec_cmp(op),
            Opcode::And | Opcode::Or | Opcode::Xor => self.exec_bitwise(op),
            Opcode::Call => self.exec_call(),
            Opcode::Ret => self.exec_ret(),
            Opcode::Jze => self.exec_jze(),
            Opcode::Beq | Opcode::Bne | Opcode::Blt | Opcode::Bge => self.exec_branch(op),
            Opcode::LdB => self.exec_load(Size::Byte),
            Opcode::LdH => self.exec_load(Size::Half),
            Opcode::LdW => self.exec_load(Size::Word),
            Opcode::LdD => self.exec_load(Size::Double),
            Opcode::StB => self.exec_store(Size::Byte),
            Opcode::StH => self.exec_store(Size::Half),
            Opcode::StW => self.exec_store(Size::Word),
            Opcode::StD => self.exec_store(Size::Double),
            Opcode::LiB => self.exec_li(Size::Byte),
            Opcode::LiH => self.exec_li(Size::Half),
            Opcode::LiW => self.exec_li(Size::Word),
            Opcode::LiD => self.exec_li(Size::Double),
            Opcode::Mov => self.exec_mov(),
            Opcode::Push => self.exec_push(),
            Opcode::Pop => self.exec_pop(),
        }
    }

    /// Answers the pending floating-point request with the bit pattern the
    /// embedder computed: comparisons store 0 or 1 from a zero/non-zero
    /// answer, arithmetic stores the bits truncated to the width.  Without
    /// a pending request nothing moves.
    pub fn resolve_float(&mut self, bits: u64)
        requires
            old(self).wf(),
        ensures
            final(self).wf(),
            final(self)@ == resolve_float_spec(old(self)@, bits),
    {
        let req = match self.pending {
            Some(r) => r,
            None => {
                return;
            },
        };
        let val: u64 = if req.op.is_compare() {
            if bits != 0 {
                1
            } else {
                0
            }
        } else {
            match req.width {
                FloatWidth::F16 => bits % 0x1_0000,
                FloatWidth::F32 => bits % 0x1_0000_0000,
                FloatWidth::F64 => bits,
            }
        };
        proof {
            if req.width == FloatWidth::F64 {
                lemma_wrap64_id(bits as int);
            }
        }
        self.x.write(req.rd, val);
        self.pending = None;
        proof {
            assert(self@ =~= resolve_float_spec(old(self)@, bits));
        }
    }

    /// Runs up to `max_steps` dispatch steps, stopping as soon as the
    /// machine terminates or asks for a floating-point result.  Bounding
    /// the number of steps is the embedder's timeout.
    pub fn run(&mut self, max_steps: u64)
        requires
            old(self).wf(),
        ensures
            final(self).wf(),
            final(self)@ == run_spec(old(self)@, max_steps as nat),
    {
        let mut i: u64 = 0;
        while i < max_steps && !self.done && self.pending.is_none()
            invariant
                self.wf(),
                i <= max_steps,
                run_spec(old(self)@, max_steps as nat) == run_spec(
                    self@,
                    (max_steps - i) as nat,
                ),
            decreases max_steps - i,
        {
            proof {
                assert(run_spec(self@, (max_steps - i) as nat) == run_spec(
                    step_spec(self@),
                    (max_steps - i - 1) as nat,
                ));
            }
            self.step();
            i = i + 1;
        }
        proof {
            assert(run_spec(self@, (max_steps - i) as nat) == self@);
        }
    }
}

/// Program-counter advancement: a non-control-flow instruction that does
/// not trap advances `pc` by exactly its encoded length.
pub proof fn lemma_pc_advancement(v: VmView, op: Opcode)
    requires
        view_wf(v),
        !v.done,
        v.pending is None,
        fetch_ok(v),
        spec_opcode_from_byte(spec_read_mem(v.prog, v.stack, v.pc as int, 1)->Ok_0 as u8)
            == Some(op),
        !is_control_flow(op),
        step_spec(v).trap is None,
    ensures
        step_spec(v).pc as int == v.pc as int + instr_len(op),
{
    lemma_pc_headroom(v);
    lemma_wrap64_id(v.pc as int + instr_len(op));
}

/// Stack discipline: a `Push` immediately followed by a `Pop` hands the
/// pushed register's value to the popped register and restores the stack
/// pointer.  The law asks that neither register be the stack pointer
/// itself, and that the destination not be the zero register, whose writes
/// are discarded.
pub proof fn lemma_push_pop(v: VmView, rs: u8, rd: u8)
    requires
        view_wf(v),
        !v.done,
        v.pending is None,
        rs < 16,
        rs != 15,
        rd < 16,
        rd != 0,
        rd != 15,
        in_program(v.prog, v.pc as int, 4),
        v.prog[v.pc as int - 256] == opcode_code(Opcode::Push),
        v.prog[v.pc as int - 255] == rs,
        v.prog[v.pc as int - 254] == opcode_code(Opcode::Pop),
        v.prog[v.pc as int - 253] == rd,
        stack_top(v.prog) + 8 <= reg_read(v.regs, 15),
        reg_read(v.regs, 15) <= stack_bottom(v.prog, v.stack),
    ensures
        ({
            let v2 = step_spec(step_spec(v));
            &&& v2.trap is None
            &&& reg_read(v2.regs, rd as int) == reg_read(v.regs, rs as int)
            &&& reg_read(v2.regs, 15) == reg_read(v.regs, 15)
            &&& v2.pc as int == v.pc as int + 4
        }),
{
    let pc = v.pc as int;
    let sp = reg_read(v.regs, 15);
    lemma_le_value_at_one(v.prog, pc - 256);
    lemma_le_value_at_one(v.prog, pc - 255);
    lemma_le_value_at_one(v.prog, pc - 254);
    lemma_le_value_at_one(v.prog, pc - 253);
    lemma_pow256_values();
    assert(spec_read_mem(v.prog, v.stack, pc, 1) == Ok::<u64, TrapKind>(
        v.prog[pc - 256] as u64,
    ));
    assert(spec_opcode_from_byte(opcode_code(Opcode::Push)) == Some(Opcode::Push));
    let v1 = step_spec(v);
    let newsp = (sp - 8) as u64;
    let regs2 = reg_write(v.regs, 15, newsp);
    let val = reg_read(regs2, rs as int);
    assert(val == reg_read(v.regs, rs as int));
    assert(in_stack(v.prog, v.stack, sp - 8, 8));
    crate::mem::lemma_mem_write_read(v.prog, v.stack, sp - 8, 8, val);
    lemma_small_mod(val as nat, pow256(8));
    let stack2 = spec_write_mem(v.prog, v.stack, sp - 8, 8, val)->Ok_0;
    lemma_wrap64_id(pc + 2);
    assert(v1 == VmView { regs: regs2, stack: stack2, pc: wrap64(pc + 2), ..v });
    assert(v1.pc == pc + 2);
    assert(in_program(v1.prog, pc + 2, 1));
    assert(spec_read_mem(v1.prog, v1.stack, pc + 2, 1) == Ok::<u64, TrapKind>(
        v.prog[pc - 254] as u64,
    ));
    assert(spec_opcode_from_byte(opcode_code(Opcode::Pop)) == Some(Opcode::Pop));
    let v2 = step_spec(v1);
    assert(spec_read_mem(v1.prog, v1.stack, pc + 3, 1) == Ok::<u64, TrapKind>(
        v.prog[pc - 253] as u64,
    ));
    assert(reg_read(regs2, 15) == newsp);
    assert(stack_top(v1.prog) <= newsp && newsp + 8 <= stack_bottom(v1.prog, v1.stack));
    assert(spec_read_mem(v1.prog, v1.stack, newsp as int, 8) == Ok::<u64, TrapKind>(val));
    lemma_wrap64_id(newsp as int + 8);
    lemma_wrap64_id(pc + 2 + 2);
    assert(v2.pc as int == pc + 4);
    assert(reg_read(v2.regs, rd as int) == val);
    assert(reg_read(v2.regs, 15) == sp);
}

/// Call/return symmetry: a `Call` jumps to its target after saving the
/// address of the following instruction, and the matching `Ret` — from any
/// later state that has preserved the stack pointer and the saved return
/// slot — brings `pc` back to the instruction after the `Call` and
/// restores the stack pointer.
pub proof fn lemma_call_ret(v: VmView, u: VmView)
    requires
        view_wf(v),
        !v.done,
        v.pending is None,
        in_program(v.prog, v.pc as int, 5),
        v.prog[v.pc as int - 256] == opcode_code(Opcode::Call),
        stack_top(v.prog) + 8 <= reg_read(v.regs, 15),
        reg_read(v.regs, 15) <= stack_bottom(v.prog, v.stack),
        u.prog == v.prog,
        u.stack.len() == v.stack.len(),
        u.regs.len() == 16,
        u.trap is None,
        reg_read(u.regs, 15) == reg_read(v.regs, 15) - 8,
        spec_read_mem(u.prog, u.stack, reg_read(v.regs, 15) - 8, 8) == spec_read_mem(
            v.prog,
            step_spec(v).stack,
            reg_read(v.regs, 15) - 8,
            8,
        ),
    ensures
        step_spec(v).trap is None,
        step_spec(v).pc == spec_read_mem(v.prog, v.stack, v.pc as int + 1, 4)->Ok_0,
        reg_read(step_spec(v).regs, 15) == reg_read(v.regs, 15) - 8,
        ({
            let u2 = ret_spec(u);
            &&& u2.trap is None
            &&& u2.pc as int == v.pc as int + 5
            &&& reg_read(u2.regs, 15) == reg_read(v.regs, 15)
        }),
{
    let pc = v.pc as int;
    let sp = reg_read(v.regs, 15);
    lemma_le_value_at_one(v.prog, pc - 256);
    lemma_pow256_values();
    assert(spec_read_mem(v.prog, v.stack, pc, 1) == Ok::<u64, TrapKind>(
        v.prog[pc - 256] as u64,
    ));
    assert(spec_opcode_from_byte(opcode_code(Opcode::Call)) == Some(Opcode::Call));
    assert(in_program(v.prog, pc + 1, 4));
    let ra = wrap64(pc + 5);
    lemma_wrap64_id(pc + 5);
    assert(in_stack(v.prog, v.stack, sp - 8, 8));
    crate::mem::lemma_mem_write_read(v.prog, v.stack, sp - 8, 8, ra);
    lemma_small_mod(ra as nat, pow256(8));
    let v1 = step_spec(v);
    assert(v1.trap is None);
    assert(reg_read(v1.regs, 15) == sp - 8);
    assert(spec_read_mem(v.prog, v1.stack, sp - 8, 8) == Ok::<u64, TrapKind>(ra));
    let spu = reg_read(u.regs, 15);
    assert(spu == sp - 8);
    assert(stack_bottom(u.prog, u.stack) == stack_bottom(v.prog, v.stack));
    assert(stack_top(u.prog) <= spu && spu + 8 <= stack_bottom(u.prog, u.stack));
    let u2 = ret_spec(u);
    assert(spec_read_mem(u.prog, u.stack, spu as int, 8) == Ok::<u64, TrapKind>(ra));
    assert(u2.pc == ra);
    assert(reg_read(u2.regs, 15) == (spu + 8) as u64);
}

/// The pending-request operation for a typed opcode, executable.
fn float_op_exec(op: Opcode) -> (r: FloatOp)
    ensures
        r == float_op_of(op),
{
    match op {
        Opcode::Add => FloatOp::Add,
        Opcode::Sub => FloatOp::Sub,
        Opcode::Mul => FloatOp::Mul,
        Opcode::Div => FloatOp::Div,
        Opcode::Rem => FloatOp::Rem,
        Opcode::Clt => FloatOp::Clt,
        Opcode::Cge => FloatOp::Cge,
        Opcode::Ceq => FloatOp::Ceq,
        _ => FloatOp::Cne,
    }
}

/// `run_spec(v, n)`: up to `n` dispatch steps, stopping early when the
/// machine terminates or asks for a floating-point result.
pub open spec fn run_spec(v: VmView, n: nat) -> VmView
    decreases n,
{
    if n == 0 || v.done || v.pending is Some {
        v
    } else {
        run_spec(step_spec(v), (n - 1) as nat)
    }
}

proof fn lemma_wrap64_id(x: int)
    requires
        0 <= x < 0x1_0000_0000_0000_0000,
    ensures
        wrap64(x) == x,
{
    lemma_small_mod(x as nat, 0x1_0000_0000_0000_0000 as nat);
}

proof fn lemma_wrap64_high(x: int)
    requires
        0x1_0000_0000_0000_0000 <= x < 0x2_0000_0000_0000_0000,
    ensures
        wrap64(x) == x - 0x1_0000_0000_0000_0000,
{
    let m: int = 0x1_0000_0000_0000_0000;
    lemma_mod_sub_multiples_vanish(x, m);
    lemma_small_mod((x - m) as nat, m as nat);
}

proof fn lemma_wrap64_neg(x: int)
    requires
        -0x1_0000_0000_0000_0000 <= x < 0,
    ensures
        wrap64(x) == x + 0x1_0000_0000_0000_0000,
{
    let m: int = 0x1_0000_0000_0000_0000;
    lemma_mod_add_multiples_vanish(x, m);
    lemma_small_mod((x + m) as nat, m as nat);
}

proof fn lemma_wrap64_add(x: int, y: int)
    ensures
        wrap64(wrap64(x) as int + y) == wrap64(x + y),
{
    let m: int = 0x1_0000_0000_0000_0000;
    lemma_fundamental_div_mod(x, m);
    lemma_mod_multiples_vanish(x / m, x % m + y, m);
}

/// A fetchable `pc` leaves headroom for every operand offset and length
/// used by the dispatcher.
proof fn lemma_pc_headroom(v: VmView)
    requires
        view_wf(v),
        spec_read_mem(v.prog, v.stack, v.pc as int, 1) is Ok,
    ensures
        v.pc as int + 10 < 0x1_0000_0000_0000_0000,
{
}

/// The effective address of a load or store: the base register plus the
/// sign-extended 16-bit immediate, wrapping.
fn ea_signed(base: u64, imm: u64) -> (r: u64)
    requires
        imm < 0x10000,
    ensures
        r == wrap64(base + sext16(imm)),
{
    if imm < 0x8000 {
        proof {
            if base + imm < 0x1_0000_0000_0000_0000 {
                lemma_wrap64_id(base + imm);
            } else {
                lemma_wrap64_high(base + imm);
            }
        }
        base.wrapping_add(imm)
    } else {
        let d = 0x10000 - imm;
        proof {
            if base >= d {
                lemma_wrap64_id(base - d);
            } else {
                lemma_wrap64_neg(base - d);
            }
        }
        base.wrapping_sub(d)
    }
}

} // verus!
