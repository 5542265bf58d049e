//! The bytecode vocabulary: opcodes, the arithmetic funct selector, and the
//! program image container.
//!
//! Opcodes form a dense enumeration with a stable one-to-one mapping to 8-bit
//! values; `opcode_from_byte` is the total decoder (unknown byte gives
//! `None`, which the machine turns into a trap).

use vstd::prelude::*;

verus! {

/// Every instruction of the machine, named.
#[derive(Clone, Copy, Debug, PartialEq, Eq, Structural)]
pub enum Opcode {
    Add,
    Sub,
    Mul,
    Div,
    Rem,
    Clt,
    Cge,
    Ceq,
    Cne,
    And,
    Or,
    Xor,
    Call,
    Ret,
    Jze,
    Beq,
    Bne,
    Blt,
    Bge,
    LdB,
    LdH,
    LdW,
    LdD,
    StB,
    StH,
    StW,
    StD,
    LiB,
    LiH,
    LiW,
    LiD,
    Mov,
    Push,
    Pop,
}

/// The 8-bit encoding of each opcode: its position in the dense enumeration.
pub open spec fn opcode_code(op: Opcode) -> u8 {
    match op {
        Opcode::Add => 0,
        Opcode::Sub => 1,
        Opcode::Mul => 2,
        Opcode::Div => 3,
        Opcode::Rem => 4,
        Opcode::Clt => 5,
        Opcode::Cge => 6,
        Opcode::Ceq => 7,
        Opcode::Cne => 8,
        Opcode::And => 9,
        Opcode::Or => 10,
        Opcode::Xor => 11,
        Opcode::Call => 12,
        Opcode::Ret => 13,
        Opcode::Jze => 14,
        Opcode::Beq => 15,
        Opcode::Bne => 16,
        Opcode::Blt => 17,
        Opcode::Bge => 18,
        Opcode::LdB => 19,
        Opcode::LdH => 20,
        Opcode::LdW => 21,
        Opcode::LdD => 22,
        Opcode::StB => 23,
        Opcode::StH => 24,
        Opcode::StW => 25,
        Opcode::StD => 26,
        Opcode::LiB => 27,
        Opcode::LiH => 28,
        Opcode::LiW => 29,
        Opcode::LiD => 30,
        Opcode::Mov => 31,
        Opcode::Push => 32,
        Opcode::Pop => 33,
    }
}

/// What a raw byte decodes to: the opcode whose code it is, or nothing.
pub open spec fn spec_opcode_from_byte(b: u8) -> Option<Opcode> {
    if b == 0 {
        Some(Opcode::Add)
    } else if b == 1 {
        Some(Opcode::Sub)
    } else if b == 2 {
        Some(Opcode::Mul)
    } else if b == 3 {
        Some(Opcode::Div)
    } else if b == 4 {
        Some(Opcode::Rem)
    } else if b == 5 {
        Some(Opcode::Clt)
    } else if b == 6 {
        Some(Opcode::Cge)
    } else if b == 7 {
        Some(Opcode::Ceq)
    } else if b == 8 {
        Some(Opcode::Cne)
    } else if b == 9 {
        Some(Opcode::And)
    } else if b == 10 {
        Some(Opcode::Or)
    } else if b == 11 {
        Some(Opcode::Xor)
    } else if b == 12 {
        Some(Opcode::Call)
    } else if b == 13 {
        Some(Opcode::Ret)
    } else if b == 14 {
        Some(Opcode::Jze)
    } else if b == 15 {
        Some(Opcode::Beq)
    } else if b == 16 {
        Some(Opcode::Bne)
    } else if b == 17 {
        Some(Opcode::Blt)
    } else if b == 18 {
        Some(Opcode::Bge)
    } else if b == 19 {
        Some(Opcode::LdB)
    } else if b == 20 {
        Some(Opcode::LdH)
    } else if b == 21 {
        Some(Opcode::LdW)
    } else if b == 22 {
        Some(Opcode::LdD)
    } else if b == 23 {
        Some(Opcode::StB)
    } else if b == 24 {
        Some(Opcode::StH)
    } else if b == 25 {
        Some(Opcode::StW)
    } else if b == 26 {
        Some(Opcode::StD)
    } else if b == 27 {
        Some(Opcode::LiB)
    } else if b == 28 {
        Some(Opcode::LiH)
    } else if b == 29 {
        Some(Opcode::LiW)
    } else if b == 30 {
        Some(Opcode::LiD)
    } else if b == 31 {
        Some(Opcode::Mov)
    } else if b == 32 {
        Some(Opcode::Push)
    } else if b == 33 {
        Some(Opcode::Pop)
    } else {
        None
    }
}

/// Total decoder from a raw byte to an opcode.
pub fn opcode_from_byte(b: u8) -> (r: Option<Opcode>)
    ensures
        r == spec_opcode_from_byte(b),
{
    if b < 34 {
        Some(
            match b {
                0 => Opcode::Add,
                1 => Opcode::Sub,
                2 => Opcode::Mul,
                3 => Opcode::Div,
                4 => Opcode::Rem,
                5 => Opcode::Clt,
                6 => Opcode::Cge,
                7 => Opcode::Ceq,
                8 => Opcode::Cne,
                9 => Opcode::And,
                10 => Opcode::Or,
                11 => Opcode::Xor,
                12 => Opcode::Call,
                13 => Opcode::Ret,
                14 => Opcode::Jze,
                15 => Opcode::Beq,
                16 => Opcode::Bne,
                17 => Opcode::Blt,
                18 => Opcode::Bge,
                19 => Opcode::LdB,
                20 => Opcode::LdH,
                21 => Opcode::LdW,
                22 => Opcode::LdD,
                23 => Opcode::StB,
                24 => Opcode::StH,
                25 => Opcode::StW,
                26 => Opcode::StD,
                27 => Opcode::LiB,
                28 => Opcode::LiH,
                29 => Opcode::LiW,
                30 => Opcode::LiD,
                31 => Opcode::Mov,
                32 => Opcode::Push,
                _ => Opcode::Pop,
            },
        )
    } else {
        None
    }
}

/// Encoder used when assembling programs; inverse of `opcode_from_byte`.
pub fn opcode_byte(op: Opcode) -> (r: u8)
    ensures
        r == opcode_code(op),
        spec_opcode_from_byte(r) == Some(op),
{
    match op {
        Opcode::Add => 0,
        Opcode::Sub => 1,
        Opcode::Mul => 2,
        Opcode::Div => 3,
        Opcode::Rem => 4,
        Opcode::Clt => 5,
        Opcode::Cge => 6,
        Opcode::Ceq => 7,
        Opcode::Cne => 8,
        Opcode::And => 9,
        Opcode::Or => 10,
        Opcode::Xor => 11,
        Opcode::Call => 12,
        Opcode::Ret => 13,
        Opcode::Jze => 14,
        Opcode::Beq => 15,
        Opcode::Bne => 16,
        Opcode::Blt => 17,
        Opcode::Bge => 18,
        Opcode::LdB => 19,
        Opcode::LdH => 20,
        Opcode::LdW => 21,
        Opcode::LdD => 22,
        Opcode::StB => 23,
        Opcode::StH => 24,
        Opcode::StW => 25,
        Opcode::StD => 26,
        Opcode::LiB => 27,
        Opcode::LiH => 28,
        Opcode::LiW => 29,
        Opcode::LiD => 30,
        Opcode::Mov => 31,
        Opcode::Push => 32,
        Opcode::Pop => 33,
    }
}

/// The byte length of each instruction's encoding.
pub open spec fn instr_len(op: Opcode) -> int {
    match op {
        Opcode::Add => 3,
        Opcode::Sub => 3,
        Opcode::Mul => 3,
        Opcode::Div => 3,
        Opcode::Rem => 3,
        Opcode::Clt => 3,
        Opcode::Cge => 3,
        Opcode::Ceq => 3,
        Opcode::Cne => 3,
        Opcode::And => 3,
        Opcode::Or => 3,
        Opcode::Xor => 3,
        Opcode::Call => 5,
        Opcode::Ret => 1,
        Opcode::Jze => 4,
        Opcode::Beq => 4,
        Opcode::Bne => 4,
        Opcode::Blt => 4,
        Opcode::Bge => 4,
        Opcode::LdB => 4,
        Opcode::LdH => 4,
        Opcode::LdW => 4,
        Opcode::LdD => 4,
        Opcode::StB => 4,
        Opcode::StH => 4,
        Opcode::StW => 4,
        Opcode::StD => 4,
        Opcode::LiB => 3,
        Opcode::LiH => 4,
        Opcode::LiW => 6,
        Opcode::LiD => 10,
        Opcode::Mov => 2,
        Opcode::Push => 2,
        Opcode::Pop => 2,
    }
}

/// Control-flow instructions: the ones whose `pc` after execution is not
/// simply the instruction's end.
pub open spec fn is_control_flow(op: Opcode) -> bool {
    match op {
        Opcode::Call => true,
        Opcode::Ret => true,
        Opcode::Jze => true,
        Opcode::Beq => true,
        Opcode::Bne => true,
        Opcode::Blt => true,
        Opcode::Bge => true,
        _ => false,
    }
}

/// The 4-bit sub-opcode selecting integer or floating-point interpretation
/// for the arithmetic and comparison families.
#[derive(Clone, Copy, Debug, PartialEq, Eq, Structural)]
pub enum AFunct {
    X,
    F16,
    F32,
    F64,
}

/// What a 4-bit funct field decodes to.
pub open spec fn spec_afunct_from_bits(b: u8) -> Option<AFunct> {
    if b == 0 {
        Some(AFunct::X)
    } else if b == 1 {
        Some(AFunct::F16)
    } else if b == 2 {
        Some(AFunct::F32)
    } else if b == 3 {
        Some(AFunct::F64)
    } else {
        None
    }
}

/// Total decoder from a 4-bit funct value (unknown value gives `None`).
pub fn afunct_from_bits(b: u8) -> (r: Option<AFunct>)
    ensures
        r == spec_afunct_from_bits(b),
{
    match b {
        0 => Some(AFunct::X),
        1 => Some(AFunct::F16),
        2 => Some(AFunct::F32),
        3 => Some(AFunct::F64),
        _ => None,
    }
}

/// The program image: code bytes loaded verbatim at the program start
/// address.  No header, no relocations; the machine treats it as immutable.
#[derive(Clone, Debug)]
pub struct BcBlob {
    pub code: Vec<u8>,
}

} // verus!
