//! A verified virtual machine for a small register bytecode, together with
//! the checked-AST construction used by the surrounding toolchain.

use vstd::prelude::*;

pub mod ast;
pub mod bc;
pub mod ckast;
pub mod bytes_le;
pub mod mem;
pub mod regs;
pub mod vm;

verus! {

/// A double word: the machine's natural 64-bit unsigned word.
pub type DWord = u64;

/// Address where the special memory region ends.
pub const SPECIAL_END: DWord = 255;

/// Address where the program is loaded.
pub const PROGRAM_START: DWord = 256;

/// The size of the canary region, in bytes.
pub const CANARY_SIZE: DWord = 1024;

/// Default stack size, in bytes.
pub const BASE_STACK: DWord = 0x8000;

/// The width of a machine word, in bits.
pub const XLEN: DWord = 64;

} // verus!
