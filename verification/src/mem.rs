//! The machine's flat address space and its regions.
//!
//! The space is partitioned, from the program length `P` and the stack size
//! `S`, into: a special region `[0, 255]` (no access), the read-only program
//! `[256, 256 + P)`, a one-byte unmapped gap at `256 + P`, the read/write
//! stack `[stack_top, stack_bottom)` with `stack_top = 256 + P + 1`, the
//! unmapped canary after the stack, and a reserved heap.  An access must lie
//! entirely within one region; everything else traps.

use vstd::prelude::*;
use crate::bytes_le::{le_value_at, lemma_le_split, lemma_le_value_at_bound, lemma_pow256_mono,
    lemma_pow256_values, nat_byte, pow256};

verus! {

/// Why execution stopped: every trap is fatal in this revision.
#[derive(Clone, Copy, Debug, PartialEq, Eq, Structural)]
pub enum TrapKind {
    /// The byte at `pc` does not decode to a known opcode.
    InvalidOpcode,
    /// The funct field is not a valid `AFunct`.
    InvalidFunct,
    /// `And`/`Or`/`Xor` with a floating-point funct.
    BitwiseOnFloat,
    /// `Div`/`Rem` with an integer zero divisor.
    DivByZero,
    /// Access into the special region, the canary, an unmapped gap, or a
    /// range straddling regions.
    AccessViolation,
    /// Write into the program region.
    WriteToReadOnly,
    /// The stack pointer would move above the top of the stack.
    StackOverflow,
    /// The stack pointer would move below the bottom of the stack.
    StackUnderflow,
}

/// A recorded trap: its kind and the address of the instruction that
/// raised it.
#[derive(Clone, Copy, Debug, PartialEq, Eq, Structural)]
pub struct Trap {
    pub kind: TrapKind,
    pub pc: u64,
}

/// A memory access width in bytes; also the natural width of values moved.
#[derive(Clone, Copy, Debug, PartialEq, Eq, Structural)]
pub enum Size {
    Byte,
    Half,
    Word,
    Double,
}

impl Size {
    /// The width in bytes: 1, 2, 4 or 8.
    pub open spec fn spec_bytes(self) -> int {
        match self {
            Size::Byte => 1,
            Size::Half => 2,
            Size::Word => 4,
            Size::Double => 8,
        }
    }

    /// The width in bytes, executable.
    #[verifier::when_used_as_spec(spec_bytes_usize)]
    pub fn bytes(self) -> (r: usize)
        ensures
            r == self.spec_bytes(),
    {
        match self {
            Size::Byte => 1,
            Size::Half => 2,
            Size::Word => 4,
            Size::Double => 8,
        }
    }

    /// The width in bytes as a `usize`, for spec positions.
    pub open spec fn spec_bytes_usize(self) -> usize {
        self.spec_bytes() as usize
    }
}

/// One past the last program byte: `256 + P`.
pub open spec fn prog_end(prog: Seq<u8>) -> int {
    256 + prog.len() as int
}

/// The lowest stack address: one past the unmapped gap byte at `256 + P`.
pub open spec fn stack_top(prog: Seq<u8>) -> int {
    256 + prog.len() as int + 1
}

/// One past the highest stack address; the stack pointer's initial value.
pub open spec fn stack_bottom(prog: Seq<u8>, stack: Seq<u8>) -> int {
    stack_top(prog) + stack.len()
}

/// The access `[addr, addr + n)` lies entirely within the program region.
pub open spec fn in_program(prog: Seq<u8>, addr: int, n: int) -> bool {
    256 <= addr && addr + n <= prog_end(prog)
}

/// The access `[addr, addr + n)` lies entirely within the stack region.
pub open spec fn in_stack(prog: Seq<u8>, stack: Seq<u8>, addr: int, n: int) -> bool {
    stack_top(prog) <= addr && addr + n <= stack_bottom(prog, stack)
}

/// What a memory read returns: the little-endian value of the `n` bytes at
/// `addr`, zero-extended, or an access violation when the range does not lie
/// entirely within one readable region.
pub open spec fn spec_read_mem(prog: Seq<u8>, stack: Seq<u8>, addr: int, n: int) -> Result<
    u64,
    TrapKind,
> {
    if in_program(prog, addr, n) {
        Ok(le_value_at(prog, addr - 256, n) as u64)
    } else if in_stack(prog, stack, addr, n) {
        Ok(le_value_at(stack, addr - stack_top(prog), n) as u64)
    } else {
        Err(TrapKind::AccessViolation)
    }
}

/// What a memory write leaves behind: the stack with the low `n` bytes of
/// `v` stored little-endian at `addr`, or a trap.  A write whose base lies in
/// the read-only program region is `WriteToReadOnly`; every other invalid
/// write is an access violation.
pub open spec fn spec_write_mem(prog: Seq<u8>, stack: Seq<u8>, addr: int, n: int, v: u64) -> Result<
    Seq<u8>,
    TrapKind,
> {
    if in_stack(prog, stack, addr, n) {
        let off = addr - stack_top(prog);
        Ok(
            Seq::new(
                stack.len(),
                |m: int|
                    if off <= m < off + n {
                        nat_byte(v as nat, (m - off) as nat)
                    } else {
                        stack[m]
                    },
            ),
        )
    } else if 256 <= addr < prog_end(prog) {
        Err(TrapKind::WriteToReadOnly)
    } else {
        Err(TrapKind::AccessViolation)
    }
}

/// Reading back a written range returns the written value, reduced modulo
/// the range's width: `read(write(a, n, v), a, n) == v % 256^n` on any valid
/// stack address.
pub proof fn lemma_mem_write_read(prog: Seq<u8>, stack: Seq<u8>, addr: int, n: int, v: u64)
    requires
        1 <= n <= 8,
        in_stack(prog, stack, addr, n),
    ensures
        spec_write_mem(prog, stack, addr, n, v) is Ok,
        spec_read_mem(prog, spec_write_mem(prog, stack, addr, n, v)->Ok_0, addr, n) == Ok::<
            u64,
            TrapKind,
        >(((v as nat) % pow256(n as nat)) as u64),
{
    let stack2 = spec_write_mem(prog, stack, addr, n, v)->Ok_0;
    let off = addr - stack_top(prog);
    assert(stack2.len() == stack.len());
    assert(forall|i: int| 0 <= i < n ==> #[trigger] stack2[off + i] == nat_byte(v as nat, i as nat));
    lemma_le_split(v as nat, stack2, off, n);
    assert(!in_program(prog, addr, n));
    assert(in_stack(prog, stack2, addr, n));
}

/// Trap totality: a read succeeds exactly on ranges lying entirely within
/// a readable region, and every other range is an access violation; a write
/// succeeds exactly on ranges lying entirely within the stack, a write
/// based in the program region is refused as read-only, and every other
/// write is an access violation.
pub proof fn lemma_trap_totality(prog: Seq<u8>, stack: Seq<u8>, addr: int, n: int, val: u64)
    ensures
        spec_read_mem(prog, stack, addr, n) is Ok <==> (in_program(prog, addr, n) || in_stack(
            prog,
            stack,
            addr,
            n,
        )),
        spec_read_mem(prog, stack, addr, n) is Err ==> spec_read_mem(prog, stack, addr, n)
            == Err::<u64, TrapKind>(TrapKind::AccessViolation),
        spec_write_mem(prog, stack, addr, n, val) is Ok <==> in_stack(prog, stack, addr, n),
        !in_stack(prog, stack, addr, n) && 256 <= addr && addr < prog_end(prog)
            ==> spec_write_mem(prog, stack, addr, n, val) == Err::<Seq<u8>, TrapKind>(
            TrapKind::WriteToReadOnly,
        ),
        !in_stack(prog, stack, addr, n) && !(256 <= addr && addr < prog_end(prog))
            ==> spec_write_mem(prog, stack, addr, n, val) == Err::<Seq<u8>, TrapKind>(
            TrapKind::AccessViolation,
        ),
{
}

/// The value any read returns fits the width read: it is below `256^n`.
pub proof fn lemma_read_mem_bound(prog: Seq<u8>, stack: Seq<u8>, addr: int, n: int)
    requires
        0 <= n <= 8,
        spec_read_mem(prog, stack, addr, n) is Ok,
    ensures
        (spec_read_mem(prog, stack, addr, n)->Ok_0 as nat) < pow256(n as nat),
        spec_read_mem(prog, stack, addr, n)->Ok_0 < 0x1_0000_0000_0000_0000,
    decreases n,
{
    lemma_pow256_values();
    lemma_pow256_mono(n as nat, 8);
    if in_program(prog, addr, n) {
        lemma_le_value_at_bound(prog, addr - 256, n);
    } else {
        lemma_le_value_at_bound(stack, addr - stack_top(prog), n);
    }
}

} // verus!
