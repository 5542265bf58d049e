//! The register file: sixteen double-word slots, with index 0 hard-wired to
//! zero.  Reads of register 0 return 0 and writes to it are discarded, so the
//! observable value of register 0 is always 0.

use vstd::prelude::*;

verus! {

/// What a register read returns: register 0 always reads as zero.
pub open spec fn reg_read(regs: Seq<u64>, i: int) -> u64 {
    if i == 0 {
        0
    } else {
        regs[i]
    }
}

/// What a register write leaves behind: a write to register 0 is a no-op.
pub open spec fn reg_write(regs: Seq<u64>, i: int, v: u64) -> Seq<u64> {
    if i == 0 {
        regs
    } else {
        regs.update(i, v)
    }
}

/// The sixteen general-purpose registers.
pub struct Registers([u64; 16]);

impl View for Registers {
    type V = Seq<u64>;

    closed spec fn view(&self) -> Seq<u64> {
        self.0@
    }
}

impl Registers {
    /// A fresh register file, all slots zero.
    pub fn new() -> (r: Registers)
        ensures
            r@.len() == 16,
            forall|i: int| 0 <= i < 16 ==> r@[i] == 0,
    {
        Registers([0u64; 16])
    }

    /// Reads register `i`; register 0 reads as zero.
    pub fn read(&self, i: u8) -> (r: u64)
        requires
            i < 16,
            self@.len() == 16,
        ensures
            r == reg_read(self@, i as int),
    {
        if i == 0 {
            0
        } else {
            self.0[i as usize]
        }
    }

    /// Writes register `i`; a write to register 0 is discarded.
    pub fn write(&mut self, i: u8, v: u64)
        requires
            i < 16,
            old(self)@.len() == 16,
        ensures
            final(self)@ == reg_write(old(self)@, i as int, v),
    {
        if i != 0 {
            self.0[i as usize] = v;
        }
    }
}

} // verus!
