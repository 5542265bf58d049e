//! Little-endian byte encoding of machine words.
//!
//! Every multi-byte memory access of the machine is little-endian.  This
//! module gives the mathematical model of that encoding: `nat_byte` is the
//! i-th little-endian byte of a value, `le_value_at` is the value of a run of
//! bytes, and the lemmas connect the two directions.

use vstd::prelude::*;
use vstd::arithmetic::div_mod::{lemma_breakdown, lemma_div_denominator};

verus! {

/// 256 raised to the power `n`.
pub open spec fn pow256(n: nat) -> nat
    decreases n,
{
    if n == 0 {
        1
    } else {
        256 * pow256((n - 1) as nat)
    }
}

pub proof fn lemma_pow256_pos(n: nat)
    ensures
        pow256(n) >= 1,
    decreases n,
{
    if n > 0 {
        lemma_pow256_pos((n - 1) as nat);
    }
}

/// The powers of 256 used for the machine's access widths.
pub proof fn lemma_pow256_values()
    ensures
        pow256(0) == 1,
        pow256(1) == 0x100,
        pow256(2) == 0x10000,
        pow256(4) == 0x1_0000_0000,
        pow256(7) == 0x100_0000_0000_0000,
        pow256(8) == 0x1_0000_0000_0000_0000,
{
    reveal_with_fuel(pow256, 9);
}

pub proof fn lemma_pow256_mono(a: nat, b: nat)
    requires
        a <= b,
    ensures
        pow256(a) <= pow256(b),
    decreases b,
{
    if a < b {
        lemma_pow256_mono(a, (b - 1) as nat);
        lemma_pow256_pos((b - 1) as nat);
        assert(pow256(b) == 256 * pow256((b - 1) as nat));
    }
}

/// The `i`-th little-endian byte of the value `v`.
pub open spec fn nat_byte(v: nat, i: nat) -> u8 {
    ((v / pow256(i)) % 256) as u8
}

/// The value of the `n` bytes `data[off], ..., data[off + n - 1]`, read
/// little-endian: `data[off]` is the least significant byte.
pub open spec fn le_value_at(data: Seq<u8>, off: int, n: int) -> nat
    decreases n,
{
    if n <= 0 {
        0
    } else {
        (data[off] + 256 * le_value_at(data, off + 1, n - 1)) as nat
    }
}

/// A run of `n` bytes always decodes to a value below `256^n`.
pub proof fn lemma_le_value_at_bound(data: Seq<u8>, off: int, n: int)
    requires
        n >= 0,
    ensures
        le_value_at(data, off, n) < pow256(n as nat),
    decreases n,
{
    if n == 0 {
    } else {
        lemma_le_value_at_bound(data, off + 1, n - 1);
        let tail = le_value_at(data, off + 1, n - 1);
        let p = pow256((n - 1) as nat);
        assert(256 * tail <= 256 * (p - 1)) by (nonlinear_arith)
            requires
                tail <= p - 1,
        ;
        assert(pow256(n as nat) == 256 * p);
    }
}

/// Decoding the little-endian bytes of `v` gives back `v` modulo `256^n`.
pub proof fn lemma_le_split(v: nat, data: Seq<u8>, off: int, n: int)
    requires
        n >= 0,
        forall|i: int| 0 <= i < n ==> #[trigger] data[off + i] == nat_byte(v, i as nat),
    ensures
        le_value_at(data, off, n) == v % pow256(n as nat),
    decreases n,
{
    if n == 0 {
        assert(pow256(0) == 1);
        assert(v % 1 == 0) by (nonlinear_arith);
    } else {
        let v1 = v / 256;
        assert forall|i: int| 0 <= i < n - 1 implies #[trigger] data[off + 1 + i] == nat_byte(
            v1,
            i as nat,
        ) by {
            lemma_pow256_pos(i as nat);
            lemma_div_denominator(v as int, 256, pow256(i as nat) as int);
            assert(pow256((i + 1) as nat) == 256 * pow256(i as nat));
            assert(data[off + (i + 1)] == nat_byte(v, (i + 1) as nat));
        }
        lemma_le_split(v1, data, off + 1, n - 1);
        let p = pow256((n - 1) as nat);
        lemma_pow256_pos((n - 1) as nat);
        lemma_breakdown(v as int, 256, p as int);
        assert(pow256(n as nat) == 256 * p);
        assert(v / pow256(0) == v) by (nonlinear_arith);
        assert(data[off + 0] == nat_byte(v, 0));
        assert(le_value_at(data, off, n) == data[off] + 256 * le_value_at(data, off + 1, n - 1));
    }
}

/// A one-byte run decodes to its single byte.
pub proof fn lemma_le_value_at_one(data: Seq<u8>, off: int)
    ensures
        le_value_at(data, off, 1) == data[off],
{
    reveal_with_fuel(le_value_at, 2);
}

/// Reads the `n`-byte little-endian value at `data[off]`.
pub fn le_read(data: &Vec<u8>, off: usize, n: usize) -> (r: u64)
    requires
        1 <= n <= 8,
        off + n <= data.len(),
    ensures
        r as nat == le_value_at(data@, off as int, n as int),
{
    let mut acc: u64 = 0;
    let mut j: usize = 0;
    proof {
        lemma_pow256_values();
    }
    while j < n
        invariant
            j <= n,
            n <= 8,
            off + n <= data.len(),
            acc as nat == le_value_at(data@, off + n - j, j as int),
            (acc as nat) < pow256(j as nat),
        decreases n - j,
    {
        proof {
            lemma_pow256_values();
            lemma_pow256_mono(j as nat, 7);
            let k = off + n - 1 - j;
            assert(le_value_at(data@, k as int, j + 1) == data@[k as int] + 256 * le_value_at(
                data@,
                k + 1,
                j as int,
            ));
            assert(256 * (acc as nat) + 256 <= 256 * pow256(j as nat)) by (nonlinear_arith)
                requires
                    (acc as nat) < pow256(j as nat),
            ;
            assert(pow256((j + 1) as nat) == 256 * pow256(j as nat));
        }
        let b = data[off + n - 1 - j];
        acc = acc * 256 + (b as u64);
        j = j + 1;
    }
    acc
}

/// Writes the low `n` bytes of `v` at `data[off]`, little-endian; all other
/// bytes of `data` keep their value.
pub fn le_write(data: &mut Vec<u8>, off: usize, n: usize, v: u64)
    requires
        1 <= n <= 8,
        off + n <= old(data).len(),
    ensures
        final(data).len() == old(data).len(),
        forall|m: int|
            0 <= m < old(data)@.len() ==> final(data)@[m] == (if off <= m < off + n {
                nat_byte(v as nat, (m - off) as nat)
            } else {
                old(data)@[m]
            }),
{
    let mut t: u64 = v;
    let mut i: usize = 0;
    proof {
        assert((v as nat) / pow256(0) == v as nat) by (nonlinear_arith);
    }
    while i < n
        invariant
            i <= n,
            n <= 8,
            off + n <= old(data).len(),
            data.len() == old(data).len(),
            t as nat == (v as nat) / pow256(i as nat),
            forall|m: int|
                0 <= m < old(data)@.len() ==> data@[m] == (if off <= m < off + i {
                    nat_byte(v as nat, (m - off) as nat)
                } else {
                    old(data)@[m]
                }),
        decreases n - i,
    {
        proof {
            lemma_pow256_pos(i as nat);
            lemma_div_denominator(v as int, pow256(i as nat) as int, 256);
            assert(pow256((i + 1) as nat) == 256 * pow256(i as nat));
            assert(pow256(i as nat) * 256 == 256 * pow256(i as nat));
        }
        data[off + i] = (t % 256) as u8;
        t = t / 256;
        i = i + 1;
    }
}

} // verus!
