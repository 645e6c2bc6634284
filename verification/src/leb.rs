//! Decoding an instruction's opcode from raw bytes: the first opcode byte
//! and, behind the vector prefix, the LEB128-encoded sub-opcode.

use crate::classify::SIMD_PREFIX;
use vstd::prelude::*;

verus! {

/// The unsigned LEB128 value that starts at `pos`, reading at most `fuel`
/// bytes; `None` where the encoding runs past the end of the bytes or
/// past the fuel.
pub open spec fn spec_leb(bytes: Seq<u8>, pos: int, fuel: nat) -> Option<int>
    decreases fuel,
{
    if fuel == 0 || pos < 0 || pos >= bytes.len() {
        None
    } else {
        let b = bytes[pos];
        if b < 128 {
            Some(b as int)
        } else {
            match spec_leb(bytes, pos + 1, (fuel - 1) as nat) {
                Some(rest) => Some((b - 128) + 128 * rest),
                None => None,
            }
        }
    }
}

/// Powers of 128, the radix of the LEB128 encoding.
pub open spec fn pow128(n: nat) -> int
    decreases n,
{
    if n == 0 {
        1
    } else {
        128 * pow128((n - 1) as nat)
    }
}

proof fn lemma_leb_bound(bytes: Seq<u8>, pos: int, fuel: nat)
    requires
        spec_leb(bytes, pos, fuel) is Some,
    ensures
        0 <= spec_leb(bytes, pos, fuel)->Some_0 < pow128(fuel),
    decreases fuel,
{
    let b = bytes[pos];
    if b < 128 {
        assert(pow128(fuel) == 128 * pow128((fuel - 1) as nat));
        assert(pow128((fuel - 1) as nat) >= 1) by {
            lemma_pow128_pos((fuel - 1) as nat);
        }
    } else {
        lemma_leb_bound(bytes, pos + 1, (fuel - 1) as nat);
        let rest = spec_leb(bytes, pos + 1, (fuel - 1) as nat)->Some_0;
        let sub = pow128((fuel - 1) as nat);
        assert((b - 128) + 128 * rest < 128 * sub) by (nonlinear_arith)
            requires
                b - 128 < 128,
                0 <= rest,
                rest < sub,
        ;
    }
}

proof fn lemma_pow128_pos(n: nat)
    ensures
        pow128(n) >= 1,
    decreases n,
{
    if n > 0 {
        lemma_pow128_pos((n - 1) as nat);
    }
}

proof fn lemma_pow128_mono(a: nat, b: nat)
    requires
        a <= b,
    ensures
        pow128(a) <= pow128(b),
    decreases b,
{
    if a < b {
        lemma_pow128_mono(a, (b - 1) as nat);
        lemma_pow128_pos((b - 1) as nat);
    }
}

proof fn lemma_pow128_5()
    ensures
        pow128(5) == 0x8_0000_0000,
{
    reveal_with_fuel(pow128, 6);
}

/// Read an unsigned LEB128 value of at most `fuel` bytes at `pos`.
fn leb_at(bytes: &[u8], pos: usize, fuel: u8) -> (r: Option<u64>)
    requires
        fuel <= 5,
    ensures
        match r {
            Some(v) => spec_leb(bytes@, pos as int, fuel as nat) == Some(v as int),
            None => spec_leb(bytes@, pos as int, fuel as nat) is None,
        },
    decreases fuel,
{
    if fuel == 0 || pos >= bytes.len() {
        return None;
    }
    let b = bytes[pos];
    if b < 128 {
        Some(b as u64)
    } else {
        if pos == usize::MAX {
            // the next position does not exist, so the encoding runs out
            assert(bytes@.len() <= usize::MAX);
            return None;
        }
        match leb_at(bytes, pos + 1, fuel - 1) {
            Some(rest) => {
                proof {
                    lemma_leb_bound(bytes@, pos + 1 as int, (fuel - 1) as nat);
                    lemma_pow128_mono((fuel - 1) as nat, 5);
                    lemma_pow128_5();
                }
                Some((b - 128) as u64 + 128 * rest)
            },
            None => None,
        }
    }
}

/// The opcode encoding of the instruction that starts at byte `pos` of the
/// module: its first opcode byte and, where that byte is the vector
/// prefix, the LEB128 sub-opcode that follows, taken to the 32 bits the
/// binary format gives sub-opcodes. An out-of-range position, or a
/// malformed sub-opcode, decodes to the null pair `(0, 0)`.
pub open spec fn spec_insn_at(bytes: Seq<u8>, pos: int) -> (u8, u32) {
    if pos < 0 || pos >= bytes.len() {
        (0, 0)
    } else if bytes[pos] != SIMD_PREFIX {
        (bytes[pos], 0)
    } else {
        match spec_leb(bytes, pos + 1, 5) {
            Some(v) => (SIMD_PREFIX, (v % 0x1_0000_0000) as u32),
            None => (0, 0),
        }
    }
}

/// Decode the opcode encoding of the instruction at byte `pos`.
pub fn insn_at(bytes: &[u8], pos: u64) -> (r: (u8, u32))
    ensures
        r == spec_insn_at(bytes@, pos as int),
{
    if pos >= bytes.len() as u64 {
        return (0, 0);
    }
    let p = pos as usize;
    let prefix = bytes[p];
    if prefix != SIMD_PREFIX {
        return (prefix, 0);
    }
    if p == usize::MAX {
        assert(spec_leb(bytes@, p + 1 as int, 5) is None);
        return (0, 0);
    }
    match leb_at(bytes, p + 1, 5) {
        Some(v) => (SIMD_PREFIX, (v % 0x1_0000_0000) as u32),
        None => (0, 0),
    }
}

} // verus!
