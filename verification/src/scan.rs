//! Scanning one function body's instruction stream: tally the total and
//! the classified instruction counts and build the per-opcode histogram.

use crate::classify::{classify_simd_op, spec_is_simd_op};
use crate::hist::Histogram;
use crate::leb::{insn_at, spec_insn_at};
use crate::wasm::{WasmError, ops_advance, ops_eof, ops_position, ops_reader};
use vstd::prelude::*;

verus! {

/// How many instructions of the sequence the classifier counts as vector
/// operations. An instruction is given as its opcode encoding: the first
/// opcode byte and the sub-opcode behind the vector prefix.
pub open spec fn spec_simd_count(ops: Seq<(u8, u32)>) -> int
    decreases ops.len(),
{
    if ops.len() == 0 {
        0
    } else {
        spec_simd_count(ops.drop_last()) + if spec_is_simd_op(
            ops.last().0,
            ops.last().1,
        ) {
            1int
        } else {
            0int
        }
    }
}

/// How many instructions of the sequence are vector operations with the
/// given sub-opcode.
pub open spec fn spec_code_count(ops: Seq<(u8, u32)>, key: u32) -> int
    decreases ops.len(),
{
    if ops.len() == 0 {
        0
    } else {
        spec_code_count(ops.drop_last(), key) + if spec_is_simd_op(ops.last().0, ops.last().1)
            && ops.last().1 == key {
            1int
        } else {
            0int
        }
    }
}

proof fn lemma_simd_count_le(ops: Seq<(u8, u32)>)
    ensures
        0 <= spec_simd_count(ops) <= ops.len(),
    decreases ops.len(),
{
    if ops.len() > 0 {
        lemma_simd_count_le(ops.drop_last());
    }
}

proof fn lemma_code_count_le(ops: Seq<(u8, u32)>, key: u32)
    ensures
        0 <= spec_code_count(ops, key) <= ops.len(),
    decreases ops.len(),
{
    if ops.len() > 0 {
        lemma_code_count_le(ops.drop_last(), key);
    }
}

proof fn lemma_scan_take_step(ops: Seq<(u8, u32)>, i: int, key: u32)
    requires
        0 <= i < ops.len(),
    ensures
        spec_simd_count(ops.take(i + 1)) == spec_simd_count(ops.take(i)) + if spec_is_simd_op(
            ops[i].0,
            ops[i].1,
        ) {
            1int
        } else {
            0int
        },
        spec_code_count(ops.take(i + 1), key) == spec_code_count(ops.take(i), key)
            + if spec_is_simd_op(ops[i].0, ops[i].1) && ops[i].1 == key {
            1int
        } else {
            0int
        },
{
    assert(ops.take(i + 1).last() == ops[i]);
    assert(ops.take(i + 1).drop_last() =~= ops.take(i));
}

/// Every instruction of the run is the decoding of some position of the
/// module's bytes.
pub open spec fn ops_from_bytes(ops: Seq<(u8, u32)>, bytes: Seq<u8>) -> bool {
    forall|i: int|
        #![trigger ops[i]]
        0 <= i < ops.len() ==> exists|p: int| ops[i] == #[trigger] spec_insn_at(bytes, p)
}

/// Walk one function body behind the decoder and collect the opcode
/// encoding of each of its instructions: the decoder finds where every
/// instruction starts, and the opcode is decoded from the module's bytes
/// at that position.
pub fn collect_op_codes(bytes: &[u8], body: &wasmparser::FunctionBody<'_>) -> (r: Result<
    Vec<(u8, u32)>,
    WasmError,
>)
    ensures
        r matches Ok(ops) ==> ops_from_bytes(ops@, bytes@),
{
    let mut reader = match ops_reader(body) {
        Ok(r) => r,
        Err(e) => {
            return Err(e);
        },
    };
    let mut out: Vec<(u8, u32)> = Vec::new();
    // every instruction occupies at least one byte of the module
    let mut rounds = bytes.len();
    loop
        invariant
            ops_from_bytes(out@, bytes@),
        decreases rounds,
    {
        if ops_eof(&reader) {
            break ;
        }
        let pos = ops_position(&reader);
        match ops_advance(&mut reader) {
            Ok(()) => {},
            Err(e) => {
                return Err(e);
            },
        }
        let insn = insn_at(bytes, pos);
        let ghost prev = out@;
        out.push(insn);
        proof {
            assert forall|i: int| #![trigger out@[i]] 0 <= i < out@.len() implies exists|p: int|
                out@[i] == #[trigger] spec_insn_at(bytes@, p) by {
                if i < prev.len() {
                    assert(out@[i] == prev[i]);
                } else {
                    assert(out@[i] == spec_insn_at(bytes@, pos as int));
                }
            }
        }
        if rounds == 0 {
            break ;
        }
        rounds = rounds - 1;
    }
    Ok(out)
}

/// Walk one function body's decoded instruction stream and tally it.
/// Returns the total number of instructions, the number the classifier
/// counts as vector operations, and the per-sub-opcode histogram of the
/// latter.
pub fn analyze_function(ops: &Vec<(u8, u32)>) -> (r: (u64, u64, Histogram))
    ensures
        r.0 == ops@.len(),
        r.1 == spec_simd_count(ops@),
        r.1 <= r.0,
        r.2.wf(),
        r.2.spec_total() == r.1,
        forall|k: u32| r.2.spec_count(k) == spec_code_count(ops@, k),
{
    let n = ops.len();
    let mut total: u64 = 0;
    let mut simd: u64 = 0;
    let mut breakdown = Histogram::new();
    let mut i: usize = 0;
    proof {
        assert(ops@.take(0) =~= Seq::<(u8, u32)>::empty());
    }
    while i < n
        invariant
            i <= n,
            n == ops@.len(),
            total == i,
            simd == spec_simd_count(ops@.take(i as int)),
            breakdown.wf(),
            breakdown.spec_total() == simd,
            forall|k: u32| breakdown.spec_count(k) == spec_code_count(ops@.take(i as int), k),
        decreases n - i,
    {
        let op = ops[i];
        proof {
            lemma_simd_count_le(ops@.take(i as int));
            assert forall|k: u32| #![auto] true implies spec_code_count(
                ops@.take(i + 1),
                k,
            ) == spec_code_count(ops@.take(i as int), k) + if spec_is_simd_op(op.0, op.1)
                && op.1 == k {
                1int
            } else {
                0int
            } by {
                lemma_scan_take_step(ops@, i as int, k);
            }
            lemma_scan_take_step(ops@, i as int, op.1);
        }
        total = total + 1;
        match classify_simd_op(op.0, op.1) {
            Some(_name) => {
                simd = simd + 1;
                proof {
                    lemma_code_count_le(ops@.take(i as int), op.1);
                }
                breakdown.bump(op.1);
            },
            None => {},
        }
        i = i + 1;
    }
    proof {
        assert(ops@.take(n as int) =~= ops@);
        lemma_simd_count_le(ops@);
    }
    (total, simd, breakdown)
}

} // verus!
