//! The report: per-function records, per-source-line records, and the
//! orderings and filters that shape the whole-binary aggregate.

use crate::hist::{Histogram, sat_add};
use vstd::prelude::*;
use vstd::seq_lib::{to_multiset_insert, to_multiset_remove, to_multiset_contains};

verus! {

/// One function's tally: its index, its name and source location where
/// known, its instruction counts, and its per-opcode histogram.
pub struct FunctionInfo {
    pub index: u32,
    pub name: Option<String>,
    pub file: Option<String>,
    pub line: Option<u32>,
    pub simd_ops_total: u64,
    pub total_ops: u64,
    pub op_breakdown: Histogram,
}

/// One source line's tally: the classified instructions of every function
/// the debug information places on it.
pub struct LineInfo {
    pub file: String,
    pub line: u32,
    pub simd_ops_total: u64,
    pub breakdown: Histogram,
}

/// The whole-binary report.
pub struct SimdReport {
    pub variant: String,
    pub wasm_path: String,
    pub wasm_hash: String,
    pub wasm_size: usize,
    pub total_simd_ops: u64,
    pub total_ops: u64,
    pub opcode_summary: Histogram,
    pub functions: Vec<FunctionInfo>,
    pub lines: Vec<LineInfo>,
}

/// `a`'s vector density — classified per total instructions — is at
/// least `b`'s, compared as cross products so that the ratio needs no
/// division.
pub open spec fn density_ge(a: FunctionInfo, b: FunctionInfo) -> bool {
    a.simd_ops_total * b.total_ops >= b.simd_ops_total * a.total_ops
}

/// Adjacent records stand in descending density order.
pub open spec fn densities_descending(s: Seq<FunctionInfo>) -> bool {
    forall|i: int| 0 <= i && i + 1 < s.len() ==> #[trigger] density_ge(s[i], s[i + 1])
}

/// Every record counts at least one vector instruction, and no more than
/// its instructions in total.
pub open spec fn all_simd_positive(s: Seq<FunctionInfo>) -> bool {
    forall|i: int|
        0 <= i < s.len() ==> 0 < (#[trigger] s[i]).simd_ops_total && s[i].simd_ops_total
            <= s[i].total_ops
}

/// Every record's counts are consistent: a well-formed histogram, and no
/// more classified instructions than instructions in total.
pub open spec fn functions_wf(s: Seq<FunctionInfo>) -> bool {
    forall|i: int|
        0 <= i < s.len() ==> (#[trigger] s[i]).op_breakdown.wf() && s[i].simd_ops_total
            <= s[i].total_ops
}

/// A rearrangement keeps every record's consistency and positivity: the
/// properties speak of the records, not of their places.
pub proof fn lemma_wf_preserved_by_permutation(a: Seq<FunctionInfo>, b: Seq<FunctionInfo>)
    requires
        a.to_multiset() == b.to_multiset(),
        functions_wf(a),
        all_simd_positive(a),
    ensures
        functions_wf(b),
        all_simd_positive(b),
{
    broadcast use to_multiset_contains;

    assert forall|i: int| 0 <= i < b.len() implies {
        &&& (#[trigger] b[i]).op_breakdown.wf()
        &&& 0 < b[i].simd_ops_total
        &&& b[i].simd_ops_total <= b[i].total_ops
    } by {
        assert(b.contains(b[i]));
        assert(a.to_multiset().count(b[i]) > 0);
        assert(a.contains(b[i]));
        let j = choose|j: int| 0 <= j < a.len() && a[j] == b[i];
        assert(a[j].op_breakdown.wf());
        assert(0 < a[j].simd_ops_total);
    }
}

/// Compare two records by density.
pub fn density_at_least(a: &FunctionInfo, b: &FunctionInfo) -> (r: bool)
    ensures
        r == density_ge(*a, *b),
{
    proof {
        lemma_mul_u64_fits(a.simd_ops_total as int, b.total_ops as int);
        lemma_mul_u64_fits(b.simd_ops_total as int, a.total_ops as int);
    }
    (a.simd_ops_total as u128) * (b.total_ops as u128) >= (b.simd_ops_total as u128) * (
    a.total_ops as u128)
}

proof fn lemma_mul_u64_fits(x: int, y: int)
    requires
        0 <= x <= u64::MAX,
        0 <= y <= u64::MAX,
    ensures
        0 <= x * y <= u128::MAX,
{
    assert(x * y <= u64::MAX * u64::MAX) by (nonlinear_arith)
        requires
            0 <= x <= u64::MAX,
            0 <= y <= u64::MAX,
    ;
    assert(x * y >= 0) by (nonlinear_arith)
        requires
            0 <= x,
            0 <= y,
    ;
}

/// The density order is transitive across a record that counted at least
/// one instruction: what stands above it stands above everything below
/// it.
pub proof fn lemma_density_ge_trans(a: FunctionInfo, b: FunctionInfo, c: FunctionInfo)
    requires
        density_ge(a, b),
        density_ge(b, c),
        b.total_ops > 0,
    ensures
        density_ge(a, c),
{
    let xs = a.simd_ops_total as int;
    let xt = a.total_ops as int;
    let ys = b.simd_ops_total as int;
    let yt = b.total_ops as int;
    let zs = c.simd_ops_total as int;
    let zt = c.total_ops as int;
    assert(xs * zt >= zs * xt) by (nonlinear_arith)
        requires
            xs * yt >= ys * xt,
            ys * zt >= zs * yt,
            yt > 0,
            xs >= 0,
            xt >= 0,
            ys >= 0,
            zs >= 0,
            zt >= 0,
    ;
}

/// In a well-formed, adjacently ordered run of records, every record's
/// density is at least that of every record after it.
pub proof fn lemma_descending_is_global(s: Seq<FunctionInfo>, i: int, j: int)
    requires
        densities_descending(s),
        all_simd_positive(s),
        0 <= i <= j < s.len(),
    ensures
        density_ge(s[i], s[j]),
    decreases j - i,
{
    if i == j {
        let x = s[i].simd_ops_total as int;
        let t = s[i].total_ops as int;
        assert(x * t >= x * t);
    } else {
        lemma_descending_is_global(s, i, j - 1);
        let k = j - 1;
        assert(density_ge(s[k], s[k + 1]));
        lemma_density_ge_trans(s[i], s[j - 1], s[j]);
    }
}

/// Swap a record with the one before it.
fn swap_adjacent(v: &mut Vec<FunctionInfo>, j: usize)
    requires
        1 <= j < old(v)@.len(),
    ensures
        final(v)@ == old(v)@.update(j - 1, old(v)@[j as int]).update(j as int, old(v)@[j - 1]),
        final(v)@.to_multiset() == old(v)@.to_multiset(),
{
    let x = v.remove(j);
    v.insert(j - 1, x);
    proof {
        broadcast use to_multiset_insert;
        broadcast use to_multiset_remove;
        broadcast use to_multiset_contains;

        let s = old(v)@;
        assert(v@ =~= s.update(j - 1, s[j as int]).update(j as int, s[j - 1]));
        assert(s.to_multiset().count(s[j as int]) > 0) by {
            assert(s.contains(s[j as int]));
        }
        assert(v@.to_multiset() =~= s.to_multiset());
    }
}

/// Order the records by density, highest first. The records keep their
/// multiplicity: the result is a rearrangement and nothing more.
pub fn sort_by_density(v: &mut Vec<FunctionInfo>)
    ensures
        final(v)@.len() == old(v)@.len(),
        final(v)@.to_multiset() == old(v)@.to_multiset(),
        densities_descending(final(v)@),
{
    let n = v.len();
    if n == 0 {
        return ;
    }
    let mut i: usize = 1;
    while i < n
        invariant
            1 <= i <= n,
            n == v@.len(),
            v@.to_multiset() == old(v)@.to_multiset(),
            forall|k: int| 0 <= k && k + 1 < i ==> #[trigger] density_ge(v@[k], v@[k + 1]),
        decreases n - i,
    {
        let mut j: usize = i;
        while j > 0 && !density_at_least(&v[j - 1], &v[j])
            invariant
                j <= i < n,
                n == v@.len(),
                v@.to_multiset() == old(v)@.to_multiset(),
                forall|k: int|
                    0 <= k && k + 1 <= i && k != j - 1 ==> #[trigger] density_ge(
                        v@[k],
                        v@[k + 1],
                    ),
                1 <= j && j < i ==> density_ge(v@[j - 1], v@[j + 1]),
            decreases j,
        {
            let ghost s = v@;
            swap_adjacent(v, j);
            proof {
                assert forall|k: int|
                    0 <= k && k + 1 <= i && k != j - 2 implies #[trigger] density_ge(
                    v@[k],
                    v@[k + 1],
                ) by {
                    if k == j - 1 {
                        // the swapped pair, now in order
                        assert(density_ge(s[j as int], s[j - 1]));
                    } else if k == j {
                        // the record that followed the moved one
                        if j < i {
                            assert(density_ge(s[j - 1], s[j + 1]));
                        }
                    } else {
                        assert(density_ge(s[k], s[k + 1]));
                    }
                }
                if j >= 2 && j - 1 < i {
                    // the bridge over the record still on its way down
                    let k = j - 2;
                    assert(density_ge(s[k], s[k + 1]));
                    assert(v@[j - 2] == s[j - 2]);
                    assert(v@[j as int] == s[j - 1]);
                }
            }
            j = j - 1;
        }
        proof {
            assert forall|k: int| 0 <= k && k + 1 < i + 1 implies #[trigger] density_ge(
                v@[k],
                v@[k + 1],
            ) by {
                if k != j - 1 {
                    assert(density_ge(v@[k], v@[k + 1]));
                }
            }
        }
        i = i + 1;
    }
}

/// The records that counted at least one vector instruction, in their
/// order.
pub open spec fn simd_only(s: Seq<FunctionInfo>) -> Seq<FunctionInfo> {
    s.filter(|f: FunctionInfo| f.simd_ops_total > 0)
}

proof fn lemma_simd_only_take_step(s: Seq<FunctionInfo>, i: int)
    requires
        0 <= i < s.len(),
    ensures
        (s[i].simd_ops_total > 0) ==> simd_only(s.take(i + 1)) == simd_only(s.take(i)).push(
            s[i],
        ),
        !(s[i].simd_ops_total > 0) ==> simd_only(s.take(i + 1)) == simd_only(s.take(i)),
{
    reveal_with_fuel(Seq::filter, 2);
    assert(s.take(i + 1).last() == s[i]);
    assert(s.take(i + 1).drop_last() =~= s.take(i));
}

/// Keep the records that counted at least one vector instruction, in
/// their order.
pub fn filter_simd_functions(v: Vec<FunctionInfo>) -> (r: Vec<FunctionInfo>)
    ensures
        r@ == simd_only(v@),
        functions_wf(v@) ==> functions_wf(r@) && all_simd_positive(r@),
{
    let ghost orig = v@;
    let mut rest = v;
    let total = rest.len();
    let mut out: Vec<FunctionInfo> = Vec::new();
    let mut i: usize = 0;
    proof {
        assert(orig.len() == total as int);
        reveal_with_fuel(Seq::filter, 1);
        assert(orig.take(0) =~= Seq::<FunctionInfo>::empty());
        assert(simd_only(orig.take(0)) =~= Seq::<FunctionInfo>::empty());
        assert(rest@ =~= orig.subrange(0, orig.len() as int));
    }
    while rest.len() > 0
        invariant
            i <= orig.len(),
            orig.len() <= usize::MAX,
            rest@ == orig.subrange(i as int, orig.len() as int),
            out@ == simd_only(orig.take(i as int)),
            functions_wf(orig) ==> functions_wf(out@) && all_simd_positive(out@),
        decreases rest@.len(),
    {
        proof {
            lemma_simd_only_take_step(orig, i as int);
            assert(rest@[0] == orig[i as int]);
            if functions_wf(orig) {
                assert(orig[i as int].op_breakdown.wf());
            }
        }
        let f = rest.remove(0);
        if f.simd_ops_total > 0 {
            out.push(f);
        }
        i = i + 1;
        proof {
            assert(rest@ =~= orig.subrange(i as int, orig.len() as int));
        }
    }
    proof {
        assert(orig.take(orig.len() as int) =~= orig);
    }
    out
}

/// The record speaks for the source line `l` of file `f`.
pub open spec fn line_matches(e: LineInfo, f: Seq<char>, l: u32) -> bool {
    e.file@ == f && e.line == l
}

/// The count that a run of line records gives an opcode at a source
/// line: that of its last record for the line, or zero where none
/// exists.
pub open spec fn seq_line_count(s: Seq<LineInfo>, f: Seq<char>, l: u32, k: u32) -> u64
    decreases s.len(),
{
    if s.len() == 0 {
        0
    } else if line_matches(s.last(), f, l) {
        s.last().breakdown.spec_count(k)
    } else {
        seq_line_count(s.drop_last(), f, l, k)
    }
}

/// Each source line has at most one record.
pub open spec fn lines_unique(s: Seq<LineInfo>) -> bool {
    forall|i: int, j: int|
        0 <= i < j < s.len() ==> !line_matches(#[trigger] s[i], (#[trigger] s[j]).file@, s[j].line)
}

/// One record per line, every histogram well formed, and every total
/// field the total of its histogram.
pub open spec fn lines_wf(s: Seq<LineInfo>) -> bool {
    &&& lines_unique(s)
    &&& forall|i: int|
        0 <= i < s.len() ==> (#[trigger] s[i]).breakdown.wf() && s[i].simd_ops_total
            == s[i].breakdown.spec_total()
}

proof fn lemma_line_absent(s: Seq<LineInfo>, f: Seq<char>, l: u32, k: u32)
    requires
        forall|i: int| 0 <= i < s.len() ==> !line_matches(#[trigger] s[i], f, l),
    ensures
        seq_line_count(s, f, l, k) == 0,
    decreases s.len(),
{
    if s.len() > 0 {
        lemma_line_absent(s.drop_last(), f, l, k);
    }
}

proof fn lemma_line_found(s: Seq<LineInfo>, i: int, f: Seq<char>, l: u32, k: u32)
    requires
        lines_unique(s),
        0 <= i < s.len(),
        line_matches(s[i], f, l),
    ensures
        seq_line_count(s, f, l, k) == s[i].breakdown.spec_count(k),
    decreases s.len(),
{
    if i < s.len() - 1 {
        assert(!line_matches(s.last(), s[i].file@, s[i].line));
        assert(lines_unique(s.drop_last()));
        lemma_line_found(s.drop_last(), i, f, l, k);
    }
}

proof fn lemma_line_update(s: Seq<LineInfo>, i: int, e: LineInfo, f2: Seq<char>, l2: u32, k: u32)
    requires
        0 <= i < s.len(),
        lines_unique(s),
        line_matches(s[i], e.file@, e.line),
    ensures
        seq_line_count(s.update(i, e), e.file@, e.line, k) == e.breakdown.spec_count(k),
        !(f2 == e.file@ && l2 == e.line) ==> seq_line_count(s.update(i, e), f2, l2, k)
            == seq_line_count(s, f2, l2, k),
    decreases s.len(),
{
    let t = s.update(i, e);
    if i == s.len() - 1 {
        assert(t.last() == e);
        assert(t.drop_last() =~= s.drop_last());
    } else {
        assert(t.last() == s.last());
        assert(!line_matches(s.last(), s[i].file@, s[i].line));
        assert(t.drop_last() =~= s.drop_last().update(i, e));
        assert(lines_unique(s.drop_last()));
        lemma_line_update(s.drop_last(), i, e, f2, l2, k);
    }
}

proof fn lemma_line_push(s: Seq<LineInfo>, e: LineInfo, f2: Seq<char>, l2: u32, k: u32)
    ensures
        seq_line_count(s.push(e), e.file@, e.line, k) == e.breakdown.spec_count(k),
        !(f2 == e.file@ && l2 == e.line) ==> seq_line_count(s.push(e), f2, l2, k)
            == seq_line_count(s, f2, l2, k),
{
    assert(s.push(e).last() == e);
    assert(s.push(e).drop_last() =~= s);
}

/// The position of the record for line `l` of `file`, where one exists.
fn find_line_index(lines: &Vec<LineInfo>, file: &String, l: u32) -> (r: Option<usize>)
    ensures
        match r {
            Some(i) => i < lines@.len() && line_matches(lines@[i as int], file@, l),
            None => forall|j: int|
                0 <= j < lines@.len() ==> !line_matches(#[trigger] lines@[j], file@, l),
        },
{
    let n = lines.len();
    let mut i: usize = 0;
    while i < n
        invariant
            i <= n,
            n == lines@.len(),
            forall|j: int| 0 <= j < i ==> !line_matches(#[trigger] lines@[j], file@, l),
        decreases n - i,
    {
        if lines[i].line == l && lines[i].file.eq(file) {
            return Some(i);
        }
        i = i + 1;
    }
    None
}

/// Merge one function's classified instructions into the record of the
/// source line the debug information placed it on; a line not seen
/// before gets a fresh record.
pub fn record_line_ops(lines: &mut Vec<LineInfo>, file: &String, l: u32, ops: &Histogram)
    requires
        lines_wf(old(lines)@),
        ops.wf(),
    ensures
        lines_wf(final(lines)@),
        forall|k: u32|
            seq_line_count(final(lines)@, file@, l, k) == sat_add(
                seq_line_count(old(lines)@, file@, l, k),
                ops.spec_count(k),
            ),
        forall|f2: Seq<char>, l2: u32, k: u32|
            !(f2 == file@ && l2 == l) ==> seq_line_count(final(lines)@, f2, l2, k)
                == seq_line_count(old(lines)@, f2, l2, k),
{
    match find_line_index(lines, file, l) {
        Some(i) => {
            let ghost s = lines@;
            let mut e = lines.remove(i);
            proof {
                assert(e == s[i as int]);
                assert(e.file@ == file@ && e.line == l);
                assert forall|k: u32| #![auto] true implies seq_line_count(s, file@, l, k) == s[
                    i as int
                ].breakdown.spec_count(k) by {
                    lemma_line_found(s, i as int, file@, l, k);
                }
            }
            e.breakdown.merge_from(ops);
            e.simd_ops_total = e.breakdown.total();
            proof {
                assert(e.file@ == file@ && e.line == l);
                assert(line_matches(s[i as int], e.file@, e.line));
                assert(s.remove(i as int).insert(i as int, e) =~= s.update(i as int, e));
                assert forall|f2: Seq<char>, l2: u32, k: u32| #![auto] true implies {
                    &&& seq_line_count(s.update(i as int, e), e.file@, e.line, k)
                        == e.breakdown.spec_count(k)
                    &&& (!(f2 == e.file@ && l2 == e.line) ==> seq_line_count(
                        s.update(i as int, e),
                        f2,
                        l2,
                        k,
                    ) == seq_line_count(s, f2, l2, k))
                } by {
                    lemma_line_update(s, i as int, e, f2, l2, k);
                }
                assert forall|p: int, q: int|
                    0 <= p < q < s.len() implies !line_matches(
                    #[trigger] s.update(i as int, e)[p],
                    (#[trigger] s.update(i as int, e)[q]).file@,
                    s.update(i as int, e)[q].line,
                ) by {
                    assert(!line_matches(s[p], s[q].file@, s[q].line));
                }
                assert forall|k: u32| #![auto] true implies seq_line_count(
                    s,
                    file@,
                    l,
                    k,
                ) == seq_line_count(s, e.file@, e.line, k) by {
                }
            }
            lines.insert(i, e);
        },
        None => {
            let ghost s = lines@;
            let mut h = Histogram::new();
            h.merge_from(ops);
            let t = h.total();
            let e = LineInfo { file: file.clone(), line: l, simd_ops_total: t, breakdown: h };
            proof {
                assert forall|f2: Seq<char>, l2: u32, k: u32| #![auto] true implies {
                    &&& seq_line_count(s.push(e), e.file@, e.line, k) == e.breakdown.spec_count(k)
                    &&& (!(f2 == e.file@ && l2 == e.line) ==> seq_line_count(s.push(e), f2, l2, k)
                        == seq_line_count(s, f2, l2, k))
                } by {
                    lemma_line_push(s, e, f2, l2, k);
                }
                assert forall|k: u32| #![auto] true implies seq_line_count(s, file@, l, k) == 0 by {
                    lemma_line_absent(s, file@, l, k);
                }
                assert forall|p: int, q: int|
                    0 <= p < q < s.len() + 1 implies !line_matches(
                    #[trigger] s.push(e)[p],
                    (#[trigger] s.push(e)[q]).file@,
                    s.push(e)[q].line,
                ) by {
                    if q < s.len() {
                        assert(!line_matches(s[p], s[q].file@, s[q].line));
                    } else {
                        assert(!line_matches(s[p], e.file@, e.line));
                    }
                }
            }
            lines.push(e);
        },
    }
}

/// The line records that counted at least one classified instruction, in
/// their order.
pub open spec fn nonempty_only(s: Seq<LineInfo>) -> Seq<LineInfo> {
    s.filter(|e: LineInfo| !e.breakdown.spec_is_empty())
}

proof fn lemma_nonempty_take_step(s: Seq<LineInfo>, i: int)
    requires
        0 <= i < s.len(),
    ensures
        (!s[i].breakdown.spec_is_empty()) ==> nonempty_only(s.take(i + 1)) == nonempty_only(
            s.take(i),
        ).push(s[i]),
        (s[i].breakdown.spec_is_empty()) ==> nonempty_only(s.take(i + 1)) == nonempty_only(
            s.take(i),
        ),
{
    reveal_with_fuel(Seq::filter, 2);
    assert(s.take(i + 1).last() == s[i]);
    assert(s.take(i + 1).drop_last() =~= s.take(i));
}

/// Keep the line records that counted at least one classified
/// instruction, in their order.
pub fn filter_nonempty_lines(v: Vec<LineInfo>) -> (r: Vec<LineInfo>)
    requires
        lines_wf(v@),
    ensures
        r@ == nonempty_only(v@),
        forall|t: int|
            0 <= t < r@.len() ==> (#[trigger] r@[t]).breakdown.wf() && r@[t].simd_ops_total
                == r@[t].breakdown.spec_total() && !r@[t].breakdown.spec_is_empty(),
{
    let ghost orig = v@;
    let mut rest = v;
    let total = rest.len();
    let mut out: Vec<LineInfo> = Vec::new();
    let mut i: usize = 0;
    proof {
        assert(orig.len() == total as int);
        reveal_with_fuel(Seq::filter, 1);
        assert(orig.take(0) =~= Seq::<LineInfo>::empty());
        assert(nonempty_only(orig.take(0)) =~= Seq::<LineInfo>::empty());
        assert(rest@ =~= orig.subrange(0, orig.len() as int));
    }
    while rest.len() > 0
        invariant
            i <= orig.len(),
            orig.len() <= usize::MAX,
            lines_wf(orig),
            rest@ == orig.subrange(i as int, orig.len() as int),
            out@ == nonempty_only(orig.take(i as int)),
            forall|t: int|
                0 <= t < out@.len() ==> (#[trigger] out@[t]).breakdown.wf() && out@[t].simd_ops_total
                    == out@[t].breakdown.spec_total() && !out@[t].breakdown.spec_is_empty(),
        decreases rest@.len(),
    {
        proof {
            lemma_nonempty_take_step(orig, i as int);
            assert(rest@[0] == orig[i as int]);
        }
        let e = rest.remove(0);
        if !e.breakdown.is_empty() {
            out.push(e);
        }
        i = i + 1;
        proof {
            assert(rest@ =~= orig.subrange(i as int, orig.len() as int));
        }
    }
    proof {
        assert(orig.take(orig.len() as int) =~= orig);
    }
    out
}

} // verus!
