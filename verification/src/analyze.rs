//! The whole-binary analysis: walk the module's sections, scan every
//! function of the code section, resolve source locations, and aggregate
//! the report.

use crate::digest::{sha256_8, spec_hex, wasm_hash_label};
use crate::dwarf::{DebugContext, get_source_location};
use crate::hist::{Histogram, sat_add_u64};
use crate::names::parse_name_section;
use crate::report::{
    FunctionInfo, LineInfo, SimdReport, all_simd_positive, densities_descending,
    filter_nonempty_lines, filter_simd_functions, functions_wf, lines_wf, record_line_ops,
    sort_by_density, lemma_wf_preserved_by_permutation,
};
use crate::scan::{analyze_function, collect_op_codes};
use crate::wasm::{PayloadStep, WasmError, body_range_start, new_parser, parse_chunk, payload_step};
use vstd::prelude::*;

verus! {

/// Analyze a module's bytes: hash them, collect the function names, scan
/// every function of the code section, correlate functions with source
/// lines through the debug-information resolver, and build the report.
///
/// The report labels the module with the leading eight bytes of its hash;
/// its functions are exactly those that counted at least one vector
/// instruction, in descending density order; and every source-line record
/// carries a consistent, non-empty histogram.
pub fn analyze_wasm<'a>(
    wasm_bytes: &'a [u8],
    variant: String,
    wasm_path: String,
    dwarf_ctx: Option<&DebugContext<'a>>,
) -> (r: Result<SimdReport, WasmError>)
    ensures
        r matches Ok(rep) ==> {
            &&& rep.variant == variant
            &&& rep.wasm_path == wasm_path
            &&& rep.wasm_hash@ == spec_hex(sha256_8(wasm_bytes@))
            &&& rep.wasm_hash@.len() == 16
            &&& rep.wasm_size == wasm_bytes@.len()
            &&& rep.total_simd_ops <= rep.total_ops
            &&& rep.opcode_summary.wf()
            &&& rep.opcode_summary.spec_total() == rep.total_simd_ops
            &&& functions_wf(rep.functions@)
            &&& all_simd_positive(rep.functions@)
            &&& densities_descending(rep.functions@)
            &&& forall|t: int|
                0 <= t < rep.lines@.len() ==> (#[trigger] rep.lines@[t]).breakdown.wf()
                    && rep.lines@[t].simd_ops_total == rep.lines@[t].breakdown.spec_total()
                    && !rep.lines@[t].breakdown.spec_is_empty()
        },
{
    let wasm_hash = wasm_hash_label(wasm_bytes);
    let func_names = parse_name_section(wasm_bytes);

    let mut functions: Vec<FunctionInfo> = Vec::new();
    let mut lines: Vec<LineInfo> = Vec::new();
    let mut opcode_summary = Histogram::new();
    let mut total_simd_ops: u64 = 0;
    let mut total_ops: u64 = 0;
    let mut func_index: u32 = 0;
    let mut code_section_offset: u64 = 0;

    let mut parser = new_parser();
    let mut offset: usize = 0;
    // every payload but the last consumes at least one byte
    let mut rounds = wasm_bytes.len();
    loop
        invariant
            offset <= wasm_bytes@.len(),
            func_names.wf(),
            functions_wf(functions@),
            lines_wf(lines@),
            opcode_summary.wf(),
            opcode_summary.spec_total() == total_simd_ops,
            total_simd_ops <= total_ops,
        decreases rounds,
    {
        let rest = &wasm_bytes[offset..wasm_bytes.len()];
        match parse_chunk(&mut parser, rest) {
            Err(e) => {
                return Err(e);
            },
            Ok(None) => {
                break ;
            },
            Ok(Some((consumed, payload))) => {
                offset = offset + consumed;
                match payload_step(payload) {
                    PayloadStep::CodeStart(start) => {
                        code_section_offset = start;
                    },
                    PayloadStep::CodeEntry(body) => {
                        let ops = match collect_op_codes(wasm_bytes, &body) {
                            Ok(o) => o,
                            Err(e) => {
                                return Err(e);
                            },
                        };
                        let (ops_total, simd, breakdown) = analyze_function(&ops);

                        total_ops = sat_add_u64(total_ops, ops_total);
                        total_simd_ops = sat_add_u64(total_simd_ops, simd);
                        opcode_summary.merge_from(&breakdown);

                        let code_offset = sat_add_u64(
                            code_section_offset,
                            body_range_start(&body),
                        );
                        let loc = get_source_location(dwarf_ctx, code_offset);
                        let file = loc.0;
                        let line_no = loc.1;
                        match (&file, line_no) {
                            (Some(f), Some(l)) => {
                                record_line_ops(&mut lines, f, l, &breakdown);
                            },
                            _ => {},
                        }

                        let ghost before = functions@;
                        functions.push(
                            FunctionInfo {
                                index: func_index,
                                name: func_names.get(func_index),
                                file,
                                line: line_no,
                                simd_ops_total: simd,
                                total_ops: ops_total,
                                op_breakdown: breakdown,
                            },
                        );
                        proof {
                            assert forall|t: int| 0 <= t < functions@.len() implies (
                            #[trigger] functions@[t]).op_breakdown.wf() && functions@[t].simd_ops_total
                                <= functions@[t].total_ops by {
                                if t < before.len() {
                                    assert(functions@[t] == before[t]);
                                }
                            }
                        }
                        func_index = func_index.wrapping_add(1);
                    },
                    PayloadStep::Custom(_) => {},
                    PayloadStep::ModuleEnd => {
                        break ;
                    },
                    PayloadStep::Other => {},
                }
            },
        }
        if rounds == 0 {
            break ;
        }
        rounds = rounds - 1;
    }

    let mut simd_functions = filter_simd_functions(functions);
    let ghost filtered = simd_functions@;
    sort_by_density(&mut simd_functions);
    proof {
        lemma_wf_preserved_by_permutation(filtered, simd_functions@);
    }
    let final_lines = filter_nonempty_lines(lines);

    Ok(
        SimdReport {
            variant,
            wasm_path,
            wasm_hash,
            wasm_size: wasm_bytes.len(),
            total_simd_ops,
            total_ops,
            opcode_summary,
            functions: simd_functions,
            lines: final_lines,
        },
    )
}

} // verus!
