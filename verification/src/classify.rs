//! The instruction classifier: the fixed taxonomy of vector opcodes.
//!
//! A WebAssembly vector instruction is encoded as the prefix byte 0xfd
//! followed by a LEB128-encoded sub-opcode. The table below maps each
//! sub-opcode of the vector proposal to its canonical text-format name;
//! every other instruction is left unclassified.

use vstd::prelude::*;

verus! {

/// The opcode byte that prefixes every vector instruction in the
/// WebAssembly binary format.
pub const SIMD_PREFIX: u8 = 0xfd;

/// Canonical names of the vector sub-opcodes from 0x0 through 0x3f.
pub open spec fn spec_simd_name_a(code: u32) -> Option<Seq<char>> {
    if code == 0x0 {
        Some("v128.load"@)
    } else if code == 0x1 {
        Some("v128.load8x8_s"@)
    } else if code == 0x2 {
        Some("v128.load8x8_u"@)
    } else if code == 0x3 {
        Some("v128.load16x4_s"@)
    } else if code == 0x4 {
        Some("v128.load16x4_u"@)
    } else if code == 0x5 {
        Some("v128.load32x2_s"@)
    } else if code == 0x6 {
        Some("v128.load32x2_u"@)
    } else if code == 0x7 {
        Some("v128.load8_splat"@)
    } else if code == 0x8 {
        Some("v128.load16_splat"@)
    } else if code == 0x9 {
        Some("v128.load32_splat"@)
    } else if code == 0xa {
        Some("v128.load64_splat"@)
    } else if code == 0xb {
        Some("v128.store"@)
    } else if code == 0xc {
        Some("v128.const"@)
    } else if code == 0xd {
        Some("i8x16.shuffle"@)
    } else if code == 0xe {
        Some("i8x16.swizzle"@)
    } else if code == 0xf {
        Some("i8x16.splat"@)
    } else if code == 0x10 {
        Some("i16x8.splat"@)
    } else if code == 0x11 {
        Some("i32x4.splat"@)
    } else if code == 0x12 {
        Some("i64x2.splat"@)
    } else if code == 0x13 {
        Some("f32x4.splat"@)
    } else if code == 0x14 {
        Some("f64x2.splat"@)
    } else if code == 0x15 {
        Some("i8x16.extract_lane_s"@)
    } else if code == 0x16 {
        Some("i8x16.extract_lane_u"@)
    } else if code == 0x17 {
        Some("i8x16.replace_lane"@)
    } else if code == 0x18 {
        Some("i16x8.extract_lane_s"@)
    } else if code == 0x19 {
        Some("i16x8.extract_lane_u"@)
    } else if code == 0x1a {
        Some("i16x8.replace_lane"@)
    } else if code == 0x1b {
        Some("i32x4.extract_lane"@)
    } else if code == 0x1c {
        Some("i32x4.replace_lane"@)
    } else if code == 0x1d {
        Some("i64x2.extract_lane"@)
    } else if code == 0x1e {
        Some("i64x2.replace_lane"@)
    } else if code == 0x1f {
        Some("f32x4.extract_lane"@)
    } else if code == 0x20 {
        Some("f32x4.replace_lane"@)
    } else if code == 0x21 {
        Some("f64x2.extract_lane"@)
    } else if code == 0x22 {
        Some("f64x2.replace_lane"@)
    } else if code == 0x23 {
        Some("i8x16.eq"@)
    } else if code == 0x24 {
        Some("i8x16.ne"@)
    } else if code == 0x25 {
        Some("i8x16.lt_s"@)
    } else if code == 0x26 {
        Some("i8x16.lt_u"@)
    } else if code == 0x27 {
        Some("i8x16.gt_s"@)
    } else if code == 0x28 {
        Some("i8x16.gt_u"@)
    } else if code == 0x29 {
        Some("i8x16.le_s"@)
    } else if code == 0x2a {
        Some("i8x16.le_u"@)
    } else if code == 0x2b {
        Some("i8x16.ge_s"@)
    } else if code == 0x2c {
        Some("i8x16.ge_u"@)
    } else if code == 0x2d {
        Some("i16x8.eq"@)
    } else if code == 0x2e {
        Some("i16x8.ne"@)
    } else if code == 0x2f {
        Some("i16x8.lt_s"@)
    } else if code == 0x30 {
        Some("i16x8.lt_u"@)
    } else if code == 0x31 {
        Some("i16x8.gt_s"@)
    } else if code == 0x32 {
        Some("i16x8.gt_u"@)
    } else if code == 0x33 {
        Some("i16x8.le_s"@)
    } else if code == 0x34 {
        Some("i16x8.le_u"@)
    } else if code == 0x35 {
        Some("i16x8.ge_s"@)
    } else if code == 0x36 {
        Some("i16x8.ge_u"@)
    } else if code == 0x37 {
        Some("i32x4.eq"@)
    } else if code == 0x38 {
        Some("i32x4.ne"@)
    } else if code == 0x39 {
        Some("i32x4.lt_s"@)
    } else if code == 0x3a {
        Some("i32x4.lt_u"@)
    } else if code == 0x3b {
        Some("i32x4.gt_s"@)
    } else if code == 0x3c {
        Some("i32x4.gt_u"@)
    } else if code == 0x3d {
        Some("i32x4.le_s"@)
    } else if code == 0x3e {
        Some("i32x4.le_u"@)
    } else if code == 0x3f {
        Some("i32x4.ge_s"@)
    } else {
        None
    }
}

fn simd_name_a(code: u32) -> (r: Option<&'static str>)
    ensures
        r matches Some(s) ==> spec_simd_name_a(code) == Some(s@),
        r is None ==> spec_simd_name_a(code) is None,
{
    match code {
        0x0 => Some("v128.load"),
        0x1 => Some("v128.load8x8_s"),
        0x2 => Some("v128.load8x8_u"),
        0x3 => Some("v128.load16x4_s"),
        0x4 => Some("v128.load16x4_u"),
        0x5 => Some("v128.load32x2_s"),
        0x6 => Some("v128.load32x2_u"),
        0x7 => Some("v128.load8_splat"),
        0x8 => Some("v128.load16_splat"),
        0x9 => Some("v128.load32_splat"),
        0xa => Some("v128.load64_splat"),
        0xb => Some("v128.store"),
        0xc => Some("v128.const"),
        0xd => Some("i8x16.shuffle"),
        0xe => Some("i8x16.swizzle"),
        0xf => Some("i8x16.splat"),
        0x10 => Some("i16x8.splat"),
        0x11 => Some("i32x4.splat"),
        0x12 => Some("i64x2.splat"),
        0x13 => Some("f32x4.splat"),
        0x14 => Some("f64x2.splat"),
        0x15 => Some("i8x16.extract_lane_s"),
        0x16 => Some("i8x16.extract_lane_u"),
        0x17 => Some("i8x16.replace_lane"),
        0x18 => Some("i16x8.extract_lane_s"),
        0x19 => Some("i16x8.extract_lane_u"),
        0x1a => Some("i16x8.replace_lane"),
        0x1b => Some("i32x4.extract_lane"),
        0x1c => Some("i32x4.replace_lane"),
        0x1d => Some("i64x2.extract_lane"),
        0x1e => Some("i64x2.replace_lane"),
        0x1f => Some("f32x4.extract_lane"),
        0x20 => Some("f32x4.replace_lane"),
        0x21 => Some("f64x2.extract_lane"),
        0x22 => Some("f64x2.replace_lane"),
        0x23 => Some("i8x16.eq"),
        0x24 => Some("i8x16.ne"),
        0x25 => Some("i8x16.lt_s"),
        0x26 => Some("i8x16.lt_u"),
        0x27 => Some("i8x16.gt_s"),
        0x28 => Some("i8x16.gt_u"),
        0x29 => Some("i8x16.le_s"),
        0x2a => Some("i8x16.le_u"),
        0x2b => Some("i8x16.ge_s"),
        0x2c => Some("i8x16.ge_u"),
        0x2d => Some("i16x8.eq"),
        0x2e => Some("i16x8.ne"),
        0x2f => Some("i16x8.lt_s"),
        0x30 => Some("i16x8.lt_u"),
        0x31 => Some("i16x8.gt_s"),
        0x32 => Some("i16x8.gt_u"),
        0x33 => Some("i16x8.le_s"),
        0x34 => Some("i16x8.le_u"),
        0x35 => Some("i16x8.ge_s"),
        0x36 => Some("i16x8.ge_u"),
        0x37 => Some("i32x4.eq"),
        0x38 => Some("i32x4.ne"),
        0x39 => Some("i32x4.lt_s"),
        0x3a => Some("i32x4.lt_u"),
        0x3b => Some("i32x4.gt_s"),
        0x3c => Some("i32x4.gt_u"),
        0x3d => Some("i32x4.le_s"),
        0x3e => Some("i32x4.le_u"),
        0x3f => Some("i32x4.ge_s"),
        _ => None,
    }
}

/// Canonical names of the vector sub-opcodes from 0x40 through 0x7f.
pub open spec fn spec_simd_name_b(code: u32) -> Option<Seq<char>> {
    if code == 0x40 {
        Some("i32x4.ge_u"@)
    } else if code == 0x41 {
        Some("f32x4.eq"@)
    } else if code == 0x42 {
        Some("f32x4.ne"@)
    } else if code == 0x43 {
        Some("f32x4.lt"@)
    } else if code == 0x44 {
        Some("f32x4.gt"@)
    } else if code == 0x45 {
        Some("f32x4.le"@)
    } else if code == 0x46 {
        Some("f32x4.ge"@)
    } else if code == 0x47 {
        Some("f64x2.eq"@)
    } else if code == 0x48 {
        Some("f64x2.ne"@)
    } else if code == 0x49 {
        Some("f64x2.lt"@)
    } else if code == 0x4a {
        Some("f64x2.gt"@)
    } else if code == 0x4b {
        Some("f64x2.le"@)
    } else if code == 0x4c {
        Some("f64x2.ge"@)
    } else if code == 0x4d {
        Some("v128.not"@)
    } else if code == 0x4e {
        Some("v128.and"@)
    } else if code == 0x4f {
        Some("v128.andnot"@)
    } else if code == 0x50 {
        Some("v128.or"@)
    } else if code == 0x51 {
        Some("v128.xor"@)
    } else if code == 0x52 {
        Some("v128.bitselect"@)
    } else if code == 0x53 {
        Some("v128.any_true"@)
    } else if code == 0x54 {
        Some("v128.load8_lane"@)
    } else if code == 0x55 {
        Some("v128.load16_lane"@)
    } else if code == 0x56 {
        Some("v128.load32_lane"@)
    } else if code == 0x57 {
        Some("v128.load64_lane"@)
    } else if code == 0x58 {
        Some("v128.store8_lane"@)
    } else if code == 0x59 {
        Some("v128.store16_lane"@)
    } else if code == 0x5a {
        Some("v128.store32_lane"@)
    } else if code == 0x5b {
        Some("v128.store64_lane"@)
    } else if code == 0x5c {
        Some("v128.load32_zero"@)
    } else if code == 0x5d {
        Some("v128.load64_zero"@)
    } else if code == 0x5e {
        Some("f32x4.demote_f64x2_zero"@)
    } else if code == 0x5f {
        Some("f64x2.promote_low_f32x4"@)
    } else if code == 0x60 {
        Some("i8x16.abs"@)
    } else if code == 0x61 {
        Some("i8x16.neg"@)
    } else if code == 0x62 {
        Some("i8x16.popcnt"@)
    } else if code == 0x63 {
        Some("i8x16.all_true"@)
    } else if code == 0x64 {
        Some("i8x16.bitmask"@)
    } else if code == 0x65 {
        Some("i8x16.narrow_i16x8_s"@)
    } else if code == 0x66 {
        Some("i8x16.narrow_i16x8_u"@)
    } else if code == 0x67 {
        Some("f32x4.ceil"@)
    } else if code == 0x68 {
        Some("f32x4.floor"@)
    } else if code == 0x69 {
        Some("f32x4.trunc"@)
    } else if code == 0x6a {
        Some("f32x4.nearest"@)
    } else if code == 0x6b {
        Some("i8x16.shl"@)
    } else if code == 0x6c {
        Some("i8x16.shr_s"@)
    } else if code == 0x6d {
        Some("i8x16.shr_u"@)
    } else if code == 0x6e {
        Some("i8x16.add"@)
    } else if code == 0x6f {
        Some("i8x16.add_sat_s"@)
    } else if code == 0x70 {
        Some("i8x16.add_sat_u"@)
    } else if code == 0x71 {
        Some("i8x16.sub"@)
    } else if code == 0x72 {
        Some("i8x16.sub_sat_s"@)
    } else if code == 0x73 {
        Some("i8x16.sub_sat_u"@)
    } else if code == 0x74 {
        Some("f64x2.ceil"@)
    } else if code == 0x75 {
        Some("f64x2.floor"@)
    } else if code == 0x76 {
        Some("i8x16.min_s"@)
    } else if code == 0x77 {
        Some("i8x16.min_u"@)
    } else if code == 0x78 {
        Some("i8x16.max_s"@)
    } else if code == 0x79 {
        Some("i8x16.max_u"@)
    } else if code == 0x7a {
        Some("f64x2.trunc"@)
    } else if code == 0x7b {
        Some("i8x16.avgr_u"@)
    } else if code == 0x7c {
        Some("i16x8.extadd_pairwise_i8x16_s"@)
    } else if code == 0x7d {
        Some("i16x8.extadd_pairwise_i8x16_u"@)
    } else if code == 0x7e {
        Some("i32x4.extadd_pairwise_i16x8_s"@)
    } else if code == 0x7f {
        Some("i32x4.extadd_pairwise_i16x8_u"@)
    } else {
        None
    }
}

fn simd_name_b(code: u32) -> (r: Option<&'static str>)
    ensures
        r matches Some(s) ==> spec_simd_name_b(code) == Some(s@),
        r is None ==> spec_simd_name_b(code) is None,
{
    match code {
        0x40 => Some("i32x4.ge_u"),
        0x41 => Some("f32x4.eq"),
        0x42 => Some("f32x4.ne"),
        0x43 => Some("f32x4.lt"),
        0x44 => Some("f32x4.gt"),
        0x45 => Some("f32x4.le"),
        0x46 => Some("f32x4.ge"),
        0x47 => Some("f64x2.eq"),
        0x48 => Some("f64x2.ne"),
        0x49 => Some("f64x2.lt"),
        0x4a => Some("f64x2.gt"),
        0x4b => Some("f64x2.le"),
        0x4c => Some("f64x2.ge"),
        0x4d => Some("v128.not"),
        0x4e => Some("v128.and"),
        0x4f => Some("v128.andnot"),
        0x50 => Some("v128.or"),
        0x51 => Some("v128.xor"),
        0x52 => Some("v128.bitselect"),
        0x53 => Some("v128.any_true"),
        0x54 => Some("v128.load8_lane"),
        0x55 => Some("v128.load16_lane"),
        0x56 => Some("v128.load32_lane"),
        0x57 => Some("v128.load64_lane"),
        0x58 => Some("v128.store8_lane"),
        0x59 => Some("v128.store16_lane"),
        0x5a => Some("v128.store32_lane"),
        0x5b => Some("v128.store64_lane"),
        0x5c => Some("v128.load32_zero"),
        0x5d => Some("v128.load64_zero"),
        0x5e => Some("f32x4.demote_f64x2_zero"),
        0x5f => Some("f64x2.promote_low_f32x4"),
        0x60 => Some("i8x16.abs"),
        0x61 => Some("i8x16.neg"),
        0x62 => Some("i8x16.popcnt"),
        0x63 => Some("i8x16.all_true"),
        0x64 => Some("i8x16.bitmask"),
        0x65 => Some("i8x16.narrow_i16x8_s"),
        0x66 => Some("i8x16.narrow_i16x8_u"),
        0x67 => Some("f32x4.ceil"),
        0x68 => Some("f32x4.floor"),
        0x69 => Some("f32x4.trunc"),
        0x6a => Some("f32x4.nearest"),
        0x6b => Some("i8x16.shl"),
        0x6c => Some("i8x16.shr_s"),
        0x6d => Some("i8x16.shr_u"),
        0x6e => Some("i8x16.add"),
        0x6f => Some("i8x16.add_sat_s"),
        0x70 => Some("i8x16.add_sat_u"),
        0x71 => Some("i8x16.sub"),
        0x72 => Some("i8x16.sub_sat_s"),
        0x73 => Some("i8x16.sub_sat_u"),
        0x74 => Some("f64x2.ceil"),
        0x75 => Some("f64x2.floor"),
        0x76 => Some("i8x16.min_s"),
        0x77 => Some("i8x16.min_u"),
        0x78 => Some("i8x16.max_s"),
        0x79 => Some("i8x16.max_u"),
        0x7a => Some("f64x2.trunc"),
        0x7b => Some("i8x16.avgr_u"),
        0x7c => Some("i16x8.extadd_pairwise_i8x16_s"),
        0x7d => Some("i16x8.extadd_pairwise_i8x16_u"),
        0x7e => Some("i32x4.extadd_pairwise_i16x8_s"),
        0x7f => Some("i32x4.extadd_pairwise_i16x8_u"),
        _ => None,
    }
}

/// Canonical names of the vector sub-opcodes from 0x80 through 0xbf.
pub open spec fn spec_simd_name_c(code: u32) -> Option<Seq<char>> {
    if code == 0x80 {
        Some("i16x8.abs"@)
    } else if code == 0x81 {
        Some("i16x8.neg"@)
    } else if code == 0x82 {
        Some("i16x8.q15mulr_sat_s"@)
    } else if code == 0x83 {
        Some("i16x8.all_true"@)
    } else if code == 0x84 {
        Some("i16x8.bitmask"@)
    } else if code == 0x85 {
        Some("i16x8.narrow_i32x4_s"@)
    } else if code == 0x86 {
        Some("i16x8.narrow_i32x4_u"@)
    } else if code == 0x87 {
        Some("i16x8.extend_low_i8x16_s"@)
    } else if code == 0x88 {
        Some("i16x8.extend_high_i8x16_s"@)
    } else if code == 0x89 {
        Some("i16x8.extend_low_i8x16_u"@)
    } else if code == 0x8a {
        Some("i16x8.extend_high_i8x16_u"@)
    } else if code == 0x8b {
        Some("i16x8.shl"@)
    } else if code == 0x8c {
        Some("i16x8.shr_s"@)
    } else if code == 0x8d {
        Some("i16x8.shr_u"@)
    } else if code == 0x8e {
        Some("i16x8.add"@)
    } else if code == 0x8f {
        Some("i16x8.add_sat_s"@)
    } else if code == 0x90 {
        Some("i16x8.add_sat_u"@)
    } else if code == 0x91 {
        Some("i16x8.sub"@)
    } else if code == 0x92 {
        Some("i16x8.sub_sat_s"@)
    } else if code == 0x93 {
        Some("i16x8.sub_sat_u"@)
    } else if code == 0x94 {
        Some("f64x2.nearest"@)
    } else if code == 0x95 {
        Some("i16x8.mul"@)
    } else if code == 0x96 {
        Some("i16x8.min_s"@)
    } else if code == 0x97 {
        Some("i16x8.min_u"@)
    } else if code == 0x98 {
        Some("i16x8.max_s"@)
    } else if code == 0x99 {
        Some("i16x8.max_u"@)
    } else if code == 0x9b {
        Some("i16x8.avgr_u"@)
    } else if code == 0x9c {
        Some("i16x8.extmul_low_i8x16_s"@)
    } else if code == 0x9d {
        Some("i16x8.extmul_high_i8x16_s"@)
    } else if code == 0x9e {
        Some("i16x8.extmul_low_i8x16_u"@)
    } else if code == 0x9f {
        Some("i16x8.extmul_high_i8x16_u"@)
    } else if code == 0xa0 {
        Some("i32x4.abs"@)
    } else if code == 0xa1 {
        Some("i32x4.neg"@)
    } else if code == 0xa3 {
        Some("i32x4.all_true"@)
    } else if code == 0xa4 {
        Some("i32x4.bitmask"@)
    } else if code == 0xa7 {
        Some("i32x4.extend_low_i16x8_s"@)
    } else if code == 0xa8 {
        Some("i32x4.extend_high_i16x8_s"@)
    } else if code == 0xa9 {
        Some("i32x4.extend_low_i16x8_u"@)
    } else if code == 0xaa {
        Some("i32x4.extend_high_i16x8_u"@)
    } else if code == 0xab {
        Some("i32x4.shl"@)
    } else if code == 0xac {
        Some("i32x4.shr_s"@)
    } else if code == 0xad {
        Some("i32x4.shr_u"@)
    } else if code == 0xae {
        Some("i32x4.add"@)
    } else if code == 0xb1 {
        Some("i32x4.sub"@)
    } else if code == 0xb5 {
        Some("i32x4.mul"@)
    } else if code == 0xb6 {
        Some("i32x4.min_s"@)
    } else if code == 0xb7 {
        Some("i32x4.min_u"@)
    } else if code == 0xb8 {
        Some("i32x4.max_s"@)
    } else if code == 0xb9 {
        Some("i32x4.max_u"@)
    } else if code == 0xba {
        Some("i32x4.dot_i16x8_s"@)
    } else if code == 0xbc {
        Some("i32x4.extmul_low_i16x8_s"@)
    } else if code == 0xbd {
        Some("i32x4.extmul_high_i16x8_s"@)
    } else if code == 0xbe {
        Some("i32x4.extmul_low_i16x8_u"@)
    } else if code == 0xbf {
        Some("i32x4.extmul_high_i16x8_u"@)
    } else {
        None
    }
}

fn simd_name_c(code: u32) -> (r: Option<&'static str>)
    ensures
        r matches Some(s) ==> spec_simd_name_c(code) == Some(s@),
        r is None ==> spec_simd_name_c(code) is None,
{
    match code {
        0x80 => Some("i16x8.abs"),
        0x81 => Some("i16x8.neg"),
        0x82 => Some("i16x8.q15mulr_sat_s"),
        0x83 => Some("i16x8.all_true"),
        0x84 => Some("i16x8.bitmask"),
        0x85 => Some("i16x8.narrow_i32x4_s"),
        0x86 => Some("i16x8.narrow_i32x4_u"),
        0x87 => Some("i16x8.extend_low_i8x16_s"),
        0x88 => Some("i16x8.extend_high_i8x16_s"),
        0x89 => Some("i16x8.extend_low_i8x16_u"),
        0x8a => Some("i16x8.extend_high_i8x16_u"),
        0x8b => Some("i16x8.shl"),
        0x8c => Some("i16x8.shr_s"),
        0x8d => Some("i16x8.shr_u"),
        0x8e => Some("i16x8.add"),
        0x8f => Some("i16x8.add_sat_s"),
        0x90 => Some("i16x8.add_sat_u"),
        0x91 => Some("i16x8.sub"),
        0x92 => Some("i16x8.sub_sat_s"),
        0x93 => Some("i16x8.sub_sat_u"),
        0x94 => Some("f64x2.nearest"),
        0x95 => Some("i16x8.mul"),
        0x96 => Some("i16x8.min_s"),
        0x97 => Some("i16x8.min_u"),
        0x98 => Some("i16x8.max_s"),
        0x99 => Some("i16x8.max_u"),
        0x9b => Some("i16x8.avgr_u"),
        0x9c => Some("i16x8.extmul_low_i8x16_s"),
        0x9d => Some("i16x8.extmul_high_i8x16_s"),
        0x9e => Some("i16x8.extmul_low_i8x16_u"),
        0x9f => Some("i16x8.extmul_high_i8x16_u"),
        0xa0 => Some("i32x4.abs"),
        0xa1 => Some("i32x4.neg"),
        0xa3 => Some("i32x4.all_true"),
        0xa4 => Some("i32x4.bitmask"),
        0xa7 => Some("i32x4.extend_low_i16x8_s"),
        0xa8 => Some("i32x4.extend_high_i16x8_s"),
        0xa9 => Some("i32x4.extend_low_i16x8_u"),
        0xaa => Some("i32x4.extend_high_i16x8_u"),
        0xab => Some("i32x4.shl"),
        0xac => Some("i32x4.shr_s"),
        0xad => Some("i32x4.shr_u"),
        0xae => Some("i32x4.add"),
        0xb1 => Some("i32x4.sub"),
        0xb5 => Some("i32x4.mul"),
        0xb6 => Some("i32x4.min_s"),
        0xb7 => Some("i32x4.min_u"),
        0xb8 => Some("i32x4.max_s"),
        0xb9 => Some("i32x4.max_u"),
        0xba => Some("i32x4.dot_i16x8_s"),
        0xbc => Some("i32x4.extmul_low_i16x8_s"),
        0xbd => Some("i32x4.extmul_high_i16x8_s"),
        0xbe => Some("i32x4.extmul_low_i16x8_u"),
        0xbf => Some("i32x4.extmul_high_i16x8_u"),
        _ => None,
    }
}

/// Canonical names of the vector sub-opcodes from 0xc0 through 0xff.
pub open spec fn spec_simd_name_d(code: u32) -> Option<Seq<char>> {
    if code == 0xc0 {
        Some("i64x2.abs"@)
    } else if code == 0xc1 {
        Some("i64x2.neg"@)
    } else if code == 0xc3 {
        Some("i64x2.all_true"@)
    } else if code == 0xc4 {
        Some("i64x2.bitmask"@)
    } else if code == 0xc7 {
        Some("i64x2.extend_low_i32x4_s"@)
    } else if code == 0xc8 {
        Some("i64x2.extend_high_i32x4_s"@)
    } else if code == 0xc9 {
        Some("i64x2.extend_low_i32x4_u"@)
    } else if code == 0xca {
        Some("i64x2.extend_high_i32x4_u"@)
    } else if code == 0xcb {
        Some("i64x2.shl"@)
    } else if code == 0xcc {
        Some("i64x2.shr_s"@)
    } else if code == 0xcd {
        Some("i64x2.shr_u"@)
    } else if code == 0xce {
        Some("i64x2.add"@)
    } else if code == 0xd1 {
        Some("i64x2.sub"@)
    } else if code == 0xd5 {
        Some("i64x2.mul"@)
    } else if code == 0xd6 {
        Some("i64x2.eq"@)
    } else if code == 0xd7 {
        Some("i64x2.ne"@)
    } else if code == 0xd8 {
        Some("i64x2.lt_s"@)
    } else if code == 0xd9 {
        Some("i64x2.gt_s"@)
    } else if code == 0xda {
        Some("i64x2.le_s"@)
    } else if code == 0xdb {
        Some("i64x2.ge_s"@)
    } else if code == 0xdc {
        Some("i64x2.extmul_low_i32x4_s"@)
    } else if code == 0xdd {
        Some("i64x2.extmul_high_i32x4_s"@)
    } else if code == 0xde {
        Some("i64x2.extmul_low_i32x4_u"@)
    } else if code == 0xdf {
        Some("i64x2.extmul_high_i32x4_u"@)
    } else if code == 0xe0 {
        Some("f32x4.abs"@)
    } else if code == 0xe1 {
        Some("f32x4.neg"@)
    } else if code == 0xe3 {
        Some("f32x4.sqrt"@)
    } else if code == 0xe4 {
        Some("f32x4.add"@)
    } else if code == 0xe5 {
        Some("f32x4.sub"@)
    } else if code == 0xe6 {
        Some("f32x4.mul"@)
    } else if code == 0xe7 {
        Some("f32x4.div"@)
    } else if code == 0xe8 {
        Some("f32x4.min"@)
    } else if code == 0xe9 {
        Some("f32x4.max"@)
    } else if code == 0xea {
        Some("f32x4.pmin"@)
    } else if code == 0xeb {
        Some("f32x4.pmax"@)
    } else if code == 0xec {
        Some("f64x2.abs"@)
    } else if code == 0xed {
        Some("f64x2.neg"@)
    } else if code == 0xef {
        Some("f64x2.sqrt"@)
    } else if code == 0xf0 {
        Some("f64x2.add"@)
    } else if code == 0xf1 {
        Some("f64x2.sub"@)
    } else if code == 0xf2 {
        Some("f64x2.mul"@)
    } else if code == 0xf3 {
        Some("f64x2.div"@)
    } else if code == 0xf4 {
        Some("f64x2.min"@)
    } else if code == 0xf5 {
        Some("f64x2.max"@)
    } else if code == 0xf6 {
        Some("f64x2.pmin"@)
    } else if code == 0xf7 {
        Some("f64x2.pmax"@)
    } else if code == 0xf8 {
        Some("i32x4.trunc_sat_f32x4_s"@)
    } else if code == 0xf9 {
        Some("i32x4.trunc_sat_f32x4_u"@)
    } else if code == 0xfa {
        Some("f32x4.convert_i32x4_s"@)
    } else if code == 0xfb {
        Some("f32x4.convert_i32x4_u"@)
    } else if code == 0xfc {
        Some("i32x4.trunc_sat_f64x2_s_zero"@)
    } else if code == 0xfd {
        Some("i32x4.trunc_sat_f64x2_u_zero"@)
    } else if code == 0xfe {
        Some("f64x2.convert_low_i32x4_s"@)
    } else if code == 0xff {
        Some("f64x2.convert_low_i32x4_u"@)
    } else {
        None
    }
}

fn simd_name_d(code: u32) -> (r: Option<&'static str>)
    ensures
        r matches Some(s) ==> spec_simd_name_d(code) == Some(s@),
        r is None ==> spec_simd_name_d(code) is None,
{
    match code {
        0xc0 => Some("i64x2.abs"),
        0xc1 => Some("i64x2.neg"),
        0xc3 => Some("i64x2.all_true"),
        0xc4 => Some("i64x2.bitmask"),
        0xc7 => Some("i64x2.extend_low_i32x4_s"),
        0xc8 => Some("i64x2.extend_high_i32x4_s"),
        0xc9 => Some("i64x2.extend_low_i32x4_u"),
        0xca => Some("i64x2.extend_high_i32x4_u"),
        0xcb => Some("i64x2.shl"),
        0xcc => Some("i64x2.shr_s"),
        0xcd => Some("i64x2.shr_u"),
        0xce => Some("i64x2.add"),
        0xd1 => Some("i64x2.sub"),
        0xd5 => Some("i64x2.mul"),
        0xd6 => Some("i64x2.eq"),
        0xd7 => Some("i64x2.ne"),
        0xd8 => Some("i64x2.lt_s"),
        0xd9 => Some("i64x2.gt_s"),
        0xda => Some("i64x2.le_s"),
        0xdb => Some("i64x2.ge_s"),
        0xdc => Some("i64x2.extmul_low_i32x4_s"),
        0xdd => Some("i64x2.extmul_high_i32x4_s"),
        0xde => Some("i64x2.extmul_low_i32x4_u"),
        0xdf => Some("i64x2.extmul_high_i32x4_u"),
        0xe0 => Some("f32x4.abs"),
        0xe1 => Some("f32x4.neg"),
        0xe3 => Some("f32x4.sqrt"),
        0xe4 => Some("f32x4.add"),
        0xe5 => Some("f32x4.sub"),
        0xe6 => Some("f32x4.mul"),
        0xe7 => Some("f32x4.div"),
        0xe8 => Some("f32x4.min"),
        0xe9 => Some("f32x4.max"),
        0xea => Some("f32x4.pmin"),
        0xeb => Some("f32x4.pmax"),
        0xec => Some("f64x2.abs"),
        0xed => Some("f64x2.neg"),
        0xef => Some("f64x2.sqrt"),
        0xf0 => Some("f64x2.add"),
        0xf1 => Some("f64x2.sub"),
        0xf2 => Some("f64x2.mul"),
        0xf3 => Some("f64x2.div"),
        0xf4 => Some("f64x2.min"),
        0xf5 => Some("f64x2.max"),
        0xf6 => Some("f64x2.pmin"),
        0xf7 => Some("f64x2.pmax"),
        0xf8 => Some("i32x4.trunc_sat_f32x4_s"),
        0xf9 => Some("i32x4.trunc_sat_f32x4_u"),
        0xfa => Some("f32x4.convert_i32x4_s"),
        0xfb => Some("f32x4.convert_i32x4_u"),
        0xfc => Some("i32x4.trunc_sat_f64x2_s_zero"),
        0xfd => Some("i32x4.trunc_sat_f64x2_u_zero"),
        0xfe => Some("f64x2.convert_low_i32x4_s"),
        0xff => Some("f64x2.convert_low_i32x4_u"),
        _ => None,
    }
}

/// The canonical name, if any, that the classifier gives an instruction
/// whose opcode is `prefix` with LEB128 sub-opcode `code`. Instructions
/// outside the vector prefix, and vector sub-opcodes outside the table
/// (gaps and the relaxed extensions above 0xff), have no name.
pub open spec fn spec_classify_simd_op(prefix: u8, code: u32) -> Option<Seq<char>> {
    if prefix != SIMD_PREFIX {
        None
    } else if code < 0x40 {
        spec_simd_name_a(code)
    } else if code < 0x80 {
        spec_simd_name_b(code)
    } else if code < 0xc0 {
        spec_simd_name_c(code)
    } else {
        spec_simd_name_d(code)
    }
}

/// Whether the classifier counts the instruction as a vector operation.
pub open spec fn spec_is_simd_op(prefix: u8, code: u32) -> bool {
    spec_classify_simd_op(prefix, code) is Some
}

/// Categorize an instruction, given by its opcode encoding, as a vector
/// operation or not; returns the canonical opcode name if it is one.
pub fn classify_simd_op(prefix: u8, code: u32) -> (r: Option<&'static str>)
    ensures
        r matches Some(s) ==> spec_classify_simd_op(prefix, code) == Some(s@),
        r is None ==> spec_classify_simd_op(prefix, code) is None,
{
    if prefix != SIMD_PREFIX {
        return None;
    }
    if code < 0x40 {
        simd_name_a(code)
    } else if code < 0x80 {
        simd_name_b(code)
    } else if code < 0xc0 {
        simd_name_c(code)
    } else {
        simd_name_d(code)
    }
}

} // verus!
