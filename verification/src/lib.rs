//! Static analysis of WebAssembly binaries for vector (SIMD) instruction
//! usage: a classifier over the fixed table of vector opcodes, per-function
//! scanning and histogram aggregation, per-source-line correlation through
//! DWARF debug information, and a small byte-buffer transformation exposed
//! over a foreign-function boundary.

pub mod analyze;
pub mod buffer;
pub mod classify;
pub mod digest;
pub mod dwarf;
pub mod hist;
pub mod leb;
pub mod names;
pub mod report;
pub mod scan;
pub mod wasm;
