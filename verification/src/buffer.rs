//! The byte-buffer transformation behind the foreign-function entry points.

use vstd::prelude::*;

verus! {

/// The successor of `b`, wrapping around at 255.
pub open spec fn spec_bump(b: u8) -> u8 {
    if b == 255 {
        0
    } else {
        (b + 1) as u8
    }
}

/// "Processes" a byte buffer: replaces each byte with its wrapping
/// successor. The raw-pointer entry point of the foreign interface copies
/// its input into a slice and hands it here.
pub fn process_bytes(input: &[u8]) -> (out: Vec<u8>)
    ensures
        out@.len() == input@.len(),
        forall|i: int| 0 <= i < input@.len() ==> out@[i] == spec_bump(input@[i]),
{
    let mut out: Vec<u8> = Vec::new();
    let mut i: usize = 0;
    while i < input.len()
        invariant
            i <= input@.len(),
            out@.len() == i,
            forall|j: int| 0 <= j < i ==> out@[j] == spec_bump(input@[j]),
        decreases input@.len() - i,
    {
        let b = input[i];
        out.push(b.wrapping_add(1));
        i = i + 1;
    }
    out
}

} // verus!
