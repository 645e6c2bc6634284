//! The module label: the first eight bytes of the module's SHA-256 hash,
//! rendered as lowercase hexadecimal digits.

use sha2::Digest;
use vstd::prelude::*;

verus! {

/// One hexadecimal digit, lowercase.
pub open spec fn spec_hex_digit(n: u8) -> char {
    if n == 0 {
        '0'
    } else if n == 1 {
        '1'
    } else if n == 2 {
        '2'
    } else if n == 3 {
        '3'
    } else if n == 4 {
        '4'
    } else if n == 5 {
        '5'
    } else if n == 6 {
        '6'
    } else if n == 7 {
        '7'
    } else if n == 8 {
        '8'
    } else if n == 9 {
        '9'
    } else if n == 10 {
        'a'
    } else if n == 11 {
        'b'
    } else if n == 12 {
        'c'
    } else if n == 13 {
        'd'
    } else if n == 14 {
        'e'
    } else {
        'f'
    }
}

/// A byte as two lowercase hexadecimal digits, high nibble first.
pub open spec fn spec_hex_byte(b: u8) -> Seq<char> {
    seq![spec_hex_digit(b / 16), spec_hex_digit(b % 16)]
}

/// A byte string as lowercase hexadecimal, byte by byte in order.
pub open spec fn spec_hex(bs: Seq<u8>) -> Seq<char>
    decreases bs.len(),
{
    if bs.len() == 0 {
        Seq::empty()
    } else {
        spec_hex(bs.drop_last()) + spec_hex_byte(bs.last())
    }
}

/// The first eight bytes of the SHA-256 digest of a byte string. The
/// digest itself is left unstated: it depends on the bytes alone, and
/// only its length and determinism are relied on.
pub uninterp spec fn sha256_8(bs: Seq<u8>) -> Seq<u8>;

/// Relies on sha2::Sha256::digest: the 32-byte hash of the input, a
/// function of the input bytes alone; its first eight bytes are kept.
#[verifier::external_body]
fn sha256_prefix8(bytes: &[u8]) -> (r: Vec<u8>)
    ensures
        r@ == sha256_8(bytes@),
        r@.len() == 8,
{
    sha2::Sha256::digest(bytes)[..8].to_vec()
}

/// Relies on hex::encode: every byte becomes two lowercase hexadecimal
/// digits, high nibble first, in byte order.
#[verifier::external_body]
fn hex_encode(bytes: &Vec<u8>) -> (r: String)
    ensures
        r@ == spec_hex(bytes@),
{
    hex::encode(bytes)
}

/// The label a module's bytes get in the report: the first eight bytes of
/// their SHA-256 hash in lowercase hexadecimal.
pub fn wasm_hash_label(bytes: &[u8]) -> (r: String)
    ensures
        r@ == spec_hex(sha256_8(bytes@)),
        r@.len() == 16,
{
    let prefix = sha256_prefix8(bytes);
    let r = hex_encode(&prefix);
    proof {
        lemma_hex_len(prefix@);
    }
    r
}

proof fn lemma_hex_len(bs: Seq<u8>)
    ensures
        spec_hex(bs).len() == 2 * bs.len(),
    decreases bs.len(),
{
    if bs.len() > 0 {
        lemma_hex_len(bs.drop_last());
    }
}

} // verus!
