//! First layer: each byte is XORed with 0x55 and then rotated right by one
//! bit position.

use vstd::prelude::*;

use crate::base85::base85;
use crate::base85::base85_decode;
use crate::base85::base85_input_ok;

verus! {

/// The decoding applied to one byte of this layer: flip every other bit,
/// then rotate the result right by one.
pub open spec fn step1_byte(b: u8) -> u8 {
    ((b ^ 0x55) >> 1) | ((b ^ 0x55) << 7)
}

/// Applies `step1_byte` to every byte of the payload.
pub fn step1_extension(payload: &[u8]) -> (r: Vec<u8>)
    ensures
        r@.len() == payload@.len(),
        forall|i: int| 0 <= i < payload@.len() ==> r@[i] == step1_byte(payload@[i]),
{
    let mut out: Vec<u8> = Vec::new();
    let mut i: usize = 0;
    while i < payload.len()
        invariant
            i <= payload@.len(),
            out@.len() == i,
            forall|j: int| 0 <= j < i ==> out@[j] == step1_byte(payload@[j]),
        decreases payload@.len() - i,
    {
        let x = payload[i] ^ 0x55;
        out.push((x >> 1) | (x << 7));
        i = i + 1;
    }
    out
}

/// The whole layer: strips the Ascii85 layer, then XORs and rotates each
/// byte.
pub fn run_step(payload: &[u8]) -> (r: Vec<u8>)
    requires
        base85_input_ok(payload@),
    ensures
        r@.len() == base85_decode(payload@).len(),
        forall|i: int|
            0 <= i < r@.len() ==> r@[i] == step1_byte(base85_decode(payload@)[i]),
{
    let encode = base85(payload);
    step1_extension(encode.as_slice())
}

} // verus!
