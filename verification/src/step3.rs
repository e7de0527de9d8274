//! Third layer: the payload is XOR-encrypted with a repeating 32-byte key.
//! The key is recovered from known plaintext: positions 32..60 of the
//! payload decrypt to `=`, and positions 28..32 decrypt to `ic ]`, which
//! together expose all 32 key bytes (rotated into position).

use vstd::prelude::*;

use crate::base85::base85;
use crate::base85::base85_decode;
use crate::base85::base85_input_ok;

verus! {

/// The known plaintext at payload positions 28..32.
pub open spec fn pad_byte(j: int) -> u8 {
    if j == 0 {
        0x69
    } else if j == 1 {
        0x63
    } else if j == 2 {
        0x20
    } else {
        0x5d
    }
}

/// Key byte `k` of the repeating 32-byte key, as the known plaintext
/// exposes it: bytes 0..28 come from the `=` run at payload positions
/// 32..60, bytes 28..32 from the `ic ]` run at positions 28..32.
pub open spec fn key_byte(s: Seq<u8>, k: int) -> u8
    recommends
        s.len() >= 60,
        0 <= k < 32,
{
    if k < 28 {
        s[32 + k] ^ 0x3d
    } else {
        s[k] ^ pad_byte(k - 28)
    }
}

/// The whole layer on an already Ascii85-decoded payload: every byte XORed
/// with the recovered key, repeated every 32 bytes.
pub open spec fn step3_decode(s: Seq<u8>) -> Seq<u8>
    recommends
        s.len() >= 60,
{
    Seq::new(s.len(), |i: int| s[i] ^ key_byte(s, i % 32))
}

/// Recovers the repeating key from the known plaintext and decrypts the
/// payload with it.
pub fn step3_extension(payload: &[u8]) -> (r: Vec<u8>)
    requires
        payload@.len() >= 60,
    ensures
        r@ == step3_decode(payload@),
{
    let n = payload.len();
    // key bytes as they sit in the stream: first the four exposed by `ic ]`,
    // then the 28 exposed by the run of `=`
    let mut key: Vec<u8> = Vec::with_capacity(32);
    key.push(payload[28] ^ 0x69);
    key.push(payload[29] ^ 0x63);
    key.push(payload[30] ^ 0x20);
    key.push(payload[31] ^ 0x5d);
    let mut t: usize = 32;
    while t < 60
        invariant
            32 <= t <= 60,
            payload@.len() >= 60,
            key@.len() == t - 28,
            forall|j: int| 0 <= j < 4 ==> key@[j] == (payload@[28 + j] ^ pad_byte(j)),
            forall|j: int| 4 <= j < t - 28 ==> key@[j] == (payload@[28 + j] ^ 0x3d),
        decreases 60 - t,
    {
        key.push(payload[t] ^ 0x3d);
        t = t + 1;
    }
    // the stream starts at payload position 28, so the key is rotated left
    // by four to align key byte 0 with payload position 0
    let mut rot: Vec<u8> = Vec::with_capacity(32);
    let mut i: usize = 0;
    while i < 32
        invariant
            i <= 32,
            payload@.len() >= 60,
            key@.len() == 32,
            forall|j: int| 0 <= j < 4 ==> key@[j] == (payload@[28 + j] ^ pad_byte(j)),
            forall|j: int| 4 <= j < 32 ==> key@[j] == (payload@[28 + j] ^ 0x3d),
            rot@.len() == i,
            forall|j: int| 0 <= j < i ==> rot@[j] == key_byte(payload@, j),
        decreases 32 - i,
    {
        let src = if i + 4 < 32 {
            i + 4
        } else {
            i + 4 - 32
        };
        rot.push(key[src]);
        i = i + 1;
    }
    // decrypt
    let mut out: Vec<u8> = Vec::new();
    let mut p: usize = 0;
    while p < n
        invariant
            p <= n,
            n == payload@.len(),
            payload@.len() >= 60,
            rot@.len() == 32,
            forall|j: int| 0 <= j < 32 ==> rot@[j] == key_byte(payload@, j),
            out@.len() == p,
            forall|j: int| 0 <= j < p ==> out@[j] == (payload@[j] ^ key_byte(payload@, j % 32)),
        decreases n - p,
    {
        out.push(payload[p] ^ rot[p % 32]);
        p = p + 1;
    }
    proof {
        assert(out@ =~= step3_decode(payload@));
    }
    out
}

/// The whole layer: strips the Ascii85 layer, then recovers the XOR key
/// and decrypts.
pub fn run_step(payload: &[u8]) -> (r: Vec<u8>)
    requires
        base85_input_ok(payload@),
        base85_decode(payload@).len() >= 60,
    ensures
        r@ == step3_decode(base85_decode(payload@)),
{
    let encode = base85(payload);
    step3_extension(encode.as_slice())
}

} // verus!
