//! Fifth layer: the payload carries a key-encrypting key (32 bytes), a
//! key-wrap IV (8 bytes), a wrapped AES key (40 bytes) and a cipher IV
//! (16 bytes); the rest is AES-256-CTR ciphertext. The wrapped key is
//! unwrapped per RFC 3394 and the ciphertext decrypted with it.

use vstd::prelude::*;

use crate::base85::base85;
use crate::base85::base85_decode;
use crate::base85::base85_input_ok;

verus! {

/// What RFC 3394 AES key unwrap yields for a key-encrypting key, an IV and
/// wrapped bytes; a function of those arguments alone.
pub uninterp spec fn aes_unwrap_of(kek: Seq<u8>, iv: Seq<u8>, wrapped: Seq<u8>) -> Seq<u8>;

/// Whether RFC 3394 AES key unwrap accepts the wrapped bytes — its
/// integrity check compares the recovered header against the IV — likewise
/// a function of those arguments alone.
pub uninterp spec fn aes_unwrap_ok(kek: Seq<u8>, iv: Seq<u8>, wrapped: Seq<u8>) -> bool;

/// What AES-256-CTR decryption yields for a key, an IV and a ciphertext; a
/// function of those arguments alone.
pub uninterp spec fn aes256_ctr_of(key: Seq<u8>, iv: Seq<u8>, data: Seq<u8>) -> Seq<u8>;

/// Whether AES-256-CTR decryption of the ciphertext succeeds; a function
/// of those arguments alone.
pub uninterp spec fn aes256_ctr_ok(key: Seq<u8>, iv: Seq<u8>, data: Seq<u8>) -> bool;

/// Relies on openssl::aes::AesKey::new_decrypt, which succeeds on every
/// 256-bit key (it fails only on a key that is not 128, 192 or 256 bits),
/// and on openssl::aes::unwrap_key (RFC 3394 key unwrap): both are pure
/// computations, so whether the unwrap's integrity check passes, and the
/// key it recovers, depend on the key-encrypting key, the IV and the
/// wrapped bytes alone; on success exactly eight fewer bytes than the
/// wrapped input are written, and an integrity failure returns an error,
/// never a wrong key.
#[verifier::external_body]
fn aes_unwrap_256(kek: &[u8], iv: [u8; 8], wrapped: &[u8]) -> (r: Option<Vec<u8>>)
    requires
        kek@.len() == 32,
        wrapped@.len() == 40,
    ensures
        r is Some <==> aes_unwrap_ok(kek@, iv@, wrapped@),
        r matches Some(v) ==> v@ == aes_unwrap_of(kek@, iv@, wrapped@) && v@.len() == 32,
{
    let key = match openssl::aes::AesKey::new_decrypt(kek) {
        Ok(k) => k,
        Err(_) => return None,
    };
    let mut out = vec![0u8; 32];
    match openssl::aes::unwrap_key(&key, Some(iv), &mut out, wrapped) {
        Ok(_) => Some(out),
        Err(_) => None,
    }
}

/// Relies on openssl::symm::decrypt with Cipher::aes_256_ctr: the cipher
/// is deterministic, so whether decryption succeeds, and the plaintext it
/// yields, depend on the key, the IV and the ciphertext alone; CTR is a
/// stream mode, so the plaintext is as long as the ciphertext. The length
/// bound keeps clear of Crypter::update, which panics when a buffer does
/// not fit in a C int.
#[verifier::external_body]
fn aes256_ctr_decrypt(key: &[u8], iv: &[u8], data: &[u8]) -> (r: Option<Vec<u8>>)
    requires
        key@.len() == 32,
        iv@.len() == 16,
        data@.len() < 0x8000_0000,
    ensures
        r is Some <==> aes256_ctr_ok(key@, iv@, data@),
        r matches Some(v) ==> v@ == aes256_ctr_of(key@, iv@, data@) && v@.len() == data@.len(),
{
    match openssl::symm::decrypt(openssl::symm::Cipher::aes_256_ctr(), key, Some(iv), data) {
        Ok(v) => Some(v),
        Err(_) => None,
    }
}

/// The plaintext of an already Ascii85-decoded payload: the remainder past
/// byte 96, decrypted with the unwrapped key and the cipher IV.
pub open spec fn step5_plain(s: Seq<u8>) -> Seq<u8>
    recommends
        s.len() >= 96,
{
    aes256_ctr_of(
        aes_unwrap_of(s.subrange(0, 32), s.subrange(32, 40), s.subrange(40, 80)),
        s.subrange(80, 96),
        s.skip(96),
    )
}

/// When the layer succeeds: the key unwrap's integrity check passes and
/// the decryption with the unwrapped key goes through.
pub open spec fn step5_ok(s: Seq<u8>) -> bool
    recommends
        s.len() >= 96,
{
    &&& aes_unwrap_ok(s.subrange(0, 32), s.subrange(32, 40), s.subrange(40, 80))
    &&& aes256_ctr_ok(
        aes_unwrap_of(s.subrange(0, 32), s.subrange(32, 40), s.subrange(40, 80)),
        s.subrange(80, 96),
        s.skip(96),
    )
}

/// Unwraps the payload's encrypted key with its key-encrypting key, then
/// decrypts the remainder with AES-256-CTR. `None` exactly when openssl
/// rejects the key unwrap (its integrity check fails) or the decryption.
pub fn step5_extension(payload: &[u8]) -> (r: Option<Vec<u8>>)
    requires
        payload@.len() >= 96,
        payload@.len() - 96 < 0x8000_0000,
    ensures
        r is Some <==> step5_ok(payload@),
        r matches Some(v) ==> v@ == step5_plain(payload@) && v@.len() == payload@.len() - 96,
{
    let n = payload.len();
    let kek = &payload[0..32];
    let iv: [u8; 8] = [
        payload[32],
        payload[33],
        payload[34],
        payload[35],
        payload[36],
        payload[37],
        payload[38],
        payload[39],
    ];
    let wrapped = &payload[40..80];
    proof {
        assert(iv@ =~= payload@.subrange(32, 40));
    }
    let real_key = match aes_unwrap_256(kek, iv, wrapped) {
        Some(k) => k,
        None => {
            return None;
        },
    };
    let civ = &payload[80..96];
    let data = &payload[96..n];
    proof {
        assert(data@ =~= payload@.skip(96));
    }
    aes256_ctr_decrypt(real_key.as_slice(), civ, data)
}

/// The whole layer: strips the Ascii85 layer, then unwraps the key and
/// decrypts the ciphertext.
pub fn run_step(payload: &[u8]) -> (r: Option<Vec<u8>>)
    requires
        base85_input_ok(payload@),
        base85_decode(payload@).len() >= 96,
        base85_decode(payload@).len() - 96 < 0x8000_0000,
    ensures
        r is Some <==> step5_ok(base85_decode(payload@)),
        r matches Some(v) ==> v@ == step5_plain(base85_decode(payload@)) && v@.len()
            == base85_decode(payload@).len() - 96,
{
    let encode = base85(payload);
    step5_extension(encode.as_slice())
}

} // verus!
