use openssl::aes::{wrap_key, AesKey};
use openssl::symm::{encrypt, Cipher};
use tomtel::step5::step5_extension;

fn build_payload(kek: &[u8; 32], iv: [u8; 8], key: &[u8; 32], civ: [u8; 16], plain: &[u8]) -> Vec<u8> {
    let wrap = AesKey::new_encrypt(kek).unwrap();
    let mut wrapped = [0u8; 40];
    wrap_key(&wrap, Some(iv), &mut wrapped, key).unwrap();
    let ciphertext = encrypt(Cipher::aes_256_ctr(), key, Some(&civ), plain).unwrap();
    let mut payload = Vec::new();
    payload.extend_from_slice(kek);
    payload.extend_from_slice(&iv);
    payload.extend_from_slice(&wrapped);
    payload.extend_from_slice(&civ);
    payload.extend_from_slice(&ciphertext);
    payload
}

#[test]
fn test_step5_unwraps_and_decrypts() {
    let kek = [7u8; 32];
    let iv = [0xa6u8; 8];
    let key = [42u8; 32];
    let civ = [3u8; 16];
    let plain = b"the core of the onion";
    let payload = build_payload(&kek, iv, &key, civ, plain);
    let r = step5_extension(&payload);
    assert_eq!(r, Some(plain.to_vec()));
}

#[test]
fn test_step5_rejects_corrupt_wrapped_key() {
    let kek = [7u8; 32];
    let iv = [0xa6u8; 8];
    let key = [42u8; 32];
    let civ = [3u8; 16];
    let plain = b"payload";
    let mut payload = build_payload(&kek, iv, &key, civ, plain);
    payload[41] ^= 0xff; // damage the wrapped key
    assert_eq!(step5_extension(&payload), None);
}
