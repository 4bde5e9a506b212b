//! The cryptographic primitives of the pairing exchange and the control
//! channel, supplied by openssl. Each result that is a pure function of
//! its inputs is given a name; the contracts elsewhere in the crate speak
//! of those names.

use vstd::prelude::*;

verus! {

/// The SHA-256 digest of `data` (32 bytes).
pub uninterp spec fn sha256_of(data: Seq<u8>) -> Seq<u8>;

/// The AES-128-ECB encryption of `plaintext` under `key`, padding
/// disabled; defined for a 16-byte key and a block-multiple plaintext.
pub uninterp spec fn aes_ecb_encrypt_of(key: Seq<u8>, plaintext: Seq<u8>) -> Seq<u8>;

/// The AES-128-ECB decryption of `ciphertext` under `key`, padding
/// disabled; defined for a 16-byte key and a block-multiple ciphertext.
pub uninterp spec fn aes_ecb_decrypt_of(key: Seq<u8>, ciphertext: Seq<u8>) -> Seq<u8>;

/// The AES-128-GCM decryption of `ciphertext` under `key` and `iv`
/// against the authentication tag `tag`, with no additional
/// authenticated data: `Some(plaintext)` when the tag verifies,
/// `None` when it does not.
pub uninterp spec fn aes_gcm_open(key: Seq<u8>, iv: Seq<u8>, ciphertext: Seq<u8>, tag: Seq<u8>) -> Option<Seq<u8>>;

/// The RSA-SHA256 signature of `data` under the PEM-encoded private key
/// `key_pem` (deterministic PKCS#1 v1.5 padding); defined where
/// `rsa_key_signs` holds of the key.
pub uninterp spec fn rsa_sha256_signature(key_pem: Seq<u8>, data: Seq<u8>) -> Seq<u8>;

/// `key_pem` parses as a plain RSA private key that signs: the bytes
/// on which `sign` succeeds.
pub uninterp spec fn rsa_key_signs(key_pem: Seq<u8>) -> bool;

/// The signature field of the PEM-encoded X.509 certificate `pem`;
/// defined where `x509_pem_parses` holds.
pub uninterp spec fn x509_signature_of(pem: Seq<u8>) -> Seq<u8>;

/// `pem` parses as an X.509 certificate: the bytes on which
/// `x509_signature_from_pem` succeeds.
pub uninterp spec fn x509_pem_parses(pem: Seq<u8>) -> bool;

/// Relies on `openssl::hash::hash` with `MessageDigest::sha256`: the
/// digest depends on the input bytes alone and is 32 bytes long. The
/// underlying call fails only when the provider cannot allocate.
#[verifier::external_body]
pub(crate) fn sha256(data: &[u8]) -> (r: Vec<u8>)
    ensures
        r@ == sha256_of(data@),
        r@.len() == 32,
{
    openssl::hash::hash(openssl::hash::MessageDigest::sha256(), data).unwrap().to_vec()
}

/// Relies on `openssl::cipher_ctx::CipherCtx` encrypting with
/// `Cipher::aes_128_ecb` and padding disabled: the ciphertext depends on
/// key and plaintext alone and has the plaintext's length.
#[verifier::external_body]
pub(crate) fn encrypt(plaintext: &[u8], key: &[u8]) -> (r: Vec<u8>)
    requires
        key@.len() == 16,
        plaintext@.len() % 16 == 0,
    ensures
        r@ == aes_ecb_encrypt_of(key@, plaintext@),
        r@.len() == plaintext@.len(),
{
    let cipher = openssl::cipher::Cipher::aes_128_ecb();
    let mut context = openssl::cipher_ctx::CipherCtx::new().unwrap();
    context.encrypt_init(Some(cipher), Some(key), None).unwrap();
    context.set_padding(false);
    let mut ciphertext = Vec::with_capacity(plaintext.len());
    context.cipher_update_vec(plaintext, &mut ciphertext).unwrap();
    context.cipher_final_vec(&mut ciphertext).unwrap();
    ciphertext
}

/// Relies on `openssl::cipher_ctx::CipherCtx` decrypting with
/// `Cipher::aes_128_ecb` and padding disabled: the plaintext depends on
/// key and ciphertext alone, has the ciphertext's length, and inverts
/// encryption under the same key.
#[verifier::external_body]
pub(crate) fn decrypt(ciphertext: &[u8], key: &[u8]) -> (r: Vec<u8>)
    requires
        key@.len() == 16,
        ciphertext@.len() % 16 == 0,
    ensures
        r@ == aes_ecb_decrypt_of(key@, ciphertext@),
        r@.len() == ciphertext@.len(),
        forall|pt: Seq<u8>| ciphertext@ == #[trigger] aes_ecb_encrypt_of(key@, pt) ==> r@ == pt,
{
    let cipher = openssl::cipher::Cipher::aes_128_ecb();
    let mut context = openssl::cipher_ctx::CipherCtx::new().unwrap();
    context.decrypt_init(Some(cipher), Some(key), None).unwrap();
    context.set_padding(false);
    let mut plaintext = Vec::with_capacity(ciphertext.len());
    context.cipher_update_vec(ciphertext, &mut plaintext).unwrap();
    context.cipher_final_vec(&mut plaintext).unwrap();
    plaintext
}

/// Law: AES-128-ECB decryption inverts encryption. For any plaintext
/// whose length is a multiple of 16 and any 16-byte key, encrypting
/// and then decrypting under that key gives the plaintext back.
pub fn ecb_round_trip(plaintext: &[u8], key: &[u8]) -> (r: Vec<u8>)
    requires
        key@.len() == 16,
        plaintext@.len() % 16 == 0,
    ensures
        r@ == plaintext@,
{
    let ciphertext = encrypt(plaintext, key);
    decrypt(ciphertext.as_slice(), key)
}

/// Relies on `openssl::symm::decrypt_aead` with `Cipher::aes_128_gcm`
/// and no additional authenticated data: returns the plaintext exactly
/// when the tag authenticates the ciphertext, and fails otherwise.
#[verifier::external_body]
pub(crate) fn aes_128_gcm_decrypt(key: &[u8], iv: &[u8], ciphertext: &[u8], tag: &[u8]) -> (r: Result<Vec<u8>, ()>)
    requires
        key@.len() == 16,
        iv@.len() == 16,
        tag@.len() == 16,
    ensures
        (r is Ok) == (aes_gcm_open(key@, iv@, ciphertext@, tag@) is Some),
        r matches Ok(v) ==> v@ == aes_gcm_open(key@, iv@, ciphertext@, tag@)->Some_0,
        r matches Ok(v) ==> v@.len() == ciphertext@.len(),
{
    openssl::symm::decrypt_aead(
        openssl::symm::Cipher::aes_128_gcm(),
        key,
        Some(iv),
        &[],
        ciphertext,
        tag,
    ).map_err(|_| ())
}

/// Relies on `openssl::pkey::PKey::private_key_from_pem`,
/// `PKeyRef::id` and `openssl::md_ctx::MdCtx` digest signing with
/// `Md::sha256`. Keys that are not plain RSA are turned away before
/// signing, so the signature is the deterministic PKCS#1 v1.5
/// signature of the data under the key, and success depends on the
/// key bytes alone.
#[verifier::external_body]
pub(crate) fn sign(data: &[u8], key_pem: &[u8]) -> (r: Result<Vec<u8>, ()>)
    ensures
        (r is Ok) == rsa_key_signs(key_pem@),
        r matches Ok(v) ==> v@ == rsa_sha256_signature(key_pem@, data@),
{
    let pkey = openssl::pkey::PKey::private_key_from_pem(key_pem).map_err(|_| ())?;
    if pkey.id() != openssl::pkey::Id::RSA {
        return Err(());
    }
    let mut context = openssl::md_ctx::MdCtx::new().map_err(|_| ())?;
    context.digest_sign_init(Some(openssl::md::Md::sha256()), &pkey).map_err(|_| ())?;
    context.digest_sign_update(data).map_err(|_| ())?;
    let mut signature = Vec::new();
    context.digest_sign_final_to_vec(&mut signature).map_err(|_| ())?;
    Ok(signature)
}

/// Relies on `openssl::x509::X509::from_pem` and `X509::signature`:
/// parsing succeeds on a fixed set of byte strings, and the signature
/// field read from a parseable PEM certificate depends on the PEM
/// bytes alone.
#[verifier::external_body]
pub(crate) fn x509_signature_from_pem(pem: &[u8]) -> (r: Result<Vec<u8>, ()>)
    ensures
        (r is Ok) == x509_pem_parses(pem@),
        r matches Ok(v) ==> v@ == x509_signature_of(pem@),
{
    let cert = openssl::x509::X509::from_pem(pem).map_err(|_| ())?;
    Ok(cert.signature().as_slice().to_vec())
}

/// Relies on `openssl::rand::rand_bytes`: fills the whole 16-byte buffer.
/// Nothing is assumed of the values drawn.
#[verifier::external_body]
pub(crate) fn random_bytes_16() -> (r: Vec<u8>)
    ensures
        r@.len() == 16,
{
    let mut buffer = [0u8; 16];
    openssl::rand::rand_bytes(&mut buffer).unwrap();
    buffer.to_vec()
}

} // verus!
