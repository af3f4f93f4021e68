use vstd::prelude::*;

verus! {

/// The SHA-256 digest of a byte string.
pub uninterp spec fn sha256_of(data: Seq<u8>) -> Seq<u8>;

/// AES-128-CBC encryption (with the cipher's own block padding) under a key and IV.
pub uninterp spec fn aes128_cbc_encrypt_of(key: Seq<u8>, iv: Seq<u8>, data: Seq<u8>) -> Seq<u8>;

/// AES-128-CBC decryption under a key and IV; `None` where the data is not a valid
/// ciphertext (its length is not a whole number of blocks, or its padding is wrong).
pub uninterp spec fn aes128_cbc_decrypt_of(key: Seq<u8>, iv: Seq<u8>, data: Seq<u8>) -> Option<Seq<u8>>;

/// Relies on sha2::Sha256::digest: the 32-byte SHA-256 digest of the input.
#[verifier::external_body]
pub(crate) fn sha256(data: &[u8]) -> (r: [u8; 32])
    ensures
        r@ == sha256_of(data@),
{
    <sha2::Sha256 as sha2::Digest>::digest(data).into()
}

/// The longest input the cipher takes: openssl passes lengths as a C `int`.
pub const CIPHER_INPUT_MAX: usize = 0x7fff_ffff;

/// Relies on openssl::symm::encrypt with AES-128-CBC: with a 16-byte key and IV it
/// encrypts any input, padding it to whole blocks (openssl fails here only when out
/// of memory). Key and IV of other sizes are left out: openssl asserts on a short IV.
#[verifier::external_body]
pub(crate) fn aes_encrypt(key: &[u8], iv: &[u8], data: &[u8]) -> (r: Option<Vec<u8>>)
    requires
        key@.len() == 16,
        iv@.len() == 16,
        data@.len() <= CIPHER_INPUT_MAX,
    ensures
        r is Some,
        r matches Some(v) ==> v@ == aes128_cbc_encrypt_of(key@, iv@, data@),
{
    openssl::symm::encrypt(openssl::symm::Cipher::aes_128_cbc(), key, Some(iv), data).ok()
}

/// Relies on openssl::symm::decrypt with AES-128-CBC and a 16-byte key and IV: the
/// plaintext, or `None` where openssl rejects the data (bad block length or padding).
#[verifier::external_body]
pub(crate) fn aes_decrypt(key: &[u8], iv: &[u8], data: &[u8]) -> (r: Option<Vec<u8>>)
    requires
        key@.len() == 16,
        iv@.len() == 16,
        data@.len() <= CIPHER_INPUT_MAX,
    ensures
        match r {
            Some(v) => aes128_cbc_decrypt_of(key@, iv@, data@) == Some(v@),
            None => aes128_cbc_decrypt_of(key@, iv@, data@) is None,
        },
{
    openssl::symm::decrypt(openssl::symm::Cipher::aes_128_cbc(), key, Some(iv), data).ok()
}

/// Relies on openssl::rand::rand_bytes: sixteen random bytes, or `None` where openssl fails.
#[verifier::external_body]
pub(crate) fn random_iv() -> (r: Option<[u8; 16]>)
{
    let mut iv = [0u8; 16];
    match openssl::rand::rand_bytes(&mut iv) {
        Ok(()) => Some(iv),
        Err(_) => None,
    }
}

} // verus!
