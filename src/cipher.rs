//! The password-keyed block cipher: AES-256 in CBC mode with PKCS#7 padding,
//! as magic_crypt's `MagicCrypt256` provides it.
//!
//! The key is the SHA-256 digest of the password's UTF-8 bytes and the IV is
//! sixteen zero bytes. Nothing random enters: the same password and plaintext
//! always give the same ciphertext. Files written by earlier runs stay readable
//! only as long as this scheme is kept exactly.
use crate::codec::result_view;
use crate::naming::Direction;
use magic_crypt::{MagicCrypt256, MagicCryptError, MagicCryptTrait};
use vstd::prelude::*;

verus! {

/// The cipher's block length in bytes.
pub const BLOCK_LEN: usize = 16;

/// The ciphertext that AES-256-CBC with PKCS#7 padding makes of `plain` under the
/// key and IV derived from `password`.
pub uninterp spec fn aes256_cbc_ciphertext(password: Seq<char>, plain: Seq<u8>) -> Seq<u8>;

/// What decrypting `ciphertext` under `password` gives: the plaintext when the
/// blocks decrypt to a correctly padded message, `None` otherwise.
pub uninterp spec fn aes256_cbc_plaintext(password: Seq<char>, ciphertext: Seq<u8>) -> Option<
    Seq<u8>,
>;

/// The length of the ciphertext of a plaintext of `n` bytes: the padding always
/// adds between one byte and one whole block.
pub open spec fn ciphertext_len(n: int) -> int {
    (n / 16 + 1) * 16
}

/// magic_crypt's error type, carried unopened until it is reported as a
/// `CipherError`.
#[verifier::external_type_specification]
#[verifier::external_body]
pub struct ExMagicCryptError(MagicCryptError);

/// Relies on magic_crypt's `MagicCrypt256::new(password, None)` followed by
/// `encrypt_bytes_to_bytes`: the output is a function of password and data,
/// `(len + 16) & !0xF` bytes long, and `decrypt_bytes_to_bytes` under the same
/// password gives the data back (CBC decryption inverts CBC encryption, and
/// PKCS#7 unpadding removes the padding just added).
#[verifier::external_body]
fn aes256_encrypt(password: &str, plain: &[u8]) -> (r: Vec<u8>)
    requires
        plain@.len() + BLOCK_LEN <= isize::MAX,
    ensures
        r@ == aes256_cbc_ciphertext(password@, plain@),
        r@.len() == ciphertext_len(plain@.len() as int),
        aes256_cbc_plaintext(password@, r@) == Some(plain@),
{
    MagicCrypt256::new(password, None::<String>).encrypt_bytes_to_bytes(plain)
}

/// Relies on magic_crypt's `MagicCrypt256::new(password, None)` followed by
/// `decrypt_bytes_to_bytes`: it fails on input whose length is not a multiple
/// of the block length and on input whose last block does not unpad; what it
/// returns is the input with the padding (at least one byte) removed.
#[verifier::external_body]
fn aes256_decrypt(password: &str, ciphertext: &[u8]) -> (r: Result<Vec<u8>, MagicCryptError>)
    ensures
        match r {
            Ok(p) => aes256_cbc_plaintext(password@, ciphertext@) == Some(p@),
            Err(_) => aes256_cbc_plaintext(password@, ciphertext@) is None,
        },
        r is Ok ==> ciphertext@.len() % 16 == 0 && r->Ok_0@.len() < ciphertext@.len(),
{
    MagicCrypt256::new(password, None::<String>).decrypt_bytes_to_bytes(ciphertext)
}

/// Why a decryption failed. The cause is kept generic on purpose: no key
/// material or cipher state is revealed.
#[derive(Clone, Copy, Debug, PartialEq, Eq, Structural)]
pub enum CipherError {
    /// The input is not a ciphertext made under this password: the password is
    /// wrong, or the data is truncated, corrupted or was never encrypted.
    InvalidCiphertextOrPassword,
}

impl CipherError {
    /// A short description for the user; it says nothing of the key.
    pub fn message(&self) -> (r: &'static str)
        ensures
            r@ == "Failed to decrypt file"@,
    {
        "Failed to decrypt file"
    }
}

/// The outcome of decrypting `ciphertext` under `password`.
pub open spec fn decryption(password: Seq<char>, ciphertext: Seq<u8>) -> Result<
    Seq<u8>,
    CipherError,
> {
    match aes256_cbc_plaintext(password, ciphertext) {
        Some(p) => Ok(p),
        None => Err(CipherError::InvalidCiphertextOrPassword),
    }
}

/// Encrypts `bytes` under `password`. Never fails; the same arguments always
/// give the same ciphertext, which is block aligned, longer than `bytes`, and
/// decrypts under the same password to `bytes` again.
pub fn encrypt_bytes(bytes: Vec<u8>, password: String) -> (r: Vec<u8>)
    requires
        bytes@.len() + BLOCK_LEN <= isize::MAX,
    ensures
        r@ == aes256_cbc_ciphertext(password@, bytes@),
        r@.len() == ciphertext_len(bytes@.len() as int),
        r@.len() % 16 == 0,
        r@.len() > bytes@.len(),
        decryption(password@, r@) == Ok::<Seq<u8>, CipherError>(bytes@),
{
    aes256_encrypt(password.as_str(), bytes.as_slice())
}

/// Decrypts `bytes` under `password`, failing with
/// `CipherError::InvalidCiphertextOrPassword` exactly when magic_crypt rejects
/// the data under this password: when it is not a whole number of blocks, or
/// when its decryption does not end in a padding that magic_crypt's PKCS#7
/// unpadding accepts. That unpadding also accepts a pad value larger than one
/// block (up to the whole message), so data that was never encrypted under this
/// password may still decrypt.
pub fn decrypt_bytes(bytes: Vec<u8>, password: String) -> (r: Result<Vec<u8>, CipherError>)
    ensures
        match r {
            Ok(p) => decryption(password@, bytes@) == Ok::<Seq<u8>, CipherError>(p@),
            Err(e) => decryption(password@, bytes@) == Err::<Seq<u8>, CipherError>(e),
        },
        r is Ok ==> bytes@.len() % 16 == 0 && r->Ok_0@.len() < bytes@.len(),
{
    match aes256_decrypt(password.as_str(), bytes.as_slice()) {
        Ok(p) => Ok(p),
        Err(_) => Err(CipherError::InvalidCiphertextOrPassword),
    }
}

/// Encryption is deterministic: two ciphertexts that `encrypt_bytes` returned
/// for equal bytes under equal passwords are byte for byte the same, however
/// many calls were made in between.
pub proof fn lemma_encryption_deterministic(
    password: Seq<char>,
    bytes: Seq<u8>,
    first: Seq<u8>,
    second: Seq<u8>,
)
    requires
        first == aes256_cbc_ciphertext(password, bytes),
        second == aes256_cbc_ciphertext(password, bytes),
    ensures
        first == second,
{
}

/// What transforming `bytes` under `password` in `direction` gives.
pub open spec fn transformation(direction: Direction, password: Seq<char>, bytes: Seq<u8>) -> Result<
    Seq<u8>,
    CipherError,
> {
    match direction {
        Direction::Encrypt => Ok(aes256_cbc_ciphertext(password, bytes)),
        Direction::Decrypt => decryption(password, bytes),
    }
}

/// Encrypts or decrypts `bytes` under `password`. Encryption always succeeds,
/// and its output transforms back to `bytes` in the other direction.
pub fn transform(direction: Direction, bytes: Vec<u8>, password: String) -> (r: Result<
    Vec<u8>,
    CipherError,
>)
    requires
        bytes@.len() + BLOCK_LEN <= isize::MAX,
    ensures
        result_view(r) == transformation(direction, password@, bytes@),
        direction == Direction::Encrypt ==> r is Ok && transformation(
            Direction::Decrypt,
            password@,
            r->Ok_0@,
        ) == Ok::<Seq<u8>, CipherError>(bytes@),
        r is Ok ==> r->Ok_0@.len() <= bytes@.len() + BLOCK_LEN,
{
    match direction {
        Direction::Encrypt => Ok(encrypt_bytes(bytes, password)),
        Direction::Decrypt => decrypt_bytes(bytes, password),
    }
}

} // verus!
