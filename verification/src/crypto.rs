//! Protection of identity fields at rest and of credentials.
//!
//! Identity fields are encrypted with AES-128 in CBC mode under PKCS#7 padding
//! and stored as base64 text. Credentials are stored as Argon2 hashes in PHC
//! string form. The cipher, the text encoding and the hash come from outside
//! crates; each call sits in a small function whose contract is taken on trust
//! and says so in its doc comment.

use argon2::PasswordHasher;
use argon2::PasswordVerifier;
use block_modes::BlockMode;
use vstd::prelude::*;
use vstd::slice::slice_to_vec;
use vstd::string::StringSliceAdditionalSpecFns;
use vstd::utf8::encode_utf8;

verus! {

/// The length of an AES-128 key, and of a CBC initialisation vector, in bytes.
pub const KEY_LEN: usize = 16;

/// The cipher's block length in bytes.
pub const BLOCK_LEN: usize = 16;

/// Why a cryptographic operation failed.
#[derive(Debug, Clone, Copy, PartialEq, Eq, Structural)]
pub enum CryptoError {
    /// The key or the initialisation vector is not 16 bytes long.
    InvalidKeyIvLength,
    /// The stored text is not base64.
    InvalidEncoding,
    /// The ciphertext is not a whole number of blocks, or its padding is
    /// malformed after decryption.
    InvalidPadding,
    /// The password-hashing function reported an error.
    Hashing,
    /// The message is longer than the cipher takes, or the text is longer
    /// than the decoder takes.
    TooLong,
}

/// The bytes that AES-128-CBC with PKCS#7 padding produces for `message` under
/// `key` and `iv`.
pub uninterp spec fn cbc_ciphertext(key: Seq<u8>, iv: Seq<u8>, message: Seq<u8>) -> Seq<u8>;

/// The message that AES-128-CBC with PKCS#7 padding recovers from `ciphertext`
/// under `key` and `iv`, or `None` where it rejects the ciphertext.
pub uninterp spec fn cbc_plaintext(key: Seq<u8>, iv: Seq<u8>, ciphertext: Seq<u8>) -> Option<
    Seq<u8>,
>;

/// The standard padded base64 text of `bytes`.
pub uninterp spec fn base64_text(bytes: Seq<u8>) -> Seq<char>;

/// The bytes that `text` stands for in standard padded base64, or `None`
/// where `text` is not such an encoding.
pub uninterp spec fn base64_bytes(text: Seq<char>) -> Option<Seq<u8>>;

/// Whether Argon2, with its default parameters as the verifier, accepts
/// `secret` against the PHC string `hash`.
pub uninterp spec fn credential_accepted(secret: Seq<char>, hash: Seq<char>) -> bool;

#[verifier::external_type_specification]
#[verifier::external_body]
pub struct ExDecodeError(base64::DecodeError);

#[verifier::external_type_specification]
#[verifier::external_body]
pub struct ExPasswordHashError(argon2::password_hash::Error);

/// The length of the ciphertext of a message of `n` bytes: the message is
/// always padded, by one to sixteen bytes, to a whole number of blocks.
pub open spec fn padded_len(n: int) -> int {
    16 * (n / 16) + 16
}

/// Trusted: `block_modes::BlockMode::encrypt` on a `Cbc<Aes128, Pkcs7>` made by
/// `new_from_slices(key, iv)`. The first `pos` bytes of `buffer` are the
/// message, the rest is room for the padding. With a key and an IV of 16 bytes
/// and a buffer of exactly the padded length, both calls succeed; the result
/// is the named ciphertext, it fills the buffer, and decrypting it under the
/// same key and IV gives the message back.
#[verifier::external_body]
fn cbc_encrypt(key: &[u8], iv: &[u8], buffer: Vec<u8>, pos: usize) -> (r: Option<Vec<u8>>)
    requires
        key@.len() == 16,
        iv@.len() == 16,
        buffer@.len() == padded_len(pos as int),
    ensures
        r is Some,
        r matches Some(ct) ==> ct@.len() == padded_len(pos as int),
        r matches Some(ct) ==> ct@ == cbc_ciphertext(key@, iv@, buffer@.take(pos as int)),
        r matches Some(ct) ==> cbc_plaintext(key@, iv@, ct@) == Some(buffer@.take(pos as int)),
{
    let mut buffer = buffer;
    match block_modes::Cbc::<aes::Aes128, block_modes::block_padding::Pkcs7>::new_from_slices(
        key,
        iv,
    ) {
        Ok(cipher) => match cipher.encrypt(&mut buffer, pos) {
            Ok(ciphertext) => Some(ciphertext.to_vec()),
            Err(_) => None,
        },
        Err(_) => None,
    }
}

/// Trusted: `block_modes::BlockMode::decrypt` on a `Cbc<Aes128, Pkcs7>` made by
/// `new_from_slices(key, iv)`. The result is the named plaintext; `None`
/// stands for the crate's `BlockModeError`. A ciphertext that is empty or no
/// whole number of blocks is rejected, and a message that is recovered is
/// shorter than the ciphertext, by the padding that was taken off.
#[verifier::external_body]
fn cbc_decrypt(key: &[u8], iv: &[u8], ciphertext: Vec<u8>) -> (r: Option<Vec<u8>>)
    requires
        key@.len() == 16,
        iv@.len() == 16,
    ensures
        opt_bytes(r) == cbc_plaintext(key@, iv@, ciphertext@),
        r is Some ==> ciphertext@.len() > 0 && ciphertext@.len() % 16 == 0,
        r matches Some(message) ==> message@.len() < ciphertext@.len(),
{
    let mut buffer = ciphertext;
    match block_modes::Cbc::<aes::Aes128, block_modes::block_padding::Pkcs7>::new_from_slices(
        key,
        iv,
    ) {
        Ok(cipher) => match cipher.decrypt(&mut buffer) {
            Ok(message) => Some(message.to_vec()),
            Err(_) => None,
        },
        Err(_) => None,
    }
}

/// The length in bytes of the base64 text of `n` bytes: four characters for
/// every three bytes or part of three.
pub open spec fn base64_len(n: int) -> int {
    n / 3 * 4 + if n % 3 == 0 {
        0int
    } else {
        4int
    }
}

/// Trusted: `base64::encode`. The result is the named text, it is as long as
/// the crate's `encoded_size` says, and decoding it gives the bytes back.
/// The crate panics where the encoded length does not fit in `usize`; the
/// precondition leaves those inputs out.
#[verifier::external_body]
fn base64_encode(bytes: &[u8]) -> (text: String)
    requires
        bytes@.len() / 3 * 4 + 4 <= usize::MAX,
    ensures
        text@ == base64_text(bytes@),
        encode_utf8(text@).len() == base64_len(bytes@.len() as int),
        base64_bytes(text@) == Some(bytes@),
{
    base64::encode(bytes)
}

/// How much the decoder adds to the length of a text before it divides it
/// into chunks. A text whose length in bytes plus this does not fit in `usize`
/// makes the decoder panic.
pub const DECODE_MARGIN: usize = 7;

/// Trusted: `base64::decode`. `Ok` carries the named bytes; an error means
/// that the text has none. The crate panics where the text's length plus
/// three, or plus seven, overflows; the precondition leaves those inputs out.
#[verifier::external_body]
fn base64_decode(text: &str) -> (r: Result<Vec<u8>, base64::DecodeError>)
    requires
        text.spec_bytes().len() + DECODE_MARGIN <= usize::MAX,
    ensures
        r matches Ok(bytes) ==> base64_bytes(text@) == Some(bytes@),
        r is Err ==> base64_bytes(text@) is None,
{
    base64::decode(text)
}

/// The longest secret, in bytes, that Argon2 hashes.
pub const MAX_SECRET_LEN: u64 = 0xFFFF_FFFF;

/// Whether a secret is short enough to be hashed.
pub open spec fn hashable(secret: Seq<char>) -> bool {
    encode_utf8(secret).len() <= MAX_SECRET_LEN
}

/// Trusted: `PasswordHasher::hash_password` on `Argon2::default()`, under a
/// salt from `SaltString::generate` on the thread-local generator of `rand`,
/// with the hash rendered as a PHC string. The salt is random, so no two
/// calls need agree. The call succeeds exactly when the secret is not longer
/// than the crate's `MAX_PWD_LEN`; the generated salt always has a length
/// that the crate takes. A hash that comes back is one that the verifier
/// accepts for the same secret.
#[verifier::external_body]
fn argon2_hash(secret: &str) -> (r: Result<String, argon2::password_hash::Error>)
    ensures
        r is Ok <==> hashable(secret@),
        r matches Ok(hash) ==> credential_accepted(secret@, hash@),
{
    let salt = argon2::password_hash::SaltString::generate(&mut rand::thread_rng());
    match argon2::Argon2::default().hash_password(secret.as_bytes(), &salt) {
        Ok(hash) => Ok(hash.to_string()),
        Err(e) => Err(e),
    }
}

/// Trusted: `PasswordHash::new` on `hash`, then `PasswordVerifier::verify_password`
/// on `Argon2::default()`. The result is the named verdict; a string that does
/// not parse as a PHC hash is not accepted.
#[verifier::external_body]
fn argon2_verify(secret: &str, hash: &str) -> (accepted: bool)
    ensures
        accepted == credential_accepted(secret@, hash@),
{
    match argon2::PasswordHash::new(hash) {
        Ok(parsed) => argon2::Argon2::default().verify_password(secret.as_bytes(), &parsed).is_ok(),
        Err(_) => false,
    }
}

/// The bytes of an optional vector.
pub open spec fn opt_bytes(v: Option<Vec<u8>>) -> Option<Seq<u8>> {
    match v {
        Some(b) => Some(b@),
        None => None,
    }
}

/// The characters of a text result.
pub open spec fn text_of(r: Result<String, CryptoError>) -> Result<Seq<char>, CryptoError> {
    match r {
        Ok(s) => Ok(s@),
        Err(e) => Err(e),
    }
}

/// The bytes of a binary result.
pub open spec fn bytes_of(r: Result<Vec<u8>, CryptoError>) -> Result<Seq<u8>, CryptoError> {
    match r {
        Ok(b) => Ok(b@),
        Err(e) => Err(e),
    }
}

/// Whether a message of `n` bytes is within the range that `encrypt` takes:
/// its padded ciphertext and the text of that must have lengths that fit in
/// `usize`. Half of `usize::MAX`, less a block, is the bound.
pub open spec fn encryptable(n: int) -> bool {
    n + 16 <= usize::MAX / 2
}

/// Whether a text is within the range that `decrypt` takes: its length in
/// bytes plus the decoder's margin must fit in `usize`.
pub open spec fn decodable(text: Seq<char>) -> bool {
    encode_utf8(text).len() + DECODE_MARGIN <= usize::MAX
}

/// What `encrypt` returns: an error for a key or IV of the wrong length, an
/// error for a message out of range, else the base64 text of the ciphertext.
pub open spec fn encrypted_text(plaintext: Seq<u8>, key: Seq<u8>, iv: Seq<u8>) -> Result<
    Seq<char>,
    CryptoError,
> {
    if key.len() != 16 || iv.len() != 16 {
        Err(CryptoError::InvalidKeyIvLength)
    } else if !encryptable(plaintext.len() as int) {
        Err(CryptoError::TooLong)
    } else {
        Ok(base64_text(cbc_ciphertext(key, iv, plaintext)))
    }
}

/// What `decrypt` returns. The length of the text is checked first, then the
/// text is decoded, then the key and the IV are checked, then the cipher runs.
pub open spec fn decrypted_bytes(text: Seq<char>, key: Seq<u8>, iv: Seq<u8>) -> Result<
    Seq<u8>,
    CryptoError,
> {
    if !decodable(text) {
        Err(CryptoError::TooLong)
    } else {
        match base64_bytes(text) {
            None => Err(CryptoError::InvalidEncoding),
            Some(ciphertext) => if key.len() != 16 || iv.len() != 16 {
                Err(CryptoError::InvalidKeyIvLength)
            } else {
                match cbc_plaintext(key, iv, ciphertext) {
                    None => Err(CryptoError::InvalidPadding),
                    Some(message) => Ok(message),
                }
            },
        }
    }
}

/// Encrypts `plaintext` under `key` and `iv` and returns the ciphertext as
/// base64 text.
///
/// Fails with `InvalidKeyIvLength` exactly when the key or the IV is not 16
/// bytes long, and otherwise with `TooLong` exactly when the message is out
/// of range. On success, `decrypt` on the returned text under the same key and
/// IV gives `plaintext` back: the text is the base64 text of a ciphertext of
/// `padded_len` bytes.
pub fn encrypt(plaintext: &[u8], key: &[u8], iv: &[u8]) -> (r: Result<String, CryptoError>)
    ensures
        text_of(r) == encrypted_text(plaintext@, key@, iv@),
        r matches Ok(text) ==> decrypted_bytes(text@, key@, iv@) == Ok::<Seq<u8>, CryptoError>(
            plaintext@,
        ),
        r matches Ok(text) ==> encode_utf8(text@).len() == base64_len(
            padded_len(plaintext@.len() as int),
        ),
        r matches Ok(text) ==> base64_bytes(text@) matches Some(ciphertext) && ciphertext.len()
            == padded_len(plaintext@.len() as int),
{
    if key.len() != KEY_LEN || iv.len() != KEY_LEN {
        return Err(CryptoError::InvalidKeyIvLength);
    }
    if plaintext.len() > usize::MAX / 2 - BLOCK_LEN {
        return Err(CryptoError::TooLong);
    }
    let mut buffer = slice_to_vec(plaintext);
    let pos: usize = buffer.len();
    let padding_length: usize = BLOCK_LEN - (pos % BLOCK_LEN);
    buffer.resize(pos + padding_length, 0);
    assert(buffer@.take(pos as int) == plaintext@);
    match cbc_encrypt(key, iv, buffer, pos) {
        Some(ciphertext) => Ok(base64_encode(ciphertext.as_slice())),
        // Not reached: the key, the IV and the room for the padding are right.
        None => Err(CryptoError::InvalidKeyIvLength),
    }
}

/// Decodes `text` from base64 and decrypts it under `key` and `iv`.
///
/// Fails with `TooLong` where the text is out of range, with
/// `InvalidEncoding` where the text is not base64, with `InvalidKeyIvLength`
/// where the key or the IV is not 16 bytes long, and with `InvalidPadding`
/// where the cipher rejects the ciphertext, as it does every ciphertext that
/// is empty or no whole number of blocks. A message that comes back is
/// shorter than the ciphertext.
pub fn decrypt(text: &str, key: &[u8], iv: &[u8]) -> (r: Result<Vec<u8>, CryptoError>)
    ensures
        bytes_of(r) == decrypted_bytes(text@, key@, iv@),
        r matches Ok(message) ==> base64_bytes(text@) matches Some(ciphertext) && ciphertext.len()
            > 0 && ciphertext.len() % 16 == 0 && message@.len() < ciphertext.len(),
{
    if text.as_bytes().len() > usize::MAX - DECODE_MARGIN {
        return Err(CryptoError::TooLong);
    }
    let ciphertext = match base64_decode(text) {
        Ok(bytes) => bytes,
        Err(_) => {
            return Err(CryptoError::InvalidEncoding);
        },
    };
    if key.len() != KEY_LEN || iv.len() != KEY_LEN {
        return Err(CryptoError::InvalidKeyIvLength);
    }
    match cbc_decrypt(key, iv, ciphertext) {
        Some(message) => Ok(message),
        None => Err(CryptoError::InvalidPadding),
    }
}

/// What `hash_credential` makes of the hashing function's outcome: the hash
/// as it came, or `Hashing` for any error.
pub fn credential_from(outcome: Result<String, argon2::password_hash::Error>) -> (r: Result<
    String,
    CryptoError,
>)
    ensures
        outcome matches Ok(hash) ==> r == Ok::<String, CryptoError>(hash),
        outcome is Err ==> r == Err::<String, CryptoError>(CryptoError::Hashing),
{
    match outcome {
        Ok(hash) => Ok(hash),
        Err(_) => Err(CryptoError::Hashing),
    }
}

/// Hashes `secret` with Argon2 under a fresh random salt and returns the
/// self-contained PHC string.
///
/// The salt is random, so two calls differ. A secret is hashed exactly when
/// it is not longer than `MAX_SECRET_LEN` bytes, and every hash that comes
/// back is accepted by `verify_credential` for the same secret.
pub fn hash_credential(secret: &str) -> (r: Result<String, CryptoError>)
    ensures
        r is Ok <==> hashable(secret@),
        r matches Ok(hash) ==> credential_accepted(secret@, hash@),
        r matches Err(e) ==> e == CryptoError::Hashing,
{
    credential_from(argon2_hash(secret))
}

/// Whether `secret` matches the stored `hash`. A secret that does not match,
/// or a hash that is not a PHC string, gives `false`, never an error.
pub fn verify_credential(secret: &str, hash: &str) -> (accepted: bool)
    ensures
        accepted == credential_accepted(secret@, hash@),
{
    argon2_verify(secret, hash)
}

} // verus!
