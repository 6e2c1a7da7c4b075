//! Encryption of snapshots: a key derived from the passphrase with Argon2id,
//! AES-256-GCM, and an envelope of version, salt, nonce and ciphertext in
//! base64.
use vstd::prelude::*;

use crate::error::{AppError, AppErrorKind};

use aes_gcm::aead::{Aead, KeyInit};
use base64::Engine;
use rand::RngCore;

verus! {

pub const ENVELOPE_VERSION: u8 = 1;

pub const SALT_LENGTH: usize = 16;

pub const NONCE_LENGTH: usize = 12;

pub const KEY_LENGTH: usize = 32;

/// The length of the authentication tag that AES-GCM appends.
pub const TAG_LENGTH: usize = 16;

pub const ARGON2_MEMORY_KIB: u32 = 19456;

pub const ARGON2_ITERATIONS: u32 = 2;

pub const ARGON2_PARALLELISM: u32 = 1;

pub const ENCRYPTION_ERROR_CODE: &'static str = "sync.encryption.failed";

pub const ENCRYPTION_ERROR_KEY: &'static str = "errors.sync.encryption.failed";

pub const CREDENTIAL_ERROR_CODE: &'static str = "sync.credential.failed";

pub const CREDENTIAL_ERROR_KEY: &'static str = "errors.sync.credential.failed";

pub fn encryption_error() -> (r: AppError)
    ensures
        r.has(ENCRYPTION_ERROR_CODE, ENCRYPTION_ERROR_KEY, AppErrorKind::Encryption),
{
    AppError::new(ENCRYPTION_ERROR_CODE, ENCRYPTION_ERROR_KEY, AppErrorKind::Encryption)
}

pub fn credential_error() -> (r: AppError)
    ensures
        r.has(CREDENTIAL_ERROR_CODE, CREDENTIAL_ERROR_KEY, AppErrorKind::Configuration),
{
    AppError::new(CREDENTIAL_ERROR_CODE, CREDENTIAL_ERROR_KEY, AppErrorKind::Configuration)
}

/// Keeps secrets, such as the WebDAV password and the passphrase, by key.
pub trait CredentialStore {
    fn save_secret(&self, key: &str, secret: &str) -> Result<(), AppError>;

    fn load_secret(&self, key: &str) -> Result<Option<String>, AppError>;

    fn delete_secret(&self, key: &str) -> Result<(), AppError>;
}

/// The standard base64 text of bytes.
pub uninterp spec fn base64_text(bytes: Seq<u8>) -> Seq<char>;

/// The bytes that a standard base64 text decodes to, if it is one.
pub uninterp spec fn base64_bytes(text: Seq<char>) -> Option<Seq<u8>>;

/// Encodes bytes in standard base64.
///
/// Calls `base64`'s `STANDARD.encode`; the text is named by `base64_text`,
/// and decoding it gives the bytes back.
#[verifier::external_body]
fn encode_base64(bytes: &[u8]) -> (r: String)
    ensures
        r@ == base64_text(bytes@),
        base64_bytes(r@) == Some(bytes@),
{
    base64::engine::general_purpose::STANDARD.encode(bytes)
}

/// Decodes standard base64.
///
/// Calls `base64`'s `STANDARD.decode`; the result is named by `base64_bytes`.
#[verifier::external_body]
fn decode_base64(text: &str) -> (r: Option<Vec<u8>>)
    ensures
        match r {
            Some(bytes) => base64_bytes(text@) == Some(bytes@),
            None => base64_bytes(text@) is None,
        },
{
    base64::engine::general_purpose::STANDARD.decode(text).ok()
}

/// The key that Argon2id derives from a passphrase and a salt with the
/// parameters above, where it derives one.
pub uninterp spec fn argon2_key(passphrase: Seq<char>, salt: Seq<u8>) -> Option<Seq<u8>>;

/// Derives a key with Argon2id (version 0x13, 19456 KiB, 2 passes, 1 lane,
/// 32 bytes of output).
///
/// Calls `argon2::Argon2::hash_password_into` on the passphrase's UTF-8
/// bytes; the key is named by `argon2_key` and has the requested length.
#[verifier::external_body]
fn argon2_derive(passphrase: &str, salt: &[u8]) -> (r: Option<Vec<u8>>)
    ensures
        match r {
            Some(key) => argon2_key(passphrase@, salt@) == Some(key@) && key@.len() == KEY_LENGTH,
            None => argon2_key(passphrase@, salt@) is None,
        },
{
    let params = argon2::Params::new(ARGON2_MEMORY_KIB, ARGON2_ITERATIONS, ARGON2_PARALLELISM, Some(KEY_LENGTH)).ok()?;
    let argon2 = argon2::Argon2::new(argon2::Algorithm::Argon2id, argon2::Version::V0x13, params);
    let mut key = vec![0u8; KEY_LENGTH];
    argon2.hash_password_into(passphrase.as_bytes(), salt, &mut key).ok()?;
    Some(key)
}

/// The ciphertext (with its tag) that AES-256-GCM gives.
pub uninterp spec fn aes_ciphertext(key: Seq<u8>, nonce: Seq<u8>, plaintext: Seq<u8>) -> Option<Seq<u8>>;

/// The plaintext that AES-256-GCM recovers, where the tag checks.
pub uninterp spec fn aes_plaintext(key: Seq<u8>, nonce: Seq<u8>, ciphertext: Seq<u8>) -> Option<Seq<u8>>;

/// Encrypts with AES-256-GCM.
///
/// Calls `Aes256Gcm::encrypt`; the ciphertext is named by `aes_ciphertext`,
/// is the plaintext's length plus the tag, and decrypts with the same key
/// and nonce to the plaintext.
#[verifier::external_body]
fn aes_encrypt(key: &[u8], nonce: &[u8], plaintext: &[u8]) -> (r: Option<Vec<u8>>)
    requires
        key@.len() == KEY_LENGTH,
        nonce@.len() == NONCE_LENGTH,
    ensures
        match r {
            Some(c) => aes_ciphertext(key@, nonce@, plaintext@) == Some(c@) && c@.len() == plaintext@.len()
                + TAG_LENGTH && aes_plaintext(key@, nonce@, c@) == Some(plaintext@),
            None => aes_ciphertext(key@, nonce@, plaintext@) is None,
        },
{
    let cipher = aes_gcm::Aes256Gcm::new_from_slice(key).ok()?;
    cipher.encrypt(aes_gcm::Nonce::from_slice(nonce), plaintext).ok()
}

/// Decrypts with AES-256-GCM.
///
/// Calls `Aes256Gcm::decrypt`; the plaintext is named by `aes_plaintext`.
#[verifier::external_body]
fn aes_decrypt(key: &[u8], nonce: &[u8], ciphertext: &[u8]) -> (r: Option<Vec<u8>>)
    requires
        key@.len() == KEY_LENGTH,
        nonce@.len() == NONCE_LENGTH,
    ensures
        match r {
            Some(p) => aes_plaintext(key@, nonce@, ciphertext@) == Some(p@),
            None => aes_plaintext(key@, nonce@, ciphertext@) is None,
        },
{
    let cipher = aes_gcm::Aes256Gcm::new_from_slice(key).ok()?;
    cipher.decrypt(aes_gcm::Nonce::from_slice(nonce), ciphertext).ok()
}

/// Random bytes from the thread's generator.
///
/// Calls `rand::rng().fill_bytes`; only the length is stated, the bytes are random.
#[verifier::external_body]
fn random_bytes(length: usize) -> (r: Vec<u8>)
    ensures
        r@.len() == length,
{
    let mut bytes = vec![0u8; length];
    rand::rng().fill_bytes(&mut bytes);
    bytes
}

/// Wipes a derived key from memory once it has been used.
///
/// Calls `zeroize`'s `Zeroize::zeroize` on the vector, which overwrites its
/// bytes, and its spare capacity, with zeros and then empties it.
#[verifier::external_body]
fn wipe_key(key: &mut Vec<u8>)
    ensures
        final(key)@.len() == 0,
{
    zeroize::Zeroize::zeroize(key);
}

/// The key for a passphrase and salt: an empty passphrase, or a salt of
/// another length, gives none.
fn derive_key(passphrase: &str, salt: &[u8]) -> (r: Result<Vec<u8>, AppError>)
    ensures
        passphrase@.len() == 0 || salt@.len() != SALT_LENGTH ==> r is Err,
        r matches Ok(key) ==> argon2_key(passphrase@, salt@) == Some(key@) && key@.len() == KEY_LENGTH,
        passphrase@.len() > 0 && salt@.len() == SALT_LENGTH ==> (r is Ok <==> argon2_key(passphrase@, salt@) is Some),
        r matches Err(e) ==> e.has(ENCRYPTION_ERROR_CODE, ENCRYPTION_ERROR_KEY, AppErrorKind::Encryption),
{
    if passphrase.unicode_len() == 0 || salt.len() != SALT_LENGTH {
        return Err(encryption_error());
    }
    match argon2_derive(passphrase, salt) {
        Some(key) => Ok(key),
        None => Err(encryption_error()),
    }
}

/// The envelope of a ciphertext: the version, the salt, the nonce and the ciphertext.
pub open spec fn envelope(salt: Seq<u8>, nonce: Seq<u8>, ciphertext: Seq<u8>) -> Seq<u8> {
    seq![ENVELOPE_VERSION] + salt + nonce + ciphertext
}

/// The shortest envelope: version, salt, nonce and one byte of ciphertext.
pub open spec fn minimum_envelope_length() -> int {
    1 + SALT_LENGTH + NONCE_LENGTH + 1
}

/// What decrypting a text with a passphrase gives: the envelope is decoded
/// from base64, must be long enough and of the current version, and its
/// ciphertext is decrypted with the key of its salt.
pub open spec fn decryption(text: Seq<char>, passphrase: Seq<char>) -> Option<Seq<u8>> {
    match base64_bytes(text) {
        None => None,
        Some(env) => if env.len() < minimum_envelope_length() || env[0] != ENVELOPE_VERSION
            || passphrase.len() == 0 {
            None
        } else {
            let salt = env.subrange(1, 1 + SALT_LENGTH);
            let nonce = env.subrange(1 + SALT_LENGTH, 1 + SALT_LENGTH + NONCE_LENGTH);
            let ciphertext = env.subrange(1 + SALT_LENGTH + NONCE_LENGTH, env.len() as int);
            match argon2_key(passphrase, salt) {
                None => None,
                Some(key) => aes_plaintext(key, nonce, ciphertext),
            }
        },
    }
}

fn append_bytes(out: &mut Vec<u8>, bytes: &[u8])
    ensures
        final(out)@ == old(out)@ + bytes@,
{
    let mut i: usize = 0;
    let ghost start = out@;
    while i < bytes.len()
        invariant
            i <= bytes@.len(),
            out@ == start + bytes@.subrange(0, i as int),
        decreases bytes@.len() - i,
    {
        out.push(bytes[i]);
        proof {
            assert(out@ =~= start + bytes@.subrange(0, i + 1));
        }
        i = i + 1;
    }
    proof {
        assert(bytes@.subrange(0, bytes@.len() as int) =~= bytes@);
    }
}

fn copy_range(bytes: &[u8], start: usize, end: usize) -> (r: Vec<u8>)
    requires
        start <= end <= bytes@.len(),
    ensures
        r@ == bytes@.subrange(start as int, end as int),
{
    let mut out: Vec<u8> = Vec::new();
    let mut i = start;
    while i < end
        invariant
            start <= i <= end,
            end <= bytes@.len(),
            out@ == bytes@.subrange(start as int, i as int),
        decreases end - i,
    {
        out.push(bytes[i]);
        proof {
            assert(out@ =~= bytes@.subrange(start as int, i + 1));
        }
        i = i + 1;
    }
    out
}

/// Encrypts a payload with a passphrase under a fresh salt and nonce; an
/// empty passphrase is refused. What it gives decrypts with the same
/// passphrase to the payload.
pub fn encrypt_snapshot(payload: &[u8], passphrase: &str) -> (r: Result<String, AppError>)
    ensures
        passphrase@.len() == 0 ==> r is Err,
        r matches Ok(text) ==> decryption(text@, passphrase@) == Some(payload@),
        r matches Ok(text) ==> exists|salt: Seq<u8>, nonce: Seq<u8>, key: Seq<u8>, ciphertext: Seq<u8>|
            #![trigger envelope(salt, nonce, ciphertext), aes_ciphertext(key, nonce, payload@)]
        {
            &&& salt.len() == SALT_LENGTH
            &&& nonce.len() == NONCE_LENGTH
            &&& argon2_key(passphrase@, salt) == Some(key)
            &&& aes_ciphertext(key, nonce, payload@) == Some(ciphertext)
            &&& text@ == base64_text(envelope(salt, nonce, ciphertext))
        },
        r matches Err(e) ==> e.has(ENCRYPTION_ERROR_CODE, ENCRYPTION_ERROR_KEY, AppErrorKind::Encryption),
{
    let salt = random_bytes(SALT_LENGTH);
    let mut key = derive_key(passphrase, salt.as_slice())?;
    let ghost derived = key@;
    let nonce = random_bytes(NONCE_LENGTH);
    let sealed_payload = aes_encrypt(key.as_slice(), nonce.as_slice(), payload);
    wipe_key(&mut key);
    let ciphertext = match sealed_payload {
        Some(c) => c,
        None => return Err(encryption_error()),
    };
    let mut sealed: Vec<u8> = Vec::new();
    sealed.push(ENVELOPE_VERSION);
    append_bytes(&mut sealed, salt.as_slice());
    append_bytes(&mut sealed, nonce.as_slice());
    append_bytes(&mut sealed, ciphertext.as_slice());
    let text = encode_base64(sealed.as_slice());
    proof {
        let env = sealed@;
        assert(env =~= envelope(salt@, nonce@, ciphertext@));
        assert(env.subrange(1, 1 + SALT_LENGTH) =~= salt@);
        assert(env.subrange(1 + SALT_LENGTH, 1 + SALT_LENGTH + NONCE_LENGTH) =~= nonce@);
        assert(env.subrange(1 + SALT_LENGTH + NONCE_LENGTH, env.len() as int) =~= ciphertext@);
        assert(env[0] == ENVELOPE_VERSION);
        assert(aes_ciphertext(derived, nonce@, payload@) == Some(ciphertext@));
    }
    Ok(text)
}

/// Decrypts what `encrypt_snapshot` gave; a text that is not base64, a
/// short envelope, another version, an empty or wrong passphrase, or a
/// changed ciphertext is refused.
pub fn decrypt_snapshot(encoded: &str, passphrase: &str) -> (r: Result<Vec<u8>, AppError>)
    ensures
        match decryption(encoded@, passphrase@) {
            Some(p) => (r matches Ok(bytes) && bytes@ == p),
            None => (r matches Err(e) && e.has(ENCRYPTION_ERROR_CODE, ENCRYPTION_ERROR_KEY, AppErrorKind::Encryption)),
        },
{
    let sealed = match decode_base64(encoded) {
        Some(bytes) => bytes,
        None => return Err(encryption_error()),
    };
    let minimum_length = 1 + SALT_LENGTH + NONCE_LENGTH + 1;
    if sealed.len() < minimum_length || sealed[0] != ENVELOPE_VERSION {
        return Err(encryption_error());
    }
    let salt_start: usize = 1;
    let nonce_start = salt_start + SALT_LENGTH;
    let salt = copy_range(sealed.as_slice(), salt_start, nonce_start);
    let nonce = copy_range(sealed.as_slice(), nonce_start, nonce_start + NONCE_LENGTH);
    let ciphertext = copy_range(sealed.as_slice(), nonce_start + NONCE_LENGTH, sealed.len());
    let mut key = derive_key(passphrase, salt.as_slice())?;
    let opened = aes_decrypt(key.as_slice(), nonce.as_slice(), ciphertext.as_slice());
    wipe_key(&mut key);
    match opened {
        Some(plaintext) => Ok(plaintext),
        None => Err(encryption_error()),
    }
}

} // verus!
