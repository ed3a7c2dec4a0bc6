//! Keys wrapped under a secret, and bytes encrypted under a key, as the vault
//! file holds them.
use crate::crypto::{
    argon2_cost_ok, argon2_input_ok, argon2id, argon2id_hash, base64_bytes, base64_text,
    decode_base64, draw_array, drawn, encode_base64, seal, sealable, unseal, xchacha_opened,
    xchacha_sealed, CipherFailure, DerivationFailure, MAX_MESSAGE_LEN, MAX_PARALLELISM, TAG_LEN,
};
use crate::error::{outcome, Failure, VaultError};
use vstd::prelude::*;
use vstd::utf8::encode_utf8;

verus! {

/// The length of a key in bytes.
pub const KEY_LEN: usize = 32;

/// The length of a nonce in bytes.
pub const NONCE_LEN: usize = 24;

/// The length of a salt in bytes.
pub const SALT_LEN: usize = 16;

/// The cost at which a key is derived from a secret.
#[derive(Debug, Clone, Copy)]
pub struct KdfConfig {
    pub memory_kib: u32,
    pub iterations: u32,
    pub parallelism: u32,
}

/// A key that is encrypted under a secret.
#[derive(Debug, Clone)]
pub struct WrappedKey {
    pub kdf: KdfConfig,
    pub salt_b64: String,
    pub nonce_b64: String,
    pub ciphertext_b64: String,
}

/// The content of a [`WrappedKey`].
pub struct WrappedKeyView {
    pub kdf: KdfConfig,
    pub salt_b64: Seq<char>,
    pub nonce_b64: Seq<char>,
    pub ciphertext_b64: Seq<char>,
}

impl View for WrappedKey {
    type V = WrappedKeyView;

    open spec fn view(&self) -> WrappedKeyView {
        WrappedKeyView {
            kdf: self.kdf,
            salt_b64: self.salt_b64@,
            nonce_b64: self.nonce_b64@,
            ciphertext_b64: self.ciphertext_b64@,
        }
    }
}

/// Bytes that are encrypted under a key.
#[derive(Debug, Clone)]
pub struct EncryptedPayload {
    pub nonce_b64: String,
    pub ciphertext_b64: String,
}

/// The content of an [`EncryptedPayload`].
pub struct EncryptedView {
    pub nonce_b64: Seq<char>,
    pub ciphertext_b64: Seq<char>,
}

impl View for EncryptedPayload {
    type V = EncryptedView;

    open spec fn view(&self) -> EncryptedView {
        EncryptedView { nonce_b64: self.nonce_b64@, ciphertext_b64: self.ciphertext_b64@ }
    }
}

/// The bytes that a base64 text stands for.
pub open spec fn decoded(text_b64: Seq<char>) -> Option<Seq<u8>> {
    base64_bytes(encode_utf8(text_b64))
}

/// What a field of a fixed length decodes to.
pub open spec fn fixed_field(name: Seq<char>, text_b64: Seq<char>, expected_len: nat) -> Result<
    Seq<u8>,
    Failure,
> {
    match decoded(text_b64) {
        None => Err(Failure::InvalidData("invalid base64 value"@)),
        Some(bytes) => if bytes.len() == expected_len {
            Ok(bytes)
        } else if name == "salt"@ {
            Err(Failure::InvalidData("invalid salt length"@))
        } else if name == "nonce"@ {
            Err(Failure::InvalidData("invalid nonce length"@))
        } else {
            Err(Failure::InvalidData("invalid field length"@))
        },
    }
}

/// The key that `secret` and `salt` give at the cost `kdf`.
pub open spec fn derived_key(secret: Seq<char>, salt: Seq<u8>, kdf: KdfConfig) -> Result<
    Seq<u8>,
    Failure,
> {
    if !argon2_cost_ok(kdf.memory_kib, kdf.iterations, kdf.parallelism) {
        Err(Failure::Crypto("invalid argon2 params"@))
    } else if !argon2_input_ok(encode_utf8(secret).len(), salt.len()) {
        Err(Failure::Crypto("argon2 derivation failed"@))
    } else {
        Ok(
            argon2id_hash(
                encode_utf8(secret),
                salt,
                kdf.memory_kib,
                kdf.iterations,
                kdf.parallelism,
                KEY_LEN,
            ),
        )
    }
}

/// `plaintext` encrypted under `key` with `nonce`.
pub open spec fn encrypted(plaintext: Seq<u8>, key: Seq<u8>, nonce: Seq<u8>) -> Result<
    EncryptedView,
    Failure,
> {
    if key.len() != KEY_LEN {
        Err(Failure::Crypto("invalid key length"@))
    } else if !sealable(plaintext.len()) {
        Err(Failure::Crypto("encryption failed"@))
    } else {
        Ok(
            EncryptedView {
                nonce_b64: base64_text(nonce),
                ciphertext_b64: base64_text(xchacha_sealed(key, nonce, plaintext)),
            },
        )
    }
}

/// The plaintext of `payload` under `key`.
pub open spec fn decrypted(payload: EncryptedView, key: Seq<u8>) -> Result<Seq<u8>, Failure> {
    if key.len() != KEY_LEN {
        Err(Failure::Crypto("invalid key length"@))
    } else {
        match fixed_field("nonce"@, payload.nonce_b64, NONCE_LEN as nat) {
            Err(failure) => Err(failure),
            Ok(nonce) => match decoded(payload.ciphertext_b64) {
                None => Err(Failure::InvalidData("ciphertext is not valid base64"@)),
                Some(ciphertext) => if ciphertext.len() > MAX_MESSAGE_LEN + TAG_LEN {
                    Err(Failure::Crypto("decryption failed"@))
                } else {
                    match xchacha_opened(key, nonce, ciphertext) {
                        None => Err(Failure::Crypto("decryption failed"@)),
                        Some(plaintext) => Ok(plaintext),
                    }
                },
            },
        }
    }
}

/// Whether `payload` is too short to hold even the tag of a ciphertext: four
/// characters stand for three bytes.
pub open spec fn cut_short(payload: EncryptedView) -> bool {
    ||| (encode_utf8(payload.ciphertext_b64).len() + 3) / 4 * 3 < TAG_LEN
    ||| decoded(payload.ciphertext_b64) matches Some(ciphertext) && ciphertext.len() < TAG_LEN
}

/// `key` wrapped under `secret` with `salt` and `nonce`.
pub open spec fn wrapped(
    secret: Seq<char>,
    key: Seq<u8>,
    kdf: KdfConfig,
    salt: Seq<u8>,
    nonce: Seq<u8>,
) -> Result<WrappedKeyView, Failure> {
    match derived_key(secret, salt, kdf) {
        Err(failure) => Err(failure),
        Ok(derived) => match encrypted(key, derived, nonce) {
            Err(failure) => Err(failure),
            Ok(sealed) => Ok(
                WrappedKeyView {
                    kdf,
                    salt_b64: base64_text(salt),
                    nonce_b64: sealed.nonce_b64,
                    ciphertext_b64: sealed.ciphertext_b64,
                },
            ),
        },
    }
}

/// The key that `secret` takes out of `wrapped_key`.
pub open spec fn unwrapped(secret: Seq<char>, wrapped_key: WrappedKeyView) -> Result<
    Seq<u8>,
    Failure,
> {
    match fixed_field("salt"@, wrapped_key.salt_b64, SALT_LEN as nat) {
        Err(failure) => Err(failure),
        Ok(salt) => match derived_key(secret, salt, wrapped_key.kdf) {
            Err(failure) => Err(failure),
            Ok(derived) => decrypted(
                EncryptedView {
                    nonce_b64: wrapped_key.nonce_b64,
                    ciphertext_b64: wrapped_key.ciphertext_b64,
                },
                derived,
            ),
        },
    }
}

/// The cost of every newly wrapped key.
pub open spec fn default_cost() -> KdfConfig {
    KdfConfig { memory_kib: 19_456, iterations: 2, parallelism: 1 }
}

/// The cost of every newly wrapped key.
pub fn default_kdf() -> (kdf: KdfConfig)
    ensures
        kdf == default_cost(),
{
    KdfConfig { memory_kib: 19_456, iterations: 2, parallelism: 1 }
}

/// Decodes the field `name`, which is `expected_len` bytes long.
pub fn decode_fixed(name: &'static str, value_b64: &str, expected_len: usize) -> (bytes: Result<
    Vec<u8>,
    VaultError,
>)
    ensures
        outcome(bytes) == fixed_field(name@, value_b64@, expected_len as nat),
{
    match decode_base64(value_b64.as_bytes()) {
        Err(_) => Err(VaultError::InvalidData("invalid base64 value")),
        Ok(bytes) => if bytes.len() == expected_len {
            Ok(bytes)
        } else if name.to_owned() == "salt".to_owned() {
            Err(VaultError::InvalidData("invalid salt length"))
        } else if name.to_owned() == "nonce".to_owned() {
            Err(VaultError::InvalidData("invalid nonce length"))
        } else {
            Err(VaultError::InvalidData("invalid field length"))
        },
    }
}

/// Derives a key from `secret` and `salt`.
pub fn derive_key(secret: &str, salt: &[u8], kdf: KdfConfig) -> (key: Result<Vec<u8>, VaultError>)
    ensures
        outcome(key) == derived_key(secret@, salt@, kdf),
        key matches Ok(bytes) ==> bytes@.len() == KEY_LEN,
{
    if kdf.parallelism > MAX_PARALLELISM {
        return Err(VaultError::Crypto("invalid argon2 params"));
    }
    match argon2id(
        secret.as_bytes(),
        salt,
        kdf.memory_kib,
        kdf.iterations,
        kdf.parallelism,
        KEY_LEN,
    ) {
        Ok(key) => Ok(key),
        Err(DerivationFailure::Cost) => Err(VaultError::Crypto("invalid argon2 params")),
        Err(DerivationFailure::Input) => Err(VaultError::Crypto("argon2 derivation failed")),
    }
}

/// Encrypts `plaintext` under `key` with the given nonce. Decrypting the
/// result under the same key gives `plaintext` back.
pub fn encrypt_with_nonce(plaintext: &[u8], key: &[u8], nonce: &[u8; 24]) -> (payload: Result<
    EncryptedPayload,
    VaultError,
>)
    ensures
        outcome(payload) == encrypted(plaintext@, key@, nonce@),
        payload matches Ok(sealed) ==> decrypted(sealed@, key@) == Ok::<_, Failure>(plaintext@),
{
    if key.len() != KEY_LEN {
        return Err(VaultError::Crypto("invalid key length"));
    }
    if plaintext.len() as u64 > MAX_MESSAGE_LEN || plaintext.len() > usize::MAX / 2 / 4 * 3 - TAG_LEN {
        return Err(VaultError::Crypto("encryption failed"));
    }
    match seal(key, nonce.as_slice(), plaintext) {
        Err(CipherFailure::Key) => Err(VaultError::Crypto("failed to initialize cipher")),
        Err(CipherFailure::Message) => Err(VaultError::Crypto("encryption failed")),
        Ok(ciphertext) => Ok(
            EncryptedPayload {
                nonce_b64: encode_base64(nonce.as_slice()),
                ciphertext_b64: encode_base64(ciphertext.as_slice()),
            },
        ),
    }
}

/// Encrypts `plaintext` under `key` with a fresh nonce. Decrypting the result
/// under the same key gives `plaintext` back.
pub fn encrypt_bytes(plaintext: &[u8], key: &[u8]) -> (payload: Result<EncryptedPayload, VaultError>)
    ensures
        exists|nonce: [u8; 24]| #[trigger]
            drawn(nonce) && outcome(payload) == encrypted(plaintext@, key@, nonce@),
        payload matches Ok(sealed) ==> decrypted(sealed@, key@) == Ok::<_, Failure>(plaintext@),
{
    let nonce: [u8; 24] = draw_array();
    encrypt_with_nonce(plaintext, key, &nonce)
}

/// Decrypts `payload` under `key`.
pub fn decrypt_bytes(payload: &EncryptedPayload, key: &[u8]) -> (plaintext: Result<
    Vec<u8>,
    VaultError,
>)
    ensures
        outcome(plaintext) == decrypted(payload@, key@),
        cut_short(payload@) ==> plaintext is Err,
{
    if key.len() != KEY_LEN {
        return Err(VaultError::Crypto("invalid key length"));
    }
    let nonce = match decode_fixed("nonce", payload.nonce_b64.as_str(), NONCE_LEN) {
        Ok(nonce) => nonce,
        Err(err) => return Err(err),
    };
    let ciphertext = match decode_base64(payload.ciphertext_b64.as_str().as_bytes()) {
        Ok(ciphertext) => ciphertext,
        Err(_) => return Err(VaultError::InvalidData("ciphertext is not valid base64")),
    };
    if ciphertext.len() as u64 > MAX_MESSAGE_LEN + TAG_LEN as u64 {
        return Err(VaultError::Crypto("decryption failed"));
    }
    match unseal(key, nonce.as_slice(), ciphertext.as_slice()) {
        Ok(plaintext) => Ok(plaintext),
        Err(CipherFailure::Key) => Err(VaultError::Crypto("failed to initialize cipher")),
        Err(CipherFailure::Message) => Err(VaultError::Crypto("decryption failed")),
    }
}

/// Wraps `plaintext_key` under `secret` with the given salt and nonce.
/// Unwrapping the result with the same secret gives the key back.
pub fn wrap_key_with(
    secret: &str,
    plaintext_key: &[u8],
    kdf: KdfConfig,
    salt: &[u8; 16],
    nonce: &[u8; 24],
) -> (key: Result<WrappedKey, VaultError>)
    ensures
        outcome(key) == wrapped(secret@, plaintext_key@, kdf, salt@, nonce@),
        key is Ok <==> argon2_cost_ok(kdf.memory_kib, kdf.iterations, kdf.parallelism)
            && argon2_input_ok(encode_utf8(secret@).len(), SALT_LEN as nat) && sealable(
            plaintext_key@.len(),
        ),
        key matches Ok(wrapped_key) ==> unwrapped(secret@, wrapped_key@) == Ok::<_, Failure>(
            plaintext_key@,
        ),
{
    let derived = match derive_key(secret, salt.as_slice(), kdf) {
        Ok(derived) => derived,
        Err(err) => return Err(err),
    };
    match encrypt_with_nonce(plaintext_key, derived.as_slice(), nonce) {
        Err(err) => Err(err),
        Ok(sealed) => Ok(
            WrappedKey {
                kdf,
                salt_b64: encode_base64(salt.as_slice()),
                nonce_b64: sealed.nonce_b64,
                ciphertext_b64: sealed.ciphertext_b64,
            },
        ),
    }
}

/// Wraps `plaintext_key` under `secret` with a fresh salt and a fresh nonce.
/// Unwrapping the result with the same secret gives the key back.
pub fn wrap_key_with_secret(secret: &str, plaintext_key: &[u8], kdf: KdfConfig) -> (key: Result<
    WrappedKey,
    VaultError,
>)
    ensures
        exists|salt: [u8; 16], nonce: [u8; 24]| #[trigger]
            drawn(salt) && #[trigger] drawn(nonce) && outcome(key) == wrapped(
                secret@,
                plaintext_key@,
                kdf,
                salt@,
                nonce@,
            ),
        key is Ok <==> argon2_cost_ok(kdf.memory_kib, kdf.iterations, kdf.parallelism)
            && argon2_input_ok(encode_utf8(secret@).len(), SALT_LEN as nat) && sealable(
            plaintext_key@.len(),
        ),
        key matches Ok(wrapped_key) ==> unwrapped(secret@, wrapped_key@) == Ok::<_, Failure>(
            plaintext_key@,
        ),
{
    let salt: [u8; 16] = draw_array();
    let nonce: [u8; 24] = draw_array();
    wrap_key_with(secret, plaintext_key, kdf, &salt, &nonce)
}

/// Takes the key out of `wrapped_key` with `secret`.
pub fn unwrap_key_with_secret(secret: &str, wrapped_key: &WrappedKey) -> (key: Result<
    Vec<u8>,
    VaultError,
>)
    ensures
        outcome(key) == unwrapped(secret@, wrapped_key@),
{
    let salt = match decode_fixed("salt", wrapped_key.salt_b64.as_str(), SALT_LEN) {
        Ok(salt) => salt,
        Err(err) => return Err(err),
    };
    let derived = match derive_key(secret, salt.as_slice(), wrapped_key.kdf) {
        Ok(derived) => derived,
        Err(err) => return Err(err),
    };
    let encrypted_key = EncryptedPayload {
        nonce_b64: wrapped_key.nonce_b64.clone(),
        ciphertext_b64: wrapped_key.ciphertext_b64.clone(),
    };
    decrypt_bytes(&encrypted_key, derived.as_slice())
}

} // verus!
