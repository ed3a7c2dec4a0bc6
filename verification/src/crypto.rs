//! The primitives that come from outside: key derivation, authenticated
//! encryption, text encoding of bytes, randomness, and memory that is wiped
//! when it is released.
use argon2::{Algorithm, Argon2, Params, Version};
use base64::engine::general_purpose::STANDARD;
use base64::{DecodeError, Engine};
use chacha20poly1305::aead::{Aead, KeyInit};
use chacha20poly1305::{XChaCha20Poly1305, XNonce};
use rand::RngCore;
use vstd::prelude::*;
use zeroize::Zeroizing;

verus! {

/// The key that Argon2id, version 0x13, derives from `secret` and `salt` at
/// the given cost, `len` bytes long.
pub uninterp spec fn argon2id_hash(
    secret: Seq<u8>,
    salt: Seq<u8>,
    memory_kib: u32,
    iterations: u32,
    parallelism: u32,
    len: usize,
) -> Seq<u8>;

/// The standard base64 text of `bytes`, padded.
pub uninterp spec fn base64_text(bytes: Seq<u8>) -> Seq<char>;

/// The bytes that `text` spells in standard base64, if it is canonical and
/// padded.
pub uninterp spec fn base64_bytes(text: Seq<u8>) -> Option<Seq<u8>>;

/// What XChaCha20-Poly1305 makes of `plaintext`: ciphertext and tag.
pub uninterp spec fn xchacha_sealed(
    key: Seq<u8>,
    nonce: Seq<u8>,
    plaintext: Seq<u8>,
) -> Seq<u8>;

/// The plaintext of `ciphertext`, if its tag is genuine under `key` and `nonce`.
pub uninterp spec fn xchacha_opened(
    key: Seq<u8>,
    nonce: Seq<u8>,
    ciphertext: Seq<u8>,
) -> Option<Seq<u8>>;

/// The length of the tag that ends a ciphertext.
pub const TAG_LEN: usize = 16;

/// The longest message that one nonce has keystream for.
pub const MAX_MESSAGE_LEN: u64 = 274_877_906_816;

/// The highest degree of parallelism that Argon2 knows.
pub const MAX_PARALLELISM: u32 = 0xFF_FFFF;

/// Whether `len` bytes have a base64 text that is no longer than a text can be.
pub open spec fn encodable(len: nat) -> bool {
    len <= usize::MAX / 2 / 4 * 3
}

/// Whether a message of `len` bytes can be sealed: there is keystream for it,
/// and the ciphertext can be encoded.
pub open spec fn sealable(len: nat) -> bool {
    len <= MAX_MESSAGE_LEN && encodable(len + TAG_LEN as nat)
}

/// Whether Argon2 takes these cost parameters.
pub open spec fn argon2_cost_ok(memory_kib: u32, iterations: u32, parallelism: u32) -> bool {
    &&& 8 <= memory_kib
    &&& 8 * parallelism <= memory_kib
    &&& 1 <= iterations
    &&& 1 <= parallelism <= MAX_PARALLELISM
}

/// Whether Argon2 takes a secret and a salt of these lengths.
pub open spec fn argon2_input_ok(secret_len: nat, salt_len: nat) -> bool {
    secret_len <= u32::MAX && 8 <= salt_len <= u32::MAX
}

/// Which part of a key derivation was refused.
pub enum DerivationFailure {
    Cost,
    Input,
}

/// Which part of a cipher call was refused.
pub enum CipherFailure {
    Key,
    Message,
}

/// Calls `argon2::Argon2::hash_password_into` for Argon2id, version 0x13, with
/// parameters from `argon2::Params::new`.
///
/// Claimed: the parameters are refused exactly outside the documented ranges,
/// the inputs exactly outside the documented lengths, and otherwise the output
/// is the Argon2id hash, which depends on nothing but the arguments. The call
/// allocates `memory_kib` KiB; whether the machine has them is left unsaid.
/// The degree of parallelism is bounded because `Params::new` multiplies it by
/// eight in 32 bits; the output length is within the range that Argon2 takes.
#[verifier::external_body]
pub(crate) fn argon2id(
    secret: &[u8],
    salt: &[u8],
    memory_kib: u32,
    iterations: u32,
    parallelism: u32,
    len: usize,
) -> (derived: Result<Vec<u8>, DerivationFailure>)
    requires
        parallelism <= MAX_PARALLELISM,
        4 <= len <= u32::MAX,
    ensures
        match derived {
            Ok(key) => argon2_cost_ok(memory_kib, iterations, parallelism) && argon2_input_ok(
                secret@.len(),
                salt@.len(),
            ) && key@ == argon2id_hash(secret@, salt@, memory_kib, iterations, parallelism, len)
                && key@.len() == len,
            Err(DerivationFailure::Cost) => !argon2_cost_ok(memory_kib, iterations, parallelism),
            Err(DerivationFailure::Input) => argon2_cost_ok(memory_kib, iterations, parallelism)
                && !argon2_input_ok(secret@.len(), salt@.len()),
        },
{
    let params = Params::new(memory_kib, iterations, parallelism, Some(len))
        .map_err(|_| DerivationFailure::Cost)?;
    let mut out = vec![0u8; len];
    Argon2::new(Algorithm::Argon2id, Version::V0x13, params)
        .hash_password_into(secret, salt, &mut out)
        .map_err(|_| DerivationFailure::Input)?;
    Ok(out)
}

/// Calls `base64::Engine::encode` of the standard engine.
///
/// Claimed: the text depends on the bytes alone, and decoding its bytes with
/// the same engine gives them back. The bound keeps the text, four characters
/// for every three bytes, within what can be allocated at all.
#[verifier::external_body]
pub(crate) fn encode_base64(bytes: &[u8]) -> (text: String)
    requires
        encodable(bytes@.len()),
    ensures
        text@ == base64_text(bytes@),
        base64_bytes(vstd::utf8::encode_utf8(text@)) == Some(bytes@),
{
    STANDARD.encode(bytes)
}

/// Why a text is not base64, carried through unread.
#[verifier::external_type_specification]
#[verifier::external_body]
pub struct ExDecodeError(DecodeError);

/// Calls `base64::Engine::decode` of the standard engine.
///
/// Claimed: whether there are bytes, and which, depends on the text alone, and
/// there are at most three for every four characters begun.
#[verifier::external_body]
pub(crate) fn decode_base64(text: &[u8]) -> (bytes: Result<Vec<u8>, DecodeError>)
    ensures
        match bytes {
            Ok(found) => base64_bytes(text@) == Some(found@) && found@.len() <= (text@.len() + 3)
                / 4 * 3,
            Err(_) => base64_bytes(text@) is None,
        },
{
    STANDARD.decode(text)
}

/// Calls `chacha20poly1305::XChaCha20Poly1305::encrypt` on a cipher made by
/// `new_from_slice`.
///
/// Claimed: a key of any length but 32 bytes is refused and nothing else is;
/// the ciphertext depends on the arguments alone, is a tag longer than the
/// plaintext, and decrypts to the plaintext under the same key and nonce. The
/// bound on the plaintext keeps the call within its keystream, past which it
/// fails or panics.
#[verifier::external_body]
pub(crate) fn seal(key: &[u8], nonce: &[u8], plaintext: &[u8]) -> (sealed: Result<
    Vec<u8>,
    CipherFailure,
>)
    requires
        nonce@.len() == 24,
        sealable(plaintext@.len()),
    ensures
        match sealed {
            Ok(ciphertext) => key@.len() == 32 && ciphertext@ == xchacha_sealed(
                key@,
                nonce@,
                plaintext@,
            ) && ciphertext@.len() == plaintext@.len() + TAG_LEN && xchacha_opened(
                key@,
                nonce@,
                ciphertext@,
            ) == Some(plaintext@),
            Err(CipherFailure::Key) => key@.len() != 32,
            Err(CipherFailure::Message) => false,
        },
{
    let cipher = XChaCha20Poly1305::new_from_slice(key).map_err(|_| CipherFailure::Key)?;
    cipher.encrypt(XNonce::from_slice(nonce), plaintext).map_err(|_| CipherFailure::Message)
}

/// Calls `chacha20poly1305::XChaCha20Poly1305::decrypt` on a cipher made by
/// `new_from_slice`.
///
/// Claimed: a key of any length but 32 bytes is refused; otherwise the outcome
/// depends on the arguments alone, a ciphertext shorter than a tag is refused,
/// and a plaintext is a tag shorter than its ciphertext. That nobody without
/// the key can make another ciphertext that is accepted is left unsaid.
#[verifier::external_body]
pub(crate) fn unseal(key: &[u8], nonce: &[u8], ciphertext: &[u8]) -> (opened: Result<
    Vec<u8>,
    CipherFailure,
>)
    requires
        nonce@.len() == 24,
        ciphertext@.len() <= MAX_MESSAGE_LEN + TAG_LEN,
    ensures
        match opened {
            Ok(plaintext) => key@.len() == 32 && xchacha_opened(key@, nonce@, ciphertext@) == Some(
                plaintext@,
            ) && ciphertext@.len() == plaintext@.len() + TAG_LEN,
            Err(CipherFailure::Key) => key@.len() != 32,
            Err(CipherFailure::Message) => key@.len() == 32 && xchacha_opened(
                key@,
                nonce@,
                ciphertext@,
            ) is None,
        },
{
    let cipher = XChaCha20Poly1305::new_from_slice(key).map_err(|_| CipherFailure::Key)?;
    cipher.decrypt(XNonce::from_slice(nonce), ciphertext).map_err(|_| CipherFailure::Message)
}

/// Calls `rand::random` for an array of bytes. Nothing is claimed of the bytes.
#[verifier::external_body]
pub(crate) fn random_array<const N: usize>() -> (bytes: [u8; N]) {
    rand::random()
}

/// Whether `bytes` were drawn by [`random_array`].
pub closed spec fn drawn<const N: usize>(bytes: [u8; N]) -> bool {
    call_ensures(random_array::<N>, (), bytes)
}

/// An array of random bytes.
pub(crate) fn draw_array<const N: usize>() -> (bytes: [u8; N])
    ensures
        drawn(bytes),
{
    let bytes: [u8; N] = random_array();
    assert(call_ensures(random_array::<N>, (), bytes));
    bytes
}

/// Calls `rand::RngCore::fill_bytes` of the thread's generator on a buffer of
/// `len` bytes.
///
/// Claimed: as many bytes come as were asked for. Nothing is claimed of what
/// they are.
#[verifier::external_body]
pub(crate) fn random_bytes(len: usize) -> (bytes: Vec<u8>)
    ensures
        bytes@.len() == len,
{
    let mut bytes = vec![0u8; len];
    rand::thread_rng().fill_bytes(&mut bytes);
    bytes
}

/// Whether `bytes` were drawn by [`random_bytes`].
pub closed spec fn drawn_bytes(bytes: Seq<u8>) -> bool {
    exists|buffer: Vec<u8>|
        #![trigger buffer@]
        buffer@ == bytes && call_ensures(random_bytes, (buffer@.len() as usize,), buffer)
}

/// Bytes that were drawn are what the random generator gave when asked for as
/// many.
pub(crate) proof fn law_drawn_bytes_are_random<const N: usize>(array: [u8; N], bytes: Seq<u8>)
    ensures
        drawn(array) <==> call_ensures(random_array::<N>, (), array),
        drawn_bytes(bytes) ==> exists|buffer: Vec<u8>|
            buffer@ == bytes && #[trigger] call_ensures(
                random_bytes,
                (bytes.len() as usize,),
                buffer,
            ),
{
    if drawn_bytes(bytes) {
        let buffer = choose|buffer: Vec<u8>|
            #![trigger buffer@]
            buffer@ == bytes && call_ensures(random_bytes, (buffer@.len() as usize,), buffer);
        assert(call_ensures(random_bytes, (bytes.len() as usize,), buffer));
    }
}

/// A number of random bytes.
pub(crate) fn draw_bytes(len: usize) -> (bytes: Vec<u8>)
    ensures
        bytes@.len() == len,
        drawn_bytes(bytes@),
{
    let bytes = random_bytes(len);
    assert(call_ensures(random_bytes, (len,), bytes));
    bytes
}

/// Bytes in a `zeroize::Zeroizing`, which overwrites them when it is dropped.
#[derive(Debug)]
#[verifier::external_body]
pub struct MasterKey {
    bytes: Zeroizing<Vec<u8>>,
}

/// The bytes that `key` holds.
pub uninterp spec fn key_bytes(key: MasterKey) -> Seq<u8>;

/// Calls `zeroize::Zeroizing::new`.
///
/// Claimed: the value holds the bytes that went in. That they are overwritten
/// on release is left unsaid.
#[verifier::external_body]
pub(crate) fn guard_key(bytes: Vec<u8>) -> (key: MasterKey)
    ensures
        key_bytes(key) == bytes@,
{
    MasterKey { bytes: Zeroizing::new(bytes) }
}

/// Calls `deref` of `zeroize::Zeroizing`.
///
/// Claimed: the slice is the bytes that the value holds.
#[verifier::external_body]
pub(crate) fn expose_key(key: &MasterKey) -> (bytes: &[u8])
    ensures
        bytes@ == key_bytes(*key),
{
    key.bytes.as_slice()
}

} // verus!
