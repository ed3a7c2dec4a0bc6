//! What encryption, wrapping and decoding do on every input.
use crate::crypto::{
    argon2_cost_ok, argon2_input_ok, argon2id_hash, base64_bytes, base64_text, encodable, sealable,
    xchacha_opened, xchacha_sealed,
};
use crate::envelope::{
    cut_short, decoded, decrypted, default_cost, derived_key, encrypted, fixed_field, unwrapped,
    wrapped, EncryptedView, KdfConfig, WrappedKeyView,
};
use crate::error::Failure;
use vstd::prelude::*;
use vstd::utf8::encode_utf8;

verus! {

/// Which costs and inputs the key derivation takes, and which lengths can be
/// encoded and encrypted.
pub proof fn law_limits(
    memory_kib: u32,
    iterations: u32,
    parallelism: u32,
    secret_len: nat,
    salt_len: nat,
    len: nat,
)
    ensures
        argon2_cost_ok(memory_kib, iterations, parallelism) <==> memory_kib >= 8 && memory_kib >= 8
            * parallelism && iterations >= 1 && 1 <= parallelism < 0x100_0000,
        argon2_input_ok(secret_len, salt_len) <==> secret_len < 0x1_0000_0000 && 8 <= salt_len
            < 0x1_0000_0000,
        encodable(len) <==> len <= usize::MAX / 2 / 4 * 3,
        sealable(len) <==> len <= 274_877_906_816 && len + 16 <= usize::MAX / 2 / 4 * 3,
        default_cost().memory_kib == 19_456,
        default_cost().iterations == 2,
        default_cost().parallelism == 1,
{
}

/// A field decodes to the bytes of its base64 text if these are as many as
/// expected; else it is named by what is wrong with it.
pub proof fn law_fixed_fields(name: Seq<char>, text: Seq<char>, expected_len: nat)
    ensures
        decoded(text) == base64_bytes(encode_utf8(text)),
        decoded(text) is None ==> fixed_field(name, text, expected_len) == Err::<Seq<u8>, Failure>(
            Failure::InvalidData("invalid base64 value"@),
        ),
        decoded(text) matches Some(bytes) ==> {
            &&& bytes.len() == expected_len ==> fixed_field(name, text, expected_len) == Ok::<
                Seq<u8>,
                Failure,
            >(bytes)
            &&& bytes.len() != expected_len ==> fixed_field("salt"@, text, expected_len) == Err::<
                Seq<u8>,
                Failure,
            >(Failure::InvalidData("invalid salt length"@)) && fixed_field(
                "nonce"@,
                text,
                expected_len,
            ) == Err::<Seq<u8>, Failure>(Failure::InvalidData("invalid nonce length"@)) && (name
                != "salt"@ && name != "nonce"@ ==> fixed_field(name, text, expected_len) == Err::<
                Seq<u8>,
                Failure,
            >(Failure::InvalidData("invalid field length"@)))
        },
{
    reveal_strlit("salt");
    reveal_strlit("nonce");
    assert("salt"@.len() != "nonce"@.len());
}

/// A derived key is the hash of the secret and the salt at the given cost, 32
/// bytes asked for; costs and inputs that are not taken are told apart.
pub proof fn law_derived_keys(secret: Seq<char>, salt: Seq<u8>, kdf: KdfConfig)
    ensures
        !argon2_cost_ok(kdf.memory_kib, kdf.iterations, kdf.parallelism) ==> derived_key(
            secret,
            salt,
            kdf,
        ) == Err::<Seq<u8>, Failure>(Failure::Crypto("invalid argon2 params"@)),
        argon2_cost_ok(kdf.memory_kib, kdf.iterations, kdf.parallelism) && !argon2_input_ok(
            encode_utf8(secret).len(),
            salt.len(),
        ) ==> derived_key(secret, salt, kdf) == Err::<Seq<u8>, Failure>(
            Failure::Crypto("argon2 derivation failed"@),
        ),
        argon2_cost_ok(kdf.memory_kib, kdf.iterations, kdf.parallelism) && argon2_input_ok(
            encode_utf8(secret).len(),
            salt.len(),
        ) ==> derived_key(secret, salt, kdf) == Ok::<Seq<u8>, Failure>(
            argon2id_hash(
                encode_utf8(secret),
                salt,
                kdf.memory_kib,
                kdf.iterations,
                kdf.parallelism,
                32,
            ),
        ),
{
}

/// Encryption gives the nonce and the ciphertext of the plaintext under the
/// key, as base64, for every plaintext that can be encrypted and every key of
/// 32 bytes.
pub proof fn law_encryption(plaintext: Seq<u8>, key: Seq<u8>, nonce: Seq<u8>)
    ensures
        key.len() != 32 ==> encrypted(plaintext, key, nonce) == Err::<EncryptedView, Failure>(
            Failure::Crypto("invalid key length"@),
        ),
        key.len() == 32 && !sealable(plaintext.len()) ==> encrypted(plaintext, key, nonce) == Err::<
            EncryptedView,
            Failure,
        >(Failure::Crypto("encryption failed"@)),
        key.len() == 32 && sealable(plaintext.len()) ==> (encrypted(plaintext, key, nonce) matches Ok(
            payload,
        ) && payload.nonce_b64 == base64_text(nonce) && payload.ciphertext_b64 == base64_text(
            xchacha_sealed(key, nonce, plaintext),
        )),
{
}

/// Decryption opens the ciphertext of the payload under the key with the nonce
/// of the payload; what stands in its way is named.
pub proof fn law_decryption(payload: EncryptedView, key: Seq<u8>, nonce: Seq<u8>, sealed: Seq<u8>)
    requires
        decoded(payload.nonce_b64) == Some(nonce),
        decoded(payload.ciphertext_b64) == Some(sealed),
    ensures
        key.len() != 32 ==> decrypted(payload, key) == Err::<Seq<u8>, Failure>(
            Failure::Crypto("invalid key length"@),
        ),
        key.len() == 32 && nonce.len() != 24 ==> decrypted(payload, key) == Err::<
            Seq<u8>,
            Failure,
        >(Failure::InvalidData("invalid nonce length"@)),
        key.len() == 32 && nonce.len() == 24 && (sealed.len() > 274_877_906_832 || xchacha_opened(
            key,
            nonce,
            sealed,
        ) is None) ==> decrypted(payload, key) == Err::<Seq<u8>, Failure>(
            Failure::Crypto("decryption failed"@),
        ),
        key.len() == 32 && nonce.len() == 24 && sealed.len() <= 274_877_906_832 ==> (xchacha_opened(
            key,
            nonce,
            sealed,
        ) matches Some(plaintext) ==> decrypted(payload, key) == Ok::<Seq<u8>, Failure>(plaintext)),
{
    reveal_strlit("salt");
    reveal_strlit("nonce");
    assert("salt"@.len() != "nonce"@.len());
}

/// A payload whose fields are not base64 is not decrypted, and says which.
pub proof fn law_decryption_of_bad_text(payload: EncryptedView, key: Seq<u8>)
    requires
        key.len() == 32,
    ensures
        decoded(payload.nonce_b64) is None ==> decrypted(payload, key) == Err::<Seq<u8>, Failure>(
            Failure::InvalidData("invalid base64 value"@),
        ),
        decoded(payload.nonce_b64) matches Some(nonce) ==> nonce.len() == 24 && decoded(
            payload.ciphertext_b64,
        ) is None ==> decrypted(payload, key) == Err::<Seq<u8>, Failure>(
            Failure::InvalidData("ciphertext is not valid base64"@),
        ),
{
}

/// A payload is cut short exactly if its text is too short for sixteen bytes,
/// or stands for fewer.
pub proof fn law_cut_short(payload: EncryptedView)
    ensures
        cut_short(payload) <==> encode_utf8(payload.ciphertext_b64).len() <= 20 || (decoded(
            payload.ciphertext_b64,
        ) matches Some(ciphertext) && ciphertext.len() < 16),
{
}

/// A wrapped key is the key encrypted under what its secret and salt derive,
/// and names its cost and its salt.
pub proof fn law_wrapping(
    secret: Seq<char>,
    key: Seq<u8>,
    kdf: KdfConfig,
    salt: Seq<u8>,
    nonce: Seq<u8>,
)
    ensures
        derived_key(secret, salt, kdf) matches Err(failure) ==> wrapped(
            secret,
            key,
            kdf,
            salt,
            nonce,
        ) == Err::<WrappedKeyView, Failure>(failure),
        derived_key(secret, salt, kdf) matches Ok(derived) ==> match encrypted(
            key,
            derived,
            nonce,
        ) {
            Err(failure) => wrapped(secret, key, kdf, salt, nonce) == Err::<
                WrappedKeyView,
                Failure,
            >(failure),
            Ok(sealed) => wrapped(secret, key, kdf, salt, nonce) matches Ok(envelope)
                && envelope.kdf == kdf && envelope.salt_b64 == base64_text(salt)
                && envelope.nonce_b64 == sealed.nonce_b64 && envelope.ciphertext_b64
                == sealed.ciphertext_b64,
        },
{
}

/// A key is taken out of its envelope by decrypting it under what the secret
/// and the salt of the envelope derive at the cost of the envelope.
pub proof fn law_unwrapping(secret: Seq<char>, envelope: WrappedKeyView)
    ensures
        fixed_field("salt"@, envelope.salt_b64, 16) matches Err(failure) ==> unwrapped(
            secret,
            envelope,
        ) == Err::<Seq<u8>, Failure>(failure),
        fixed_field("salt"@, envelope.salt_b64, 16) matches Ok(salt) ==> match derived_key(
            secret,
            salt,
            envelope.kdf,
        ) {
            Err(failure) => unwrapped(secret, envelope) == Err::<Seq<u8>, Failure>(failure),
            Ok(derived) => unwrapped(secret, envelope) == decrypted(
                EncryptedView {
                    nonce_b64: envelope.nonce_b64,
                    ciphertext_b64: envelope.ciphertext_b64,
                },
                derived,
            ),
        },
{
}

} // verus!
