//! When each operation of a vault succeeds, with what, and how it fails.
use crate::account_laws::{has_other_id, represents, Account};
use crate::crypto::{base64_text, drawn, xchacha_sealed};
use crate::envelope::{decrypted, encrypted, unwrapped, wrapped, EncryptedView, WrappedKeyView};
use crate::envelope_laws::{law_encryption, law_limits, law_wrapping};
use crate::error::{Failure, VaultError};
use crate::model::{by_provider, PasskeyView, SecretView, VaultDiskView, VaultPayload};
use crate::unlocked::{UnlockedVault, UnlockedView};
use crate::vault::{
    all_derivable, commits, derivable, enrolls, first_passkey, makes, of_other, opened_with,
    policy_failure, protects, reads, recoverable, revokes, rotates, seals, taken_up, unlocks, unlocks_with_passkey,
    unlocks_with_password, without_passkey, wraps, writes, Vault, VaultView,
};
use std::path::PathBuf;
use vstd::prelude::*;
use vstd::utf8::encode_utf8;

verus! {

/// A vault can be recovered exactly if it has a password or at least two
/// passkeys.
pub proof fn law_recovery(has_password: bool, passkey_count: nat, disk: VaultDiskView)
    ensures
        recoverable(has_password, passkey_count) <==> has_password || passkey_count >= 2,
        disk.recoverable() <==> disk.password_envelope is Some || disk.passkey_envelopes.len() >= 2,
        policy_failure() == Failure::InvalidData(
            "vault must have password unlock or at least two passkeys for recovery"@,
        ),
{
}

/// A secret can be used exactly if its bytes can be counted in 32 bits, and the
/// secrets of a new vault if each of them can.
pub proof fn law_usable_secrets(
    secret: Seq<char>,
    password: Option<&str>,
    passkeys: Seq<(String, String)>,
)
    ensures
        derivable(secret) <==> encode_utf8(secret).len() < 0x1_0000_0000,
        all_derivable(password, passkeys) <==> (match password {
            Some(text) => encode_utf8(text@).len() < 0x1_0000_0000,
            None => true,
        }) && forall|i: int|
            0 <= i < passkeys.len() ==> encode_utf8((#[trigger] passkeys[i]).1@).len()
                < 0x1_0000_0000,
{
    if all_derivable(password, passkeys) {
        assert forall|i: int| 0 <= i < passkeys.len() implies encode_utf8(
            (#[trigger] passkeys[i]).1@,
        ).len() < 0x1_0000_0000 by {
            assert(derivable(passkeys[i].1@));
        }
    }
}

/// The envelope of a credential is that of the first entry with its id.
pub proof fn law_first_passkey(envelopes: Seq<PasskeyView>, credential_id: Seq<char>)
    ensures
        match first_passkey(envelopes, credential_id) {
            Some(envelope) => exists|at: int|
                0 <= at < envelopes.len() && (#[trigger] envelopes[at]).credential_id
                    == credential_id && envelopes[at].wrapped_master_key == envelope && forall|
                    i: int,
                |
                    0 <= i < at ==> (#[trigger] envelopes[i]).credential_id != credential_id,
            None => forall|i: int|
                0 <= i < envelopes.len() ==> (#[trigger] envelopes[i]).credential_id
                    != credential_id,
        },
    decreases envelopes.len(),
{
    if envelopes.len() > 0 && envelopes[0].credential_id != credential_id {
        let rest = envelopes.drop_first();
        law_first_passkey(rest, credential_id);
        match first_passkey(rest, credential_id) {
            Some(envelope) => {
                let at = choose|at: int|
                    0 <= at < rest.len() && (#[trigger] rest[at]).credential_id == credential_id
                        && rest[at].wrapped_master_key == envelope && forall|i: int|
                        0 <= i < at ==> (#[trigger] rest[i]).credential_id != credential_id;
                assert forall|i: int| 0 <= i < at + 1 implies (
                #[trigger] envelopes[i]).credential_id != credential_id by {
                    if i > 0 {
                        assert(rest[i - 1] == envelopes[i]);
                    }
                }
                assert(envelopes[at + 1] == rest[at]);
            },
            None => {
                assert forall|i: int| 0 <= i < envelopes.len() implies (
                #[trigger] envelopes[i]).credential_id != credential_id by {
                    if i > 0 {
                        assert(rest[i - 1] == envelopes[i]);
                    }
                }
            },
        }
    }
}

/// The envelopes without a credential are those of every other credential, in
/// their order.
pub proof fn law_without_passkey(envelopes: Seq<PasskeyView>, credential_id: Seq<char>)
    ensures
        without_passkey(envelopes, credential_id) == envelopes.filter(
            |envelope: PasskeyView| envelope.credential_id != credential_id,
        ),
{
    assert(of_other(credential_id) =~= (|envelope: PasskeyView|
        envelope.credential_id != credential_id));
}

/// What is written and what is read is what the two functions answered on the
/// very tokens and on the very bytes.
pub proof fn law_what_is_written_and_read<E, D>(
    encode: E,
    decode: D,
    payload: VaultPayload,
    written: Result<Vec<u8>, VaultError>,
    bytes: &[u8],
    read: Result<VaultPayload, VaultError>,
    secrets: Map<Seq<char>, SecretView>,
    plaintext: Seq<u8>,
) where
    E: Fn(&VaultPayload) -> Result<Vec<u8>, VaultError>,
    D: Fn(&[u8]) -> Result<VaultPayload, VaultError>,

    ensures
        encode.ensures((&payload,), written) ==> writes(encode, payload.secrets@, written),
        decode.ensures((bytes,), read) ==> reads(decode, bytes@, read),
        writes(encode, secrets, written) ==> exists|p: VaultPayload|
            p.secrets@ == secrets && #[trigger] encode.ensures((&p,), written),
        reads(decode, plaintext, read) ==> exists|b: &[u8]|
            b@ == plaintext && #[trigger] decode.ensures((b,), read),
{
    if writes(encode, secrets, written) {
        let p = choose|p: VaultPayload|
            p@ == secrets && #[trigger] encode.ensures((&p,), written);
        assert(p.secrets@ == secrets && encode.ensures((&p,), written));
    }
    if reads(decode, plaintext, read) {
        let b = choose|b: &[u8]| b@ == plaintext && #[trigger] decode.ensures((b,), read);
        assert(b@ == plaintext && decode.ensures((b,), read));
    }
}

/// Opening with a key fails as the decryption or the reader fails, and else
/// gives a vault with that key, with the metadata of the file by provider, and
/// with the tokens that were read.
pub proof fn law_key_opens<D: Fn(&[u8]) -> Result<VaultPayload, VaultError>>(
    disk: VaultDiskView,
    key: Seq<u8>,
    failure: Failure,
    decode: D,
    unlocked: Result<UnlockedVault, VaultError>,
)
    ensures
        unlocks(disk, Err(failure), decode, unlocked) <==> (unlocked matches Err(err) && err@
            == failure),
        unlocks(disk, Ok(key), decode, unlocked) ==> match decrypted(disk.encrypted_payload, key) {
            Err(refused) => unlocked matches Err(err) && err@ == refused,
            Ok(plaintext) => exists|read: Result<VaultPayload, VaultError>| #[trigger]
                reads(decode, plaintext, read) && match read {
                    Err(err) => unlocked == Err::<UnlockedVault, VaultError>(err),
                    Ok(payload) => unlocked matches Ok(vault) && vault@.valid() && vault@.key == key
                        && vault@.metadata == by_provider(disk.token_metadata) && vault@.secrets
                        == payload.secrets@,
                },
        },
{
    if unlocks(disk, Ok(key), decode, unlocked) {
        if let Ok(plaintext) = decrypted(disk.encrypted_payload, key) {
            let read = choose|read: Result<VaultPayload, VaultError>| #[trigger]
                reads(decode, plaintext, read) && opened_with(
                    disk,
                    key,
                    read,
                    unlocked,
                );
            assert(reads(decode, plaintext, read));
        }
    }
}

/// A password or a passkey opens a vault with the key that it takes out of its
/// envelope; without an envelope it is refused.
pub proof fn law_secrets_open<D: Fn(&[u8]) -> Result<VaultPayload, VaultError>>(
    disk: VaultDiskView,
    credential_id: Seq<char>,
    secret: Seq<char>,
    decode: D,
    unlocked: Result<UnlockedVault, VaultError>,
)
    ensures
        match disk.password_envelope {
            Some(envelope) => unlocks_with_password(disk, secret, decode, unlocked) <==> unlocks(
                disk,
                unwrapped(secret, envelope),
                decode,
                unlocked,
            ),
            None => unlocks_with_password(disk, secret, decode, unlocked) <==> (unlocked matches Err(
                err,
            ) && err@ == Failure::InvalidInput("password login is not configured"@)),
        },
        match first_passkey(disk.passkey_envelopes, credential_id) {
            Some(envelope) => unlocks_with_passkey(disk, credential_id, secret, decode, unlocked)
                <==> unlocks(disk, unwrapped(secret, envelope), decode, unlocked),
            None => unlocks_with_passkey(disk, credential_id, secret, decode, unlocked) <==> (
            unlocked matches Err(err) && err@ == Failure::InvalidInput(
                "unknown passkey credential id"@,
            )),
        },
{
}

/// A file is taken up exactly if it has the version of this format, belongs to
/// the user or to nobody, and can be recovered; it then belongs to the user and
/// is else unchanged.
pub proof fn law_file_is_taken_up(disk: VaultDiskView, user: Seq<char>)
    ensures
        taken_up(disk, user) is Ok <==> disk.version == 1 && (disk.owner_user is None
            || disk.owner_user == Some(user)) && (disk.password_envelope is Some
            || disk.passkey_envelopes.len() >= 2),
        taken_up(disk, user) matches Ok(taken) ==> taken == (VaultDiskView {
            owner_user: Some(user),
            ..disk
        }),
        disk.version != 1 ==> taken_up(disk, user) == Err::<VaultDiskView, Failure>(
            Failure::InvalidData("unsupported vault version"@),
        ),
        disk.version == 1 && disk.owner_user is Some && disk.owner_user != Some(user) ==> taken_up(
            disk,
            user,
        ) == Err::<VaultDiskView, Failure>(
            Failure::InvalidInput("vault belongs to a different OS user"@),
        ),
        disk.version == 1 && (disk.owner_user is None || disk.owner_user == Some(user))
            && disk.password_envelope is None && disk.passkey_envelopes.len() < 2 ==> taken_up(
            disk,
            user,
        ) == Err::<VaultDiskView, Failure>(
            Failure::InvalidData(
                "vault must have password unlock or at least two passkeys for recovery"@,
            ),
        ),
{
}

/// A vault is made whenever its password is not blank, it can be recovered, its
/// secrets can be used, and its tokens can be written and encrypted; else the
/// first of these that is not so is the failure.
pub proof fn law_creation_succeeds<E: Fn(&VaultPayload) -> Result<Vec<u8>, VaultError>>(
    path: PathBuf,
    password: Option<&str>,
    passkeys: Seq<(String, String)>,
    user: Seq<char>,
    encode: E,
    key: Seq<u8>,
    created: Result<Vault, VaultError>,
)
    requires
        makes(path, password, passkeys, user, encode, key, created),
    ensures
        ({
            let is_blank = password matches Some(text) && crate::text::blank(text@);
            let can_recover = password is Some || passkeys.len() >= 2;
            let usable = (match password {
                Some(text) => encode_utf8(text@).len() < 0x1_0000_0000,
                None => true,
            }) && forall|i: int|
                0 <= i < passkeys.len() ==> encode_utf8((#[trigger] passkeys[i]).1@).len()
                    < 0x1_0000_0000;
            &&& is_blank ==> (created matches Err(err) && err@ == Failure::InvalidInput(
                "password must not be empty"@,
            ))
            &&& !is_blank && !can_recover ==> (created matches Err(err) && err@
                == Failure::InvalidData(
                "vault must have password unlock or at least two passkeys for recovery"@,
            ))
            &&& !is_blank && can_recover && !usable ==> (created matches Err(err) && err@
                == Failure::Crypto("argon2 derivation failed"@))
            &&& !is_blank && can_recover && usable ==> exists|
                written: Result<Vec<u8>, VaultError>,
            | #[trigger]
                writes(encode, Map::empty(), written) && match written {
                    Err(refused) => created == Err::<Vault, VaultError>(refused),
                    Ok(bytes) => if bytes@.len() <= 274_877_906_816 && bytes@.len() + 16
                        <= usize::MAX / 2 / 4 * 3 {
                        created is Ok
                    } else {
                        created matches Err(err) && err@ == Failure::Crypto("encryption failed"@)
                    },
                }
        }),
{
    law_usable_secrets(Seq::empty(), password, passkeys);
    law_limits(0, 0, 0, 0, 0, 0);
    match created {
        Ok(vault) => {
            let written = choose|written: Vec<u8>| #[trigger]
                writes(encode, Map::empty(), Ok(written)) && crate::crypto::sealable(written@.len())
                    && protects(vault@.disk, password, passkeys, key, written@);
            law_limits(0, 0, 0, 0, 0, written@.len());
            assert(writes(encode, Map::<Seq<char>, SecretView>::empty(), Ok(written)));
        },
        Err(err) => {
            if !(password matches Some(text) && crate::text::blank(text@)) && (password is Some
                || passkeys.len() >= 2) && all_derivable(password, passkeys) {
                let written = choose|written: Result<Vec<u8>, VaultError>| #[trigger]
                    writes(encode, Map::empty(), written) && match written {
                        Ok(bytes) => !crate::crypto::sealable(bytes@.len()) && err@
                            == Failure::Crypto("encryption failed"@),
                        Err(refused) => err == refused,
                    };
                if let Ok(bytes) = written {
                    law_limits(0, 0, 0, 0, 0, bytes@.len());
                }
                assert(writes(encode, Map::<Seq<char>, SecretView>::empty(), written));
            }
        },
    }
}

/// A commit succeeds exactly if the tokens can be written and encrypted, and
/// changes nothing but the metadata and the encrypted tokens.
pub proof fn law_commit_succeeds<E: Fn(&VaultPayload) -> Result<Vec<u8>, VaultError>>(
    before: VaultView,
    unlocked: UnlockedView,
    encode: E,
    after: VaultView,
    committed: Result<(), VaultError>,
)
    requires
        commits(before, unlocked, encode, after, committed),
    ensures
        after.path == before.path,
        after.disk.version == before.disk.version,
        after.disk.owner_user == before.disk.owner_user,
        after.disk.password_envelope == before.disk.password_envelope,
        after.disk.passkey_envelopes == before.disk.passkey_envelopes,
        after.disk.token_metadata == unlocked.order.map_values(
            |provider: Seq<char>| unlocked.metadata[provider],
        ),
        exists|written: Result<Vec<u8>, VaultError>| #[trigger]
            writes(encode, unlocked.secrets, written) && match written {
                Err(refused) => committed == Err::<(), VaultError>(refused)
                    && after.disk.encrypted_payload == before.disk.encrypted_payload,
                Ok(bytes) => if bytes@.len() <= 274_877_906_816 && bytes@.len() + 16 <= usize::MAX
                    / 2 / 4 * 3 {
                    committed is Ok && decrypted(after.disk.encrypted_payload, unlocked.key)
                        == Ok::<Seq<u8>, Failure>(bytes@)
                } else {
                    (committed matches Err(err) && err@ == Failure::Crypto("encryption failed"@))
                        && after.disk.encrypted_payload == before.disk.encrypted_payload
                },
            },
{
    assert(after.disk.token_metadata =~= unlocked.order.map_values(
        |provider: Seq<char>| unlocked.metadata[provider],
    ));
    let written = choose|written: Result<Vec<u8>, VaultError>| #[trigger]
        writes(encode, unlocked.secrets, written) && match written {
            Err(refused) => committed == Err::<(), VaultError>(refused)
                && after.disk.encrypted_payload == before.disk.encrypted_payload,
            Ok(bytes) => if crate::crypto::sealable(bytes@.len()) {
                committed is Ok && seals(after.disk.encrypted_payload, bytes@, unlocked.key)
            } else {
                crate::error::outcome(committed) == Err::<(), Failure>(
                    Failure::Crypto("encryption failed"@),
                ) && after.disk.encrypted_payload == before.disk.encrypted_payload
            },
        };
    if let Ok(bytes) = written {
        law_limits(0, 0, 0, 0, 0, bytes@.len());
    }
    assert(writes(encode, unlocked.secrets, written));
}

/// A rotation succeeds exactly if the new password is not empty and can be
/// used; it then changes the password envelope alone, and else nothing.
pub proof fn law_rotation_succeeds(
    before: VaultView,
    key: Seq<u8>,
    password: Seq<char>,
    after: VaultView,
    rotated: Result<(), Failure>,
)
    requires
        rotates(before, key, password, after, rotated),
    ensures
        rotated is Ok <==> password.len() > 0 && encode_utf8(password).len() < 0x1_0000_0000,
        password.len() == 0 ==> rotated == Err::<(), Failure>(
            Failure::InvalidInput("new password must not be empty"@),
        ),
        password.len() > 0 && encode_utf8(password).len() >= 0x1_0000_0000 ==> rotated == Err::<
            (),
            Failure,
        >(Failure::Crypto("argon2 derivation failed"@)),
        rotated is Err ==> after == before,
        rotated is Ok ==> {
            &&& after.path == before.path
            &&& after.disk == (VaultDiskView {
                password_envelope: after.disk.password_envelope,
                ..before.disk
            })
            &&& after.disk.password_envelope matches Some(envelope) && unwrapped(password, envelope)
                == Ok::<Seq<u8>, Failure>(key) && envelope.kdf.memory_kib == 19_456
                && envelope.kdf.iterations == 2 && envelope.kdf.parallelism == 1
        },
{
    law_usable_secrets(password, None, Seq::empty());
    if rotated is Ok {
        law_envelopes_wrap_the_key(after.disk.password_envelope->0, password, key);
    }
}

/// An enrolment succeeds exactly if the credential id and the secret are not
/// empty, the secret can be used, and the vault has a password or the passkey
/// of another credential; the new passkey then stands behind those of every
/// other credential, and nothing else changes.
pub proof fn law_enrolment_succeeds(
    before: VaultView,
    key: Seq<u8>,
    credential_id: Seq<char>,
    secret: Seq<char>,
    after: VaultView,
    enrolled: Result<(), Failure>,
)
    requires
        enrolls(before, key, credential_id, secret, after, enrolled),
    ensures
        ({
            let others = before.disk.passkey_envelopes.filter(
                |envelope: PasskeyView| envelope.credential_id != credential_id,
            );
            let usable = encode_utf8(secret).len() < 0x1_0000_0000;
            &&& enrolled is Ok <==> credential_id.len() > 0 && secret.len() > 0 && usable && (
            before.disk.password_envelope is Some || others.len() >= 1)
            &&& after.path == before.path
            &&& after.disk == (VaultDiskView {
                passkey_envelopes: after.disk.passkey_envelopes,
                ..before.disk
            })
            &&& credential_id.len() == 0 ==> enrolled == Err::<(), Failure>(
                Failure::InvalidInput("credential_id must not be empty"@),
            )
            &&& credential_id.len() > 0 && secret.len() == 0 ==> enrolled == Err::<(), Failure>(
                Failure::InvalidInput("passkey secret must not be empty"@),
            )
            &&& credential_id.len() == 0 || secret.len() == 0 ==> after == before
            &&& credential_id.len() > 0 && secret.len() > 0 && !usable ==> enrolled == Err::<
                (),
                Failure,
            >(Failure::Crypto("argon2 derivation failed"@)) && after.disk.passkey_envelopes
                == others
            &&& credential_id.len() > 0 && secret.len() > 0 && usable ==> {
                &&& enrolled is Err ==> enrolled == Err::<(), Failure>(
                    Failure::InvalidData(
                        "vault must have password unlock or at least two passkeys for recovery"@,
                    ),
                )
                &&& after.disk.passkey_envelopes.len() == others.len() + 1
                &&& after.disk.passkey_envelopes.drop_last() == others
                &&& after.disk.passkey_envelopes.last().credential_id == credential_id
                &&& unwrapped(secret, after.disk.passkey_envelopes.last().wrapped_master_key)
                    == Ok::<Seq<u8>, Failure>(key)
                &&& after.disk.passkey_envelopes.last().wrapped_master_key.kdf.memory_kib == 19_456
                &&& after.disk.passkey_envelopes.last().wrapped_master_key.kdf.iterations == 2
                &&& after.disk.passkey_envelopes.last().wrapped_master_key.kdf.parallelism == 1
            }
        }),
{
    if credential_id.len() > 0 && secret.len() > 0 && derivable(secret) {
        law_envelopes_wrap_the_key(
            after.disk.passkey_envelopes.last().wrapped_master_key,
            secret,
            key,
        );
    }
    law_usable_secrets(secret, None, Seq::empty());
    law_without_passkey(before.disk.passkey_envelopes, credential_id);
}

/// A revocation succeeds exactly if the credential has a passkey, and the vault
/// has a password or at least two passkeys of other credentials; in every case
/// the passkeys of the other credentials are left, in their order, and nothing
/// else changes.
pub proof fn law_revocation_succeeds(
    before: VaultView,
    credential_id: Seq<char>,
    after: VaultView,
    revoked: Result<(), Failure>,
)
    requires
        revokes(before, credential_id, after, revoked),
    ensures
        ({
            let others = before.disk.passkey_envelopes.filter(
                |envelope: PasskeyView| envelope.credential_id != credential_id,
            );
            let known = exists|i: int|
                0 <= i < before.disk.passkey_envelopes.len() && (
                #[trigger] before.disk.passkey_envelopes[i]).credential_id == credential_id;
            &&& revoked is Ok <==> known && (before.disk.password_envelope is Some || others.len()
                >= 2)
            &&& !known ==> revoked == Err::<(), Failure>(
                Failure::InvalidInput("passkey credential id not found"@),
            )
            &&& known && revoked is Err ==> revoked == Err::<(), Failure>(
                Failure::InvalidData(
                    "vault must have password unlock or at least two passkeys for recovery"@,
                ),
            )
            &&& after.path == before.path
            &&& after.disk == (VaultDiskView { passkey_envelopes: others, ..before.disk })
        }),
{
    law_without_passkey(before.disk.passkey_envelopes, credential_id);
    law_first_passkey(before.disk.passkey_envelopes, credential_id);
}

/// A passkey of an account can be revoked whenever the account has a password
/// or at least two passkeys with other ids.
pub proof fn law_passkeys_can_be_revoked<E: Fn(&VaultPayload) -> Result<Vec<u8>, VaultError>>(
    account: Account,
    encode: E,
    before: VaultView,
    credential_id: Seq<char>,
    after: VaultView,
    revoked: Result<(), Failure>,
)
    requires
        represents(before.disk, account, encode),
        revokes(before, credential_id, after, revoked),
        exists|i: int|
            0 <= i < account.passkeys.len() && (#[trigger] account.passkeys[i]).0 == credential_id,
        account.password is Some || account.passkeys.filter(
            |passkey: (Seq<char>, Seq<char>)| passkey.0 != credential_id,
        ).len() >= 2,
    ensures
        revoked is Ok,
{
    let i = choose|i: int|
        0 <= i < account.passkeys.len() && (#[trigger] account.passkeys[i]).0 == credential_id;
    assert(crate::account_laws::answers(
        before.disk.passkey_envelopes[i],
        account.passkeys[i],
        account.key,
    ));
    assert(before.disk.passkey_envelopes[i].credential_id == credential_id);
    assert(has_other_id(credential_id) =~= (|passkey: (Seq<char>, Seq<char>)|
        passkey.0 != credential_id));
    crate::account_laws::lemma_filtered_answer(
        before.disk.passkey_envelopes,
        account.passkeys,
        account.key,
        credential_id,
    );
    law_revocation_succeeds(before, credential_id, after, revoked);
    law_without_passkey(before.disk.passkey_envelopes, credential_id);
}

/// An envelope of a vault wraps the key at the cost of 19 MiB, two passes and
/// one lane, with a salt and a nonce that were drawn, and its secret takes the
/// key out again.
pub proof fn law_envelopes_wrap_the_key(
    envelope: WrappedKeyView,
    secret: Seq<char>,
    key: Seq<u8>,
)
    requires
        wraps(envelope, secret, key),
    ensures
        unwrapped(secret, envelope) == Ok::<Seq<u8>, Failure>(key),
        envelope.kdf.memory_kib == 19_456,
        envelope.kdf.iterations == 2,
        envelope.kdf.parallelism == 1,
        exists|salt: [u8; 16], nonce: [u8; 24]| #[trigger]
            drawn(salt) && #[trigger] drawn(nonce) && envelope.salt_b64 == base64_text(salt@)
                && envelope.nonce_b64 == base64_text(nonce@),
{
    let (salt, nonce): ([u8; 16], [u8; 24]) = choose|salt: [u8; 16], nonce: [u8; 24]| #[trigger]
        drawn(salt) && #[trigger] drawn(nonce) && wrapped(
            secret,
            key,
            crate::envelope::default_cost(),
            salt@,
            nonce@,
        ) == Ok::<_, Failure>(envelope);
    law_wrapping(secret, key, crate::envelope::default_cost(), salt@, nonce@);
    law_limits(0, 0, 0, 0, 0, 0);
    assert(drawn(salt) && drawn(nonce));
}

/// A payload of a vault is the plaintext encrypted under the key with a nonce
/// that was drawn, and the key gives the plaintext back.
pub proof fn law_payloads_seal_the_plaintext(
    payload: EncryptedView,
    plaintext: Seq<u8>,
    key: Seq<u8>,
)
    requires
        seals(payload, plaintext, key),
    ensures
        decrypted(payload, key) == Ok::<Seq<u8>, Failure>(plaintext),
        exists|nonce: [u8; 24]| #[trigger]
            drawn(nonce) && payload.nonce_b64 == base64_text(nonce@) && payload.ciphertext_b64
                == base64_text(xchacha_sealed(key, nonce@, plaintext)),
{
    let nonce: [u8; 24] = choose|nonce: [u8; 24]| #[trigger]
        drawn(nonce) && encrypted(plaintext, key, nonce@) == Ok::<_, Failure>(payload);
    law_encryption(plaintext, key, nonce@);
    assert(drawn(nonce));
}

/// A new vault is made under the key alone: each of its envelopes wraps it at
/// the full cost, its owner is the user, its version that of this format, and
/// it stands at the path that was given.
pub proof fn law_new_vaults_at_full_cost<E: Fn(&VaultPayload) -> Result<Vec<u8>, VaultError>>(
    path: PathBuf,
    password: Option<&str>,
    passkeys: Seq<(String, String)>,
    user: Seq<char>,
    encode: E,
    key: Seq<u8>,
    vault: Vault,
)
    requires
        makes(path, password, passkeys, user, encode, key, Ok(vault)),
    ensures
        vault@.path == path,
        vault@.disk.version == 1,
        vault@.disk.owner_user == Some(user),
        vault@.disk.token_metadata.len() == 0,
        password is Some <==> vault@.disk.password_envelope is Some,
        vault@.disk.password_envelope matches Some(envelope) ==> envelope.kdf.memory_kib == 19_456
            && envelope.kdf.iterations == 2 && envelope.kdf.parallelism == 1,
        vault@.disk.passkey_envelopes.len() == passkeys.len(),
        forall|i: int|
            0 <= i < passkeys.len() ==> (
            #[trigger] vault@.disk.passkey_envelopes[i]).credential_id == passkeys[i].0@
                && vault@.disk.passkey_envelopes[i].wrapped_master_key.kdf.memory_kib == 19_456
                && vault@.disk.passkey_envelopes[i].wrapped_master_key.kdf.iterations == 2
                && vault@.disk.passkey_envelopes[i].wrapped_master_key.kdf.parallelism == 1,
{
    let written = choose|written: Vec<u8>| #[trigger]
        writes(encode, Map::empty(), Ok(written)) && crate::crypto::sealable(written@.len())
            && protects(vault@.disk, password, passkeys, key, written@);
    if let Some(text) = password {
        law_envelopes_wrap_the_key(vault@.disk.password_envelope->0, text@, key);
    }
    assert forall|i: int| 0 <= i < passkeys.len() implies (
    #[trigger] vault@.disk.passkey_envelopes[i]).credential_id == passkeys[i].0@
        && vault@.disk.passkey_envelopes[i].wrapped_master_key.kdf.memory_kib == 19_456
        && vault@.disk.passkey_envelopes[i].wrapped_master_key.kdf.iterations == 2
        && vault@.disk.passkey_envelopes[i].wrapped_master_key.kdf.parallelism == 1 by {
        law_envelopes_wrap_the_key(
            vault@.disk.passkey_envelopes[i].wrapped_master_key,
            passkeys[i].1@,
            key,
        );
    }
}

/// A new vault is wrapped under its password and under each passkey in turn,
/// and sealed under the same key.
pub proof fn law_new_vaults_are_protected(
    disk: VaultDiskView,
    password: Option<&str>,
    passkeys: Seq<(String, String)>,
    key: Seq<u8>,
    plaintext: Seq<u8>,
)
    ensures
        protects(disk, password, passkeys, key, plaintext) ==> {
            &&& key.len() == 32
            &&& seals(disk.encrypted_payload, plaintext, key)
            &&& match password {
                Some(text) => disk.password_envelope matches Some(envelope) && wraps(
                    envelope,
                    text@,
                    key,
                ),
                None => disk.password_envelope is None,
            }
            &&& disk.passkey_envelopes.len() == passkeys.len()
            &&& forall|i: int|
                0 <= i < passkeys.len() ==> (#[trigger] disk.passkey_envelopes[i]).credential_id
                    == passkeys[i].0@ && wraps(
                    disk.passkey_envelopes[i].wrapped_master_key,
                    passkeys[i].1@,
                    key,
                )
        },
{
}

/// A vault that is opened with tokens that were read has the key, the metadata
/// of the file by provider, and those tokens; a failure to read is handed on.
pub proof fn law_read_tokens_are_given_out(
    disk: VaultDiskView,
    key: Seq<u8>,
    payload: VaultPayload,
    err: VaultError,
    vault: UnlockedVault,
    unlocked: Result<UnlockedVault, VaultError>,
)
    ensures
        opened_with(disk, key, Ok(payload), Ok(vault)) <==> vault@.valid() && vault@.key == key
            && vault@.metadata == by_provider(disk.token_metadata) && vault@.secrets
            == payload.secrets@,
        opened_with(disk, key, Ok(payload), unlocked) ==> unlocked is Ok,
        opened_with(disk, key, Err(err), unlocked) <==> unlocked == Err::<
            UnlockedVault,
            VaultError,
        >(err),
{
}

} // verus!
