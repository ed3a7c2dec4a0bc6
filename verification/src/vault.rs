//! The vault: a file that keeps tokens encrypted under a master key, which is
//! itself wrapped under a password, passkeys, or both.
pub use crate::error::VaultError;
pub use crate::model::{OAuthSecret, TokenMetadata};
pub use crate::unlocked::UnlockedVault;

use crate::crypto::{argon2_input_ok, draw_bytes, drawn, drawn_bytes, sealable};
use crate::envelope::{
    cut_short, decrypt_bytes, decrypted, default_cost, default_kdf, encrypt_bytes, encrypted,
    unwrap_key_with_secret, unwrapped, wrap_key_with_secret, wrapped, EncryptedView,
    WrappedKeyView, KEY_LEN, SALT_LEN,
};
use crate::error::{outcome, Failure};
use crate::model::{
    by_provider, PasskeyEnvelope, PasskeyView, SecretView, VaultDisk, VaultDiskView, VaultPayload,
};
use crate::text::{blank, is_blank, lemma_take_next, lemma_views_push, retain, views};
use crate::unlocked::UnlockedView;
use std::path::PathBuf;
use vstd::prelude::*;
use vstd::utf8::encode_utf8;

verus! {

/// The version of the file format.
pub const VAULT_VERSION: u32 = 1;

/// A file path, carried through unread.
#[verifier::external_type_specification]
#[verifier::external_body]
pub struct ExPathBuf(PathBuf);

/// A vault and the path of its file.
#[derive(Debug)]
pub struct Vault {
    path: PathBuf,
    disk: VaultDisk,
}

/// The content of a [`Vault`].
#[verifier::ext_equal]
pub struct VaultView {
    pub path: PathBuf,
    pub disk: VaultDiskView,
}

impl View for Vault {
    type V = VaultView;

    closed spec fn view(&self) -> VaultView {
        VaultView { path: self.path, disk: self.disk@ }
    }
}

/// Whether a vault can still be opened after one passkey is lost.
pub open spec fn recoverable(has_password: bool, passkey_count: nat) -> bool {
    has_password || passkey_count >= 2
}

/// Refuses a vault that losing one passkey would lock for good.
pub fn validate_recovery_policy(has_password: bool, passkey_count: usize) -> (checked: Result<
    (),
    VaultError,
>)
    ensures
        outcome(checked) == if recoverable(has_password, passkey_count as nat) {
            Ok::<(), Failure>(())
        } else {
            Err(policy_failure())
        },
{
    if has_password || passkey_count >= 2 {
        return Ok(());
    }
    Err(
        VaultError::InvalidData(
            "vault must have password unlock or at least two passkeys for recovery",
        ),
    )
}

/// How an unrecoverable vault is refused.
pub open spec fn policy_failure() -> Failure {
    Failure::InvalidData("vault must have password unlock or at least two passkeys for recovery"@)
}

impl VaultDiskView {
    /// Whether the recovery policy holds of this file.
    pub open spec fn recoverable(self) -> bool {
        recoverable(self.password_envelope is Some, self.passkey_envelopes.len())
    }
}

/// Whether `secret` is short enough for a key to be derived from it.
pub open spec fn derivable(secret: Seq<char>) -> bool {
    argon2_input_ok(encode_utf8(secret).len(), SALT_LEN as nat)
}

/// Whether `envelope` wraps `key` under `secret` at the default cost with a
/// salt and a nonce that were drawn, so that `secret` takes it out again.
pub open spec fn wraps(envelope: WrappedKeyView, secret: Seq<char>, key: Seq<u8>) -> bool {
    &&& unwrapped(secret, envelope) == Ok::<_, Failure>(key)
    &&& exists|salt: [u8; 16], nonce: [u8; 24]| #[trigger]
        drawn(salt) && #[trigger] drawn(nonce) && wrapped(
            secret,
            key,
            default_cost(),
            salt@,
            nonce@,
        ) == Ok::<_, Failure>(envelope)
}

/// Whether `payload` is `plaintext` encrypted under `key` with a nonce that was
/// drawn, so that `key` decrypts it again.
pub open spec fn seals(payload: EncryptedView, plaintext: Seq<u8>, key: Seq<u8>) -> bool {
    &&& decrypted(payload, key) == Ok::<_, Failure>(plaintext)
    &&& exists|nonce: [u8; 24]| #[trigger]
        drawn(nonce) && encrypted(plaintext, key, nonce@) == Ok::<_, Failure>(payload)
}

/// The first passkey envelope of `credential_id`.
pub open spec fn first_passkey(envelopes: Seq<PasskeyView>, credential_id: Seq<char>) -> Option<
    WrappedKeyView,
>
    decreases envelopes.len(),
{
    if envelopes.len() == 0 {
        None
    } else if envelopes[0].credential_id == credential_id {
        Some(envelopes[0].wrapped_master_key)
    } else {
        first_passkey(envelopes.drop_first(), credential_id)
    }
}

/// Whether an envelope is that of another credential.
pub open spec fn of_other(credential_id: Seq<char>) -> spec_fn(PasskeyView) -> bool {
    |envelope: PasskeyView| envelope.credential_id != credential_id
}

/// The passkey envelopes of every other credential.
pub open spec fn without_passkey(
    envelopes: Seq<PasskeyView>,
    credential_id: Seq<char>,
) -> Seq<PasskeyView> {
    envelopes.filter(of_other(credential_id))
}

/// Whether `unlocked` is the outcome of opening `disk` with a master key that
/// came out as `key`, the tokens being read by `decode`.
pub open spec fn unlocks<D: Fn(&[u8]) -> Result<VaultPayload, VaultError>>(
    disk: VaultDiskView,
    key: Result<Seq<u8>, Failure>,
    decode: D,
    unlocked: Result<UnlockedVault, VaultError>,
) -> bool {
    match key {
        Err(failure) => unlocked matches Err(err) && err@ == failure,
        Ok(key) => match decrypted(disk.encrypted_payload, key) {
            Err(failure) => unlocked matches Err(err) && err@ == failure,
            Ok(plaintext) => exists|read: Result<VaultPayload, VaultError>| #[trigger]
                reads(decode, plaintext, read) && opened_with(disk, key, read, unlocked),
        },
    }
}

/// Whether `unlocked` is what `disk` gives under `key` once its tokens were
/// read as `read`.
pub open spec fn opened_with(
    disk: VaultDiskView,
    key: Seq<u8>,
    read: Result<VaultPayload, VaultError>,
    unlocked: Result<UnlockedVault, VaultError>,
) -> bool {
    match read {
        Err(err) => unlocked == Err::<UnlockedVault, VaultError>(err),
        Ok(payload) => {
            &&& unlocked matches Ok(vault)
            &&& vault@.valid()
            &&& vault@.key == key
            &&& vault@.metadata == by_provider(disk.token_metadata)
            &&& vault@.secrets == payload@
        },
    }
}

/// Whether `unlocked` is the outcome of opening `disk` with `password`, the
/// tokens being read by `decode`.
pub open spec fn unlocks_with_password<D: Fn(&[u8]) -> Result<VaultPayload, VaultError>>(
    disk: VaultDiskView,
    password: Seq<char>,
    decode: D,
    unlocked: Result<UnlockedVault, VaultError>,
) -> bool {
    match disk.password_envelope {
        None => unlocked matches Err(err) && err@ == Failure::InvalidInput(
            "password login is not configured"@,
        ),
        Some(envelope) => unlocks(disk, unwrapped(password, envelope), decode, unlocked),
    }
}

/// Whether `unlocked` is the outcome of opening `disk` with the passkey of
/// `credential_id`, the tokens being read by `decode`.
pub open spec fn unlocks_with_passkey<D: Fn(&[u8]) -> Result<VaultPayload, VaultError>>(
    disk: VaultDiskView,
    credential_id: Seq<char>,
    passkey_secret: Seq<char>,
    decode: D,
    unlocked: Result<UnlockedVault, VaultError>,
) -> bool {
    match first_passkey(disk.passkey_envelopes, credential_id) {
        None => unlocked matches Err(err) && err@ == Failure::InvalidInput(
            "unknown passkey credential id"@,
        ),
        Some(envelope) => unlocks(disk, unwrapped(passkey_secret, envelope), decode, unlocked),
    }
}

/// Takes the envelopes of `credential_id` out of the list.
fn retain_other_passkeys(envelopes: &mut Vec<PasskeyEnvelope>, credential_id: &str)
    ensures
        views(final(envelopes)@) == without_passkey(views(old(envelopes)@), credential_id@),
{
    let unwanted = credential_id.to_owned();
    let keep = |envelope: &PasskeyEnvelope| -> (kept: bool)
        ensures
            kept == (envelope@.credential_id != unwanted@),
        { envelope.credential_id != unwanted };
    retain(envelopes, keep, Ghost(of_other(credential_id@)));
}

/// Whether `written` is what `encode` answered on being handed `secrets`.
pub open spec fn writes<E: Fn(&VaultPayload) -> Result<Vec<u8>, VaultError>>(
    encode: E,
    secrets: Map<Seq<char>, SecretView>,
    written: Result<Vec<u8>, VaultError>,
) -> bool {
    exists|payload: VaultPayload|
        payload@ == secrets && #[trigger] encode.ensures((&payload,), written)
}

/// Whether `payload` is what `decode` answered on being handed `plaintext`.
pub open spec fn reads<D: Fn(&[u8]) -> Result<VaultPayload, VaultError>>(
    decode: D,
    plaintext: Seq<u8>,
    payload: Result<VaultPayload, VaultError>,
) -> bool {
    exists|bytes: &[u8]| bytes@ == plaintext && #[trigger] decode.ensures((bytes,), payload)
}

/// Whether every secret that protects a new vault is derivable.
pub open spec fn all_derivable(password: Option<&str>, passkeys: Seq<(String, String)>) -> bool {
    &&& password matches Some(secret) ==> derivable(secret@)
    &&& forall|i: int| 0 <= i < passkeys.len() ==> derivable((#[trigger] passkeys[i]).1@)
}

/// Whether `password` and each of `passkeys` opens `disk`: each takes the same
/// `key` out of its envelope, and that key decrypts the payload to `plaintext`.
pub open spec fn protects(
    disk: VaultDiskView,
    password: Option<&str>,
    passkeys: Seq<(String, String)>,
    key: Seq<u8>,
    plaintext: Seq<u8>,
) -> bool {
    &&& key.len() == KEY_LEN
    &&& seals(disk.encrypted_payload, plaintext, key)
    &&& match password {
        Some(secret) => disk.password_envelope matches Some(envelope) && wraps(
            envelope,
            secret@,
            key,
        ),
        None => disk.password_envelope is None,
    }
    &&& disk.passkey_envelopes.len() == passkeys.len()
    &&& forall|i: int| #![trigger disk.passkey_envelopes[i]]
        0 <= i < passkeys.len() ==> disk.passkey_envelopes[i].credential_id == passkeys[i].0@
            && wraps(disk.passkey_envelopes[i].wrapped_master_key, passkeys[i].1@, key)
}

/// What becomes of `disk` when `current_user` opens it. A file without an
/// owner becomes that user's.
pub open spec fn taken_up(disk: VaultDiskView, current_user: Seq<char>) -> Result<
    VaultDiskView,
    Failure,
> {
    if disk.version != VAULT_VERSION {
        Err(Failure::InvalidData("unsupported vault version"@))
    } else if disk.owner_user is Some && disk.owner_user != Some(current_user) {
        Err(Failure::InvalidInput("vault belongs to a different OS user"@))
    } else if !disk.recoverable() {
        Err(policy_failure())
    } else {
        Ok(VaultDiskView { owner_user: Some(current_user), ..disk })
    }
}

/// Whether `created` is the outcome of making a vault under `key`: it is
/// refused for a blank password, for want of a way to recover, for a secret
/// that is too long, or if its tokens cannot be written or encrypted; else it
/// is empty and every secret opens it.
pub open spec fn makes<E: Fn(&VaultPayload) -> Result<Vec<u8>, VaultError>>(
    path: PathBuf,
    password: Option<&str>,
    passkeys: Seq<(String, String)>,
    current_user: Seq<char>,
    encode: E,
    key: Seq<u8>,
    created: Result<Vault, VaultError>,
) -> bool {
    match created {
        Ok(vault) => {
            &&& password matches Some(secret) ==> !blank(secret@)
            &&& recoverable(password is Some, passkeys.len())
            &&& all_derivable(password, passkeys)
            &&& vault@.path == path
            &&& vault@.disk.version == VAULT_VERSION
            &&& vault@.disk.owner_user == Some(current_user)
            &&& vault@.disk.token_metadata.len() == 0
            &&& vault@.disk.recoverable()
            &&& exists|written: Vec<u8>| #[trigger]
                writes(encode, Map::empty(), Ok(written)) && sealable(written@.len()) && protects(
                    vault@.disk,
                    password,
                    passkeys,
                    key,
                    written@,
                )
        },
        Err(err) => if password matches Some(secret) && blank(secret@) {
            err@ == Failure::InvalidInput("password must not be empty"@)
        } else if !recoverable(password is Some, passkeys.len()) {
            err@ == policy_failure()
        } else if !all_derivable(password, passkeys) {
            err@ == Failure::Crypto("argon2 derivation failed"@)
        } else {
            exists|written: Result<Vec<u8>, VaultError>| #[trigger]
                writes(encode, Map::empty(), written) && match written {
                    Ok(bytes) => !sealable(bytes@.len()) && err@ == Failure::Crypto(
                        "encryption failed"@,
                    ),
                    Err(refused) => err == refused,
                }
        },
    }
}

/// Whether `committed` is the outcome of taking the metadata and the tokens of
/// `unlocked` into the vault: only these change, and the metadata also where
/// the tokens cannot be written or encrypted.
pub open spec fn commits<E: Fn(&VaultPayload) -> Result<Vec<u8>, VaultError>>(
    before: VaultView,
    unlocked: UnlockedView,
    encode: E,
    after: VaultView,
    committed: Result<(), VaultError>,
) -> bool {
    &&& after.path == before.path
    &&& after.disk == (VaultDiskView {
        token_metadata: unlocked.listing(),
        encrypted_payload: after.disk.encrypted_payload,
        ..before.disk
    })
    &&& exists|written: Result<Vec<u8>, VaultError>| #[trigger]
        writes(encode, unlocked.secrets, written) && match written {
            Err(refused) => committed == Err::<(), VaultError>(refused)
                && after.disk.encrypted_payload == before.disk.encrypted_payload,
            Ok(bytes) => if sealable(bytes@.len()) {
                committed is Ok && seals(after.disk.encrypted_payload, bytes@, unlocked.key)
            } else {
                outcome(committed) == Err::<(), Failure>(Failure::Crypto("encryption failed"@))
                    && after.disk.encrypted_payload == before.disk.encrypted_payload
            },
        }
}

/// Whether `rotated` is the outcome of wrapping `key` under a new password:
/// only the password envelope changes, and on failure nothing.
pub open spec fn rotates(
    before: VaultView,
    key: Seq<u8>,
    new_password: Seq<char>,
    after: VaultView,
    rotated: Result<(), Failure>,
) -> bool {
    if new_password.len() == 0 {
        after == before && rotated == Err::<(), Failure>(
            Failure::InvalidInput("new password must not be empty"@),
        )
    } else if !derivable(new_password) {
        after == before && rotated == Err::<(), Failure>(
            Failure::Crypto("argon2 derivation failed"@),
        )
    } else {
        &&& rotated == Ok::<(), Failure>(())
        &&& after.path == before.path
        &&& after.disk == (VaultDiskView {
            password_envelope: after.disk.password_envelope,
            ..before.disk
        })
        &&& after.disk.password_envelope matches Some(envelope) && wraps(
            envelope,
            new_password,
            key,
        )
    }
}

/// Whether `enrolled` is the outcome of wrapping `key` under a passkey: only
/// the passkey envelopes change. The new one stands at the end, in place of
/// those of its credential id; these are gone also where the secret cannot be
/// used.
pub open spec fn enrolls(
    before: VaultView,
    key: Seq<u8>,
    credential_id: Seq<char>,
    passkey_secret: Seq<char>,
    after: VaultView,
    enrolled: Result<(), Failure>,
) -> bool {
    let envelopes = after.disk.passkey_envelopes;
    let others = without_passkey(before.disk.passkey_envelopes, credential_id);
    &&& after.path == before.path
    &&& after.disk == (VaultDiskView { passkey_envelopes: envelopes, ..before.disk })
    &&& if credential_id.len() == 0 {
        after == before && enrolled == Err::<(), Failure>(
            Failure::InvalidInput("credential_id must not be empty"@),
        )
    } else if passkey_secret.len() == 0 {
        after == before && enrolled == Err::<(), Failure>(
            Failure::InvalidInput("passkey secret must not be empty"@),
        )
    } else if !derivable(passkey_secret) {
        envelopes == others && enrolled == Err::<(), Failure>(
            Failure::Crypto("argon2 derivation failed"@),
        )
    } else {
        &&& envelopes.len() == others.len() + 1
        &&& envelopes.drop_last() == others
        &&& envelopes.last().credential_id == credential_id
        &&& wraps(envelopes.last().wrapped_master_key, passkey_secret, key)
        &&& enrolled == if after.disk.recoverable() {
            Ok::<(), Failure>(())
        } else {
            Err(policy_failure())
        }
    }
}

/// Whether `revoked` is the outcome of taking a passkey out: its envelopes are
/// gone, also where the recovery policy then fails.
pub open spec fn revokes(
    before: VaultView,
    credential_id: Seq<char>,
    after: VaultView,
    revoked: Result<(), Failure>,
) -> bool {
    &&& after.path == before.path
    &&& after.disk == (VaultDiskView {
        passkey_envelopes: without_passkey(before.disk.passkey_envelopes, credential_id),
        ..before.disk
    })
    &&& revoked == if first_passkey(before.disk.passkey_envelopes, credential_id) is None {
        Err::<(), Failure>(Failure::InvalidInput("passkey credential id not found"@))
    } else if after.disk.recoverable() {
        Ok(())
    } else {
        Err(policy_failure())
    }
}

impl Vault {
    /// Makes a vault for `path` with no tokens in it, owned by `current_user`
    /// and protected by `password` and `passkeys`, under a key that is drawn.
    /// The tokens are written by `encode`; the caller stores the result.
    pub fn create<E: Fn(&VaultPayload) -> Result<Vec<u8>, VaultError>>(
        path: PathBuf,
        password: Option<&str>,
        passkeys: &[(String, String)],
        current_user: &str,
        encode: E,
    ) -> (created: Result<Self, VaultError>)
        requires
            forall|payload: &VaultPayload| #[trigger] encode.requires((payload,)),
        ensures
            exists|key: Seq<u8>| #[trigger]
                drawn_bytes(key) && makes(
                    path,
                    password,
                    passkeys@,
                    current_user@,
                    encode,
                    key,
                    created,
                ),
    {
        let master_key = draw_bytes(KEY_LEN);
        Vault::create_with_key(path, password, passkeys, current_user, encode, master_key)
    }

    /// Makes a vault as [`Vault::create`] does, under the key `master_key`.
    pub fn create_with_key<E: Fn(&VaultPayload) -> Result<Vec<u8>, VaultError>>(
        path: PathBuf,
        password: Option<&str>,
        passkeys: &[(String, String)],
        current_user: &str,
        encode: E,
        master_key: Vec<u8>,
    ) -> (created: Result<Self, VaultError>)
        requires
            master_key@.len() == KEY_LEN,
            forall|payload: &VaultPayload| #[trigger] encode.requires((payload,)),
        ensures
            makes(
                path,
                password,
                passkeys@,
                current_user@,
                encode,
                master_key@,
                created,
            ),
    {
        if let Some(secret) = password {
            if is_blank(secret) {
                return Err(VaultError::InvalidInput("password must not be empty".to_owned()));
            }
        }
        match validate_recovery_policy(password.is_some(), passkeys.len()) {
            Ok(()) => {},
            Err(err) => return Err(err),
        }
        let password_envelope = match password {
            Some(secret) => match wrap_key_with_secret(
                secret,
                master_key.as_slice(),
                default_kdf(),
            ) {
                Ok(envelope) => Some(envelope),
                Err(err) => return Err(err),
            },
            None => None,
        };

        let mut passkey_envelopes: Vec<PasskeyEnvelope> = Vec::new();
        let mut at: usize = 0;
        while at < passkeys.len()
            invariant
                at <= passkeys@.len(),
                master_key@.len() == KEY_LEN,
                passkey_envelopes@.len() == at,
                password matches Some(secret) ==> !blank(secret@),
                recoverable(password is Some, passkeys@.len()),
                forall|i: int| #![trigger passkey_envelopes@[i]]
                    0 <= i < at ==> passkey_envelopes@[i]@.credential_id == passkeys@[i].0@
                        && derivable(passkeys@[i].1@) && wraps(
                        passkey_envelopes@[i]@.wrapped_master_key,
                        passkeys@[i].1@,
                        master_key@,
                    ),
            decreases passkeys@.len() - at,
        {
            let wrapped_master_key = match wrap_key_with_secret(
                passkeys[at].1.as_str(),
                master_key.as_slice(),
                default_kdf(),
            ) {
                Ok(envelope) => envelope,
                Err(err) => {
                    assert(!derivable(passkeys@[at as int].1@));
                    return Err(err);
                },
            };
            passkey_envelopes.push(
                PasskeyEnvelope { credential_id: passkeys[at].0.clone(), wrapped_master_key },
            );
            at += 1;
        }

        assert(all_derivable(password, passkeys@)) by {
            assert forall|i: int| 0 <= i < passkeys@.len() implies derivable(
                (#[trigger] passkeys@[i]).1@,
            ) by {
                assert(passkey_envelopes@[i]@.credential_id == passkeys@[i].0@);
            }
        }

        let empty = VaultPayload::default();
        let answer = encode(&empty);
        assert(writes(encode, Map::empty(), answer));
        let written = match answer {
            Ok(written) => written,
            Err(err) => return Err(err),
        };
        let encrypted_payload = match encrypt_bytes(written.as_slice(), master_key.as_slice()) {
            Ok(payload) => payload,
            Err(err) => return Err(err),
        };
        let disk = VaultDisk {
            version: VAULT_VERSION,
            owner_user: Some(current_user.to_owned()),
            password_envelope,
            passkey_envelopes,
            token_metadata: Vec::new(),
            encrypted_payload,
        };
        let vault = Vault { path, disk };
        assert(protects(vault@.disk, password, passkeys@, master_key@, written@));
        Ok(vault)
    }

    /// Takes up the vault that was read from `path` as `disk`, on behalf of
    /// `current_user`. A file without an owner becomes that user's.
    pub fn open(path: PathBuf, disk: VaultDisk, current_user: &str) -> (opened: Result<
        Self,
        VaultError,
    >)
        ensures
            match opened {
                Ok(vault) => vault@.path == path && taken_up(disk@, current_user@) == Ok::<
                    _,
                    Failure,
                >(vault@.disk),
                Err(err) => taken_up(disk@, current_user@) == Err::<VaultDiskView, _>(err@),
            },
    {
        if disk.version != VAULT_VERSION {
            return Err(VaultError::InvalidData("unsupported vault version"));
        }
        let current = current_user.to_owned();
        let owner = match &disk.owner_user {
            Some(owner) => owner.clone(),
            None => current.clone(),
        };
        if owner != current {
            return Err(VaultError::InvalidInput("vault belongs to a different OS user".to_owned()));
        }
        let mut disk = disk;
        disk.owner_user = Some(owner);
        match validate_recovery_policy(
            disk.password_envelope.is_some(),
            disk.passkey_envelopes.len(),
        ) {
            Ok(()) => Ok(Vault { path, disk }),
            Err(err) => Err(err),
        }
    }

    /// The name of the operating-system user, given what the environment calls
    /// `USER` and `USERNAME`.
    pub fn current_os_user(user: Option<String>, username: Option<String>) -> (name: String)
        ensures
            name@ == match (user, username) {
                (Some(text), _) if !blank(text@) => text@,
                (None, Some(text)) if !blank(text@) => text@,
                _ => "unknown-user"@,
            },
    {
        let found = match user {
            Some(text) => Some(text),
            None => username,
        };
        match found {
            Some(text) => if is_blank(text.as_str()) {
                "unknown-user".to_owned()
            } else {
                text
            },
            None => "unknown-user".to_owned(),
        }
    }

    /// The path of the vault file.
    pub fn path(&self) -> (path: &PathBuf)
        ensures
            *path == self@.path,
    {
        &self.path
    }

    /// What the vault file is to hold.
    pub fn contents(&self) -> (disk: &VaultDisk)
        ensures
            disk@ == self@.disk,
    {
        &self.disk
    }

    /// Whether a password opens the vault.
    pub fn has_password(&self) -> (answer: bool)
        ensures
            answer == (self@.disk.password_envelope is Some),
    {
        self.disk.password_envelope.is_some()
    }

    /// The credential ids of the passkeys, in the order of their enrolment.
    pub fn passkey_ids(&self) -> (ids: Vec<&str>)
        ensures
            views(ids@) == self@.disk.passkey_envelopes.map_values(
                |envelope: PasskeyView| envelope.credential_id,
            ),
    {
        let ghost wanted = self@.disk.passkey_envelopes.map_values(
            |envelope: PasskeyView| envelope.credential_id,
        );
        let mut ids: Vec<&str> = Vec::new();
        let mut at: usize = 0;
        while at < self.disk.passkey_envelopes.len()
            invariant
                at <= self.disk.passkey_envelopes@.len(),
                wanted == self@.disk.passkey_envelopes.map_values(
                    |envelope: PasskeyView| envelope.credential_id,
                ),
                views(ids@) == wanted.take(at as int),
            decreases self.disk.passkey_envelopes@.len() - at,
        {
            let id = self.disk.passkey_envelopes[at].credential_id.as_str();
            proof {
                lemma_views_push(ids@, id);
                lemma_take_next(wanted, at as int);
            }
            ids.push(id);
            at += 1;
        }
        assert(wanted.take(at as int) =~= wanted);
        ids
    }

    /// Opens the vault with its password; the tokens are read by `decode`.
    pub fn unlock_with_password<D: Fn(&[u8]) -> Result<VaultPayload, VaultError>>(
        &self,
        password: &str,
        decode: D,
    ) -> (unlocked: Result<UnlockedVault, VaultError>)
        requires
            forall|bytes: &[u8]| #[trigger] decode.requires((bytes,)),
        ensures
            unlocks_with_password(self@.disk, password@, decode, unlocked),
            cut_short(self@.disk.encrypted_payload) ==> unlocked is Err,
    {
        match &self.disk.password_envelope {
            None => Err(VaultError::InvalidInput("password login is not configured".to_owned())),
            Some(envelope) => match unwrap_key_with_secret(password, envelope) {
                Err(err) => Err(err),
                Ok(master_key) => self.unlock_with_master_key(master_key, decode),
            },
        }
    }

    /// Opens the vault with a passkey; the tokens are read by `decode`.
    pub fn unlock_with_passkey<D: Fn(&[u8]) -> Result<VaultPayload, VaultError>>(
        &self,
        credential_id: &str,
        passkey_secret: &str,
        decode: D,
    ) -> (unlocked: Result<UnlockedVault, VaultError>)
        requires
            forall|bytes: &[u8]| #[trigger] decode.requires((bytes,)),
        ensures
            unlocks_with_passkey(self@.disk, credential_id@, passkey_secret@, decode, unlocked),
            cut_short(self@.disk.encrypted_payload) ==> unlocked is Err,
    {
        let ghost all = self@.disk.passkey_envelopes;
        let wanted = credential_id.to_owned();
        let mut at: usize = 0;
        assert(all.skip(0) =~= all);
        while at < self.disk.passkey_envelopes.len()
            invariant
                at <= self.disk.passkey_envelopes@.len(),
                all == self@.disk.passkey_envelopes,
                wanted@ == credential_id@,
                first_passkey(all.skip(at as int), credential_id@) == first_passkey(
                    all,
                    credential_id@,
                ),
                forall|bytes: &[u8]| #[trigger] decode.requires((bytes,)),
            decreases self.disk.passkey_envelopes@.len() - at,
        {
            assert(all.skip(at as int)[0] == self.disk.passkey_envelopes@[at as int]@);
            if self.disk.passkey_envelopes[at].credential_id == wanted {
                return match unwrap_key_with_secret(
                    passkey_secret,
                    &self.disk.passkey_envelopes[at].wrapped_master_key,
                ) {
                    Err(err) => Err(err),
                    Ok(master_key) => self.unlock_with_master_key(master_key, decode),
                };
            }
            assert(all.skip(at as int).drop_first() =~= all.skip(at as int + 1));
            at += 1;
        }
        Err(VaultError::InvalidInput("unknown passkey credential id".to_owned()))
    }

    /// Opens the vault with its master key; the tokens are read by `decode`.
    pub fn unlock_with_master_key<D: Fn(&[u8]) -> Result<VaultPayload, VaultError>>(
        &self,
        master_key: Vec<u8>,
        decode: D,
    ) -> (unlocked: Result<UnlockedVault, VaultError>)
        requires
            forall|bytes: &[u8]| #[trigger] decode.requires((bytes,)),
        ensures
            unlocks(self@.disk, Ok(master_key@), decode, unlocked),
            cut_short(self@.disk.encrypted_payload) ==> unlocked is Err,
    {
        let plaintext = match decrypt_bytes(
            &self.disk.encrypted_payload,
            master_key.as_slice(),
        ) {
            Ok(plaintext) => plaintext,
            Err(err) => return Err(err),
        };
        let read = decode(plaintext.as_slice());
        let ghost answer = read;
        let ghost key = master_key@;
        let unlocked = match read {
            Err(err) => Err(err),
            Ok(payload) => Ok(self.unlock_with_payload(master_key, payload)),
        };
        assert(reads(decode, decrypted(self@.disk.encrypted_payload, key)->Ok_0, answer));
        unlocked
    }

    /// The open vault under `master_key`, once its tokens were read as
    /// `payload`.
    pub fn unlock_with_payload(&self, master_key: Vec<u8>, payload: VaultPayload) -> (unlocked:
        UnlockedVault)
        requires
            master_key@.len() == KEY_LEN,
        ensures
            opened_with(self@.disk, master_key@, Ok(payload), Ok(unlocked)),
    {
        UnlockedVault::assemble(master_key, &self.disk.token_metadata, payload)
    }

    /// Takes the metadata and the tokens of `unlocked` into the vault. The
    /// tokens are written by `encode`; the caller stores the result.
    pub fn commit<E: Fn(&VaultPayload) -> Result<Vec<u8>, VaultError>>(
        &mut self,
        unlocked: &UnlockedVault,
        encode: E,
    ) -> (committed: Result<(), VaultError>)
        requires
            forall|payload: &VaultPayload| #[trigger] encode.requires((payload,)),
        ensures
            unlocked@.valid(),
            commits(old(self)@, unlocked@, encode, final(self)@, committed),
    {
        let payload = unlocked.payload();
        self.disk.token_metadata = unlocked.metadata_list();
        let answer = encode(&payload);
        assert(writes(encode, unlocked@.secrets, answer));
        match answer {
            Err(err) => Err(err),
            Ok(written) => match encrypt_bytes(written.as_slice(), unlocked.key()) {
                Err(err) => Err(err),
                Ok(encrypted_payload) => {
                    self.disk.encrypted_payload = encrypted_payload;
                    Ok(())
                },
            },
        }
    }

    /// Wraps the master key of `unlocked` under a new password. The caller
    /// stores the result.
    pub fn rotate_password(&mut self, unlocked: &UnlockedVault, new_password: &str) -> (rotated:
        Result<(), VaultError>)
        ensures
            rotates(old(self)@, unlocked@.key, new_password@, final(self)@, outcome(rotated)),
    {
        if new_password.is_empty() {
            return Err(VaultError::InvalidInput("new password must not be empty".to_owned()));
        }
        match wrap_key_with_secret(new_password, unlocked.key(), default_kdf()) {
            Ok(envelope) => {
                self.disk.password_envelope = Some(envelope);
            },
            Err(err) => return Err(err),
        }
        validate_recovery_policy(true, self.disk.passkey_envelopes.len())
    }

    /// Wraps the master key of `unlocked` under a passkey, instead of what
    /// stood under its credential id. The caller stores the result. A passkey
    /// whose secret cannot be used is gone all the same.
    pub fn enroll_passkey(
        &mut self,
        unlocked: &UnlockedVault,
        credential_id: &str,
        passkey_secret: &str,
    ) -> (enrolled: Result<(), VaultError>)
        ensures
            enrolls(
                old(self)@,
                unlocked@.key,
                credential_id@,
                passkey_secret@,
                final(self)@,
                outcome(enrolled),
            ),
    {
        if credential_id.is_empty() {
            return Err(VaultError::InvalidInput("credential_id must not be empty".to_owned()));
        }
        if passkey_secret.is_empty() {
            return Err(VaultError::InvalidInput("passkey secret must not be empty".to_owned()));
        }
        retain_other_passkeys(&mut self.disk.passkey_envelopes, credential_id);
        let ghost others = views(self.disk.passkey_envelopes@);
        let wrapped_master_key = match wrap_key_with_secret(
            passkey_secret,
            unlocked.key(),
            default_kdf(),
        ) {
            Ok(envelope) => envelope,
            Err(err) => return Err(err),
        };
        let envelope = PasskeyEnvelope {
            credential_id: credential_id.to_owned(),
            wrapped_master_key,
        };
        proof {
            lemma_views_push(self.disk.passkey_envelopes@, envelope);
        }
        self.disk.passkey_envelopes.push(envelope);
        assert(others.push(envelope@).drop_last() =~= others);
        validate_recovery_policy(
            self.disk.password_envelope.is_some(),
            self.disk.passkey_envelopes.len(),
        )
    }

    /// Takes out the passkey of `credential_id`. The caller stores the result.
    /// A passkey that the recovery policy needs is gone from the vault all the
    /// same, but the caller is told not to store it.
    pub fn revoke_passkey(&mut self, credential_id: &str) -> (revoked: Result<(), VaultError>)
        ensures
            revokes(old(self)@, credential_id@, final(self)@, outcome(revoked)),
    {
        let before = self.disk.passkey_envelopes.len();
        proof {
            lemma_without_absent(views(self.disk.passkey_envelopes@), credential_id@);
        }
        retain_other_passkeys(&mut self.disk.passkey_envelopes, credential_id);
        if before == self.disk.passkey_envelopes.len() {
            return Err(VaultError::InvalidInput("passkey credential id not found".to_owned()));
        }
        validate_recovery_policy(
            self.disk.password_envelope.is_some(),
            self.disk.passkey_envelopes.len(),
        )
    }
}

/// Taking a credential out shortens the list exactly if it was there.
proof fn lemma_without_absent(envelopes: Seq<PasskeyView>, credential_id: Seq<char>)
    ensures
        without_passkey(envelopes, credential_id).len() <= envelopes.len(),
        first_passkey(envelopes, credential_id) is None <==> without_passkey(
            envelopes,
            credential_id,
        ).len() == envelopes.len(),
        first_passkey(envelopes, credential_id) is None <==> (forall|i: int|
            0 <= i < envelopes.len() ==> (#[trigger] envelopes[i]).credential_id != credential_id),
    decreases envelopes.len(),
{
    let keep = of_other(credential_id);
    reveal(Seq::filter);
    if envelopes.len() > 0 {
        let rest = envelopes.drop_first();
        lemma_without_absent(rest, credential_id);
        assert(envelopes =~= seq![envelopes[0]] + rest);
        Seq::filter_distributes_over_add(seq![envelopes[0]], rest, keep);
        assert(seq![envelopes[0]].drop_last() =~= Seq::<PasskeyView>::empty());
        assert(seq![envelopes[0]].drop_last().filter(keep).len() == 0);
        assert forall|i: int| 0 <= i < rest.len() implies (#[trigger] rest[i])
            == envelopes[i + 1] by {}
        if first_passkey(envelopes, credential_id) is None {
            assert forall|i: int| 0 <= i < envelopes.len() implies (
            #[trigger] envelopes[i]).credential_id != credential_id by {
                if i > 0 {
                    assert(rest[i - 1] == envelopes[i]);
                }
            }
        } else if envelopes[0].credential_id != credential_id {
            let j = choose|j: int| 0 <= j < rest.len() && (#[trigger] rest[j]).credential_id
                == credential_id;
            assert(envelopes[j + 1].credential_id == credential_id);
        }
    }
}

} // verus!
