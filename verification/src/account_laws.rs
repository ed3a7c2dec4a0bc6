//! What a vault keeps through any operations: who opens it, and to what.
use crate::envelope::{decrypted, unwrapped, EncryptedView};
use crate::error::{Failure, VaultError};
use crate::model::{by_provider, MetadataView, PasskeyView, SecretView, VaultDiskView, VaultPayload};
use crate::unlocked::{UnlockedVault, UnlockedView};
use crate::vault::{
    commits, enrolls, first_passkey, makes, of_other, opened_with, protects, reads, revokes,
    rotates, seals, taken_up, unlocks, unlocks_with_passkey, unlocks_with_password,
    without_passkey, writes, Vault, VaultView, VAULT_VERSION,
};
use crate::vault_laws::{inverse, law_listed_metadata_is_found, lemma_first_at};
use std::path::PathBuf;
use vstd::prelude::*;

verus! {

/// What a vault stands for: its owner, the secrets that open it, its master
/// key, and the metadata and tokens that were last committed.
#[verifier::ext_equal]
pub struct Account {
    pub owner: Seq<char>,
    pub password: Option<Seq<char>>,
    pub passkeys: Seq<(Seq<char>, Seq<char>)>,
    pub key: Seq<u8>,
    pub metadata: Map<Seq<char>, MetadataView>,
    pub secrets: Map<Seq<char>, SecretView>,
}

/// An operation on a vault.
pub enum Change {
    Commit { unlocked: UnlockedView },
    Rotate { password: Seq<char> },
    Enroll { credential_id: Seq<char>, secret: Seq<char> },
    Revoke { credential_id: Seq<char> },
}

/// Whether a passkey has another credential id.
pub open spec fn has_other_id(credential_id: Seq<char>) -> spec_fn((Seq<char>, Seq<char>)) -> bool {
    |passkey: (Seq<char>, Seq<char>)| passkey.0 != credential_id
}

impl Account {
    /// The account after `change`: a commit replaces the metadata and the
    /// tokens, a rotation the password, and a passkey those of its credential
    /// id.
    pub open spec fn after(self, change: Change) -> Account {
        match change {
            Change::Commit { unlocked } => Account {
                metadata: unlocked.metadata,
                secrets: unlocked.secrets,
                ..self
            },
            Change::Rotate { password } => Account { password: Some(password), ..self },
            Change::Enroll { credential_id, secret } => Account {
                passkeys: self.passkeys.filter(has_other_id(credential_id)).push(
                    (credential_id, secret),
                ),
                ..self
            },
            Change::Revoke { credential_id } => Account {
                passkeys: self.passkeys.filter(has_other_id(credential_id)),
                ..self
            },
        }
    }

    /// The credential ids of the passkeys.
    pub open spec fn ids(self) -> Seq<Seq<char>> {
        self.passkeys.map_values(|passkey: (Seq<char>, Seq<char>)| passkey.0)
    }

    /// The account after `changes`, one by one.
    pub open spec fn after_all(self, changes: Seq<Change>) -> Account
        decreases changes.len(),
    {
        if changes.len() == 0 {
            self
        } else {
            self.after_all(changes.drop_last()).after(changes.last())
        }
    }
}

/// Whether an envelope is that of a passkey and gives `key` to its secret.
pub open spec fn answers(
    envelope: PasskeyView,
    passkey: (Seq<char>, Seq<char>),
    key: Seq<u8>,
) -> bool {
    envelope.credential_id == passkey.0 && unwrapped(passkey.1, envelope.wrapped_master_key)
        == Ok::<_, Failure>(key)
}

/// Whether the envelopes are those of the passkeys, one for one, and each
/// gives `key` to its secret.
pub open spec fn all_answer(
    envelopes: Seq<PasskeyView>,
    passkeys: Seq<(Seq<char>, Seq<char>)>,
    key: Seq<u8>,
) -> bool {
    &&& envelopes.len() == passkeys.len()
    &&& forall|i: int|
        #![trigger envelopes[i]]
        #![trigger passkeys[i]]
        0 <= i < envelopes.len() ==> answers(envelopes[i], passkeys[i], key)
}

/// Whether `payload` decrypts under `key` to `written`, which is what `encode`
/// wrote of `secrets`.
pub open spec fn keeps<E: Fn(&VaultPayload) -> Result<Vec<u8>, VaultError>>(
    payload: EncryptedView,
    key: Seq<u8>,
    encode: E,
    secrets: Map<Seq<char>, SecretView>,
    written: Vec<u8>,
) -> bool {
    writes(encode, secrets, Ok(written)) && decrypted(payload, key) == Ok::<_, Failure>(written@)
}

/// Whether `disk` is a vault of `account`, its tokens written by `encode`.
pub open spec fn represents<E: Fn(&VaultPayload) -> Result<Vec<u8>, VaultError>>(
    disk: VaultDiskView,
    account: Account,
    encode: E,
) -> bool {
    &&& disk.version == VAULT_VERSION
    &&& disk.owner_user == Some(account.owner)
    &&& disk.recoverable()
    &&& match account.password {
        Some(password) => disk.password_envelope matches Some(envelope) && unwrapped(
            password,
            envelope,
        ) == Ok::<_, Failure>(account.key),
        None => disk.password_envelope is None,
    }
    &&& all_answer(disk.passkey_envelopes, account.passkeys, account.key)
    &&& by_provider(disk.token_metadata) == account.metadata
    &&& keeps_tokens(disk.encrypted_payload, account, encode)
}

/// Whether `payload` holds the tokens of `account`, written by `encode`.
pub open spec fn keeps_tokens<E: Fn(&VaultPayload) -> Result<Vec<u8>, VaultError>>(
    payload: EncryptedView,
    account: Account,
    encode: E,
) -> bool {
    exists|written: Vec<u8>| #[trigger]
        keeps(payload, account.key, encode, account.secrets, written)
}

/// A payload that was written of the tokens of an account holds them.
proof fn lemma_keeps<E: Fn(&VaultPayload) -> Result<Vec<u8>, VaultError>>(
    payload: EncryptedView,
    account: Account,
    encode: E,
    written: Vec<u8>,
)
    requires
        keeps(payload, account.key, encode, account.secrets, written),
    ensures
        keeps_tokens(payload, account, encode),
{
}

/// Whether `change` was made with success, with a vault that was opened under
/// `key`.
pub open spec fn carried_out<E: Fn(&VaultPayload) -> Result<Vec<u8>, VaultError>>(
    change: Change,
    key: Seq<u8>,
    encode: E,
    before: VaultView,
    after: VaultView,
) -> bool {
    match change {
        Change::Commit { unlocked } => unlocked.valid() && unlocked.key == key && commits(
            before,
            unlocked,
            encode,
            after,
            Ok(()),
        ),
        Change::Rotate { password } => rotates(before, key, password, after, Ok(())),
        Change::Enroll { credential_id, secret } => enrolls(
            before,
            key,
            credential_id,
            secret,
            after,
            Ok(()),
        ),
        Change::Revoke { credential_id } => revokes(before, credential_id, after, Ok(())),
    }
}

/// Whether `unlocked` is the vault of `account`, open.
pub open spec fn opens_to(unlocked: Result<UnlockedVault, VaultError>, account: Account) -> bool {
    unlocked matches Ok(vault) && vault@.key == account.key && vault@.metadata == account.metadata
        && vault@.secrets == account.secrets
}

/// The passkeys of a new vault, as characters.
pub open spec fn passkey_views(passkeys: Seq<(String, String)>) -> Seq<(Seq<char>, Seq<char>)> {
    passkeys.map_values(|passkey: (String, String)| (passkey.0@, passkey.1@))
}

/// A new vault is a vault of its owner, with the secrets that were given and
/// without tokens.
pub proof fn law_new_vault_is_empty<E: Fn(&VaultPayload) -> Result<Vec<u8>, VaultError>>(
    path: PathBuf,
    password: Option<&str>,
    passkeys: Seq<(String, String)>,
    current_user: Seq<char>,
    encode: E,
    key: Seq<u8>,
    vault: Vault,
)
    requires
        makes(path, password, passkeys, current_user, encode, key, Ok(vault)),
    ensures
        vault@.path == path,
        represents(
            vault@.disk,
            Account {
                owner: current_user,
                password: match password {
                    Some(secret) => Some(secret@),
                    None => None,
                },
                passkeys: passkey_views(passkeys),
                key,
                metadata: Map::empty(),
                secrets: Map::empty(),
            },
            encode,
        ),
{
    let envelopes = vault@.disk.passkey_envelopes;
    let written = choose|written: Vec<u8>| #[trigger]
        writes(encode, Map::empty(), Ok(written)) && protects(
            vault@.disk,
            password,
            passkeys,
            key,
            written@,
        );
    assert(keeps(vault@.disk.encrypted_payload, key, encode, Map::empty(), written));
    lemma_keeps(
        vault@.disk.encrypted_payload,
        Account {
            owner: current_user,
            password: match password {
                Some(secret) => Some(secret@),
                None => None,
            },
            passkeys: passkey_views(passkeys),
            key,
            metadata: Map::empty(),
            secrets: Map::empty(),
        },
        encode,
        written,
    );
    assert(all_answer(envelopes, passkey_views(passkeys), key)) by {
        assert forall|i: int| 0 <= i < envelopes.len() implies answers(
            #[trigger] envelopes[i],
            passkey_views(passkeys)[i],
            key,
        ) by {}
    }
    assert(by_provider(vault@.disk.token_metadata) =~= Map::<Seq<char>, MetadataView>::empty());
}

/// Filtering envelopes and passkeys by the credential id keeps them together.
pub proof fn lemma_filtered_answer(
    envelopes: Seq<PasskeyView>,
    passkeys: Seq<(Seq<char>, Seq<char>)>,
    key: Seq<u8>,
    credential_id: Seq<char>,
)
    requires
        all_answer(envelopes, passkeys, key),
    ensures
        all_answer(
            without_passkey(envelopes, credential_id),
            passkeys.filter(has_other_id(credential_id)),
            key,
        ),
    decreases envelopes.len(),
{
    reveal(Seq::filter);
    if envelopes.len() > 0 {
        let rest = envelopes.drop_last();
        let others = passkeys.drop_last();
        assert(all_answer(rest, others, key)) by {
            assert forall|i: int| 0 <= i < rest.len() implies answers(
                #[trigger] rest[i],
                others[i],
                key,
            ) by {
                assert(answers(envelopes[i], passkeys[i], key));
            }
        }
        lemma_filtered_answer(rest, others, key, credential_id);
        assert(answers(envelopes.last(), passkeys.last(), key)) by {
            assert(answers(
                envelopes[envelopes.len() - 1],
                passkeys[envelopes.len() - 1],
                key,
            ));
        }
        assert(of_other(credential_id)(envelopes.last()) == has_other_id(credential_id)(
            passkeys.last(),
        ));
    }
}

/// An operation that succeeds makes of a vault of `account` a vault of the
/// account after it, at the same path.
pub proof fn law_change_is_kept<E: Fn(&VaultPayload) -> Result<Vec<u8>, VaultError>>(
    account: Account,
    change: Change,
    encode: E,
    before: VaultView,
    after: VaultView,
)
    requires
        represents(before.disk, account, encode),
        carried_out(change, account.key, encode, before, after),
    ensures
        after.path == before.path,
        represents(after.disk, account.after(change), encode),
{
    let next = account.after(change);
    let written = choose|written: Vec<u8>| #[trigger]
        keeps(before.disk.encrypted_payload, account.key, encode, account.secrets, written);
    if change !is Commit {
        lemma_keeps(after.disk.encrypted_payload, next, encode, written);
    }
    match change {
        Change::Commit { unlocked } => {
            law_listed_metadata_is_found(unlocked);
            let answer = choose|answer: Result<Vec<u8>, VaultError>| #[trigger]
                writes(encode, unlocked.secrets, answer) && answer is Ok && seals(
                    after.disk.encrypted_payload,
                    answer->Ok_0@,
                    unlocked.key,
                );
            assert(keeps(
                after.disk.encrypted_payload,
                next.key,
                encode,
                next.secrets,
                answer->Ok_0,
            ));
            lemma_keeps(after.disk.encrypted_payload, next, encode, answer->Ok_0);
        },
        Change::Rotate { .. } => {},
        Change::Enroll { credential_id, secret } => {
            let envelopes = after.disk.passkey_envelopes;
            lemma_filtered_answer(
                before.disk.passkey_envelopes,
                account.passkeys,
                account.key,
                credential_id,
            );
            assert(all_answer(envelopes, next.passkeys, account.key)) by {
                let others = envelopes.drop_last();
                let kept = account.passkeys.filter(has_other_id(credential_id));
                assert forall|i: int| 0 <= i < envelopes.len() implies answers(
                    #[trigger] envelopes[i],
                    next.passkeys[i],
                    account.key,
                ) by {
                    if i < others.len() {
                        assert(answers(others[i], kept[i], account.key));
                    }
                }
            }
        },
        Change::Revoke { credential_id } => {
            lemma_filtered_answer(
                before.disk.passkey_envelopes,
                account.passkeys,
                account.key,
                credential_id,
            );
        },
    }
}

/// Any operations that succeed, one after the other, make of a vault of
/// `account` a vault of the account after all of them.
pub proof fn law_changes_are_kept<E: Fn(&VaultPayload) -> Result<Vec<u8>, VaultError>>(
    account: Account,
    changes: Seq<Change>,
    encode: E,
    states: Seq<VaultView>,
)
    requires
        states.len() == changes.len() + 1,
        represents(states[0].disk, account, encode),
        forall|i: int|
            0 <= i < changes.len() ==> carried_out(
                #[trigger] changes[i],
                account.key,
                encode,
                states[i],
                states[i + 1],
            ),
    ensures
        states.last().path == states[0].path,
        account.after_all(changes).key == account.key,
        represents(states.last().disk, account.after_all(changes), encode),
    decreases changes.len(),
{
    if changes.len() > 0 {
        let earlier = changes.drop_last();
        let shorter = states.drop_last();
        assert forall|i: int| 0 <= i < earlier.len() implies carried_out(
            #[trigger] earlier[i],
            account.key,
            encode,
            shorter[i],
            shorter[i + 1],
        ) by {
            assert(carried_out(changes[i], account.key, encode, states[i], states[i + 1]));
        }
        law_changes_are_kept(account, earlier, encode, shorter);
        let last = changes.len() - 1;
        assert(carried_out(changes[last], account.key, encode, states[last], states[last + 1]));
        law_change_is_kept(
            account.after_all(earlier),
            changes.last(),
            encode,
            shorter.last(),
            states.last(),
        );
    }
}

/// Whether `unlocked` is what becomes of the bytes that `encode` wrote of the
/// tokens of `account` once `decode` has read them: a vault with the key and
/// the metadata of the account and the tokens that were read, or the failure
/// to read them.
pub open spec fn reads_back<E, D>(
    unlocked: Result<UnlockedVault, VaultError>,
    account: Account,
    encode: E,
    decode: D,
) -> bool where
    E: Fn(&VaultPayload) -> Result<Vec<u8>, VaultError>,
    D: Fn(&[u8]) -> Result<VaultPayload, VaultError>,
 {
    exists|written: Vec<u8>, read: Result<VaultPayload, VaultError>|
        #![trigger writes(encode, account.secrets, Ok(written)), reads(decode, written@, read)]
        writes(encode, account.secrets, Ok(written)) && reads(decode, written@, read)
            && match read {
            Err(err) => unlocked == Err::<UnlockedVault, VaultError>(err),
            Ok(payload) => unlocked matches Ok(vault) && vault@.key == account.key
                && vault@.metadata == account.metadata && vault@.secrets == payload@,
        }
}

/// A vault of an account opens under its key to the metadata that was last
/// committed, and to what `decode` makes of the bytes that were written of the
/// tokens then.
pub proof fn law_key_reads_back<E, D>(
    disk: VaultDiskView,
    account: Account,
    encode: E,
    decode: D,
    unlocked: Result<UnlockedVault, VaultError>,
) where
    E: Fn(&VaultPayload) -> Result<Vec<u8>, VaultError>,
    D: Fn(&[u8]) -> Result<VaultPayload, VaultError>,

    requires
        represents(disk, account, encode),
        unlocks(disk, Ok(account.key), decode, unlocked),
    ensures
        reads_back(unlocked, account, encode, decode),
{
    let written = choose|written: Vec<u8>| #[trigger]
        keeps(disk.encrypted_payload, account.key, encode, account.secrets, written);
    let read = choose|read: Result<VaultPayload, VaultError>| #[trigger]
        reads(decode, decrypted(disk.encrypted_payload, account.key)->Ok_0, read) && opened_with(
            disk,
            account.key,
            read,
            unlocked,
        );
    assert(writes(encode, account.secrets, Ok(written)));
    assert(reads(decode, written@, read));
}

/// The password of an account opens its vault with exactly what its key opens.
pub proof fn law_password_gives_the_key<E, D>(
    disk: VaultDiskView,
    account: Account,
    encode: E,
    decode: D,
    password: Seq<char>,
    unlocked: Result<UnlockedVault, VaultError>,
) where
    E: Fn(&VaultPayload) -> Result<Vec<u8>, VaultError>,
    D: Fn(&[u8]) -> Result<VaultPayload, VaultError>,

    requires
        represents(disk, account, encode),
        account.password == Some(password),
    ensures
        unlocks_with_password(disk, password, decode, unlocked) <==> unlocks(
            disk,
            Ok(account.key),
            decode,
            unlocked,
        ),
{
}

/// Each passkey of an account opens its vault with exactly what its key opens,
/// as long as no earlier one has its credential id.
pub proof fn law_passkey_gives_the_key<E, D>(
    disk: VaultDiskView,
    account: Account,
    encode: E,
    decode: D,
    at: int,
    unlocked: Result<UnlockedVault, VaultError>,
) where
    E: Fn(&VaultPayload) -> Result<Vec<u8>, VaultError>,
    D: Fn(&[u8]) -> Result<VaultPayload, VaultError>,

    requires
        represents(disk, account, encode),
        0 <= at < account.passkeys.len(),
        forall|i: int| 0 <= i < at ==> (#[trigger] account.passkeys[i]).0 != account.passkeys[at].0,
    ensures
        unlocks_with_passkey(
            disk,
            account.passkeys[at].0,
            account.passkeys[at].1,
            decode,
            unlocked,
        ) <==> unlocks(disk, Ok(account.key), decode, unlocked),
{
    let envelopes = disk.passkey_envelopes;
    let credential_id = account.passkeys[at].0;
    assert(answers(envelopes[at], account.passkeys[at], account.key));
    assert forall|i: int| 0 <= i < at implies (#[trigger] envelopes[i]).credential_id
        != credential_id by {
        assert(answers(envelopes[i], account.passkeys[i], account.key));
        assert(account.passkeys[i].0 != credential_id);
    }
    lemma_first_at(envelopes, credential_id, at);
}

/// The password and a passkey open a vault alike, whatever reads the tokens,
/// after any operations.
pub proof fn law_password_and_passkey_open_alike<E, D>(
    account: Account,
    changes: Seq<Change>,
    encode: E,
    decode: D,
    states: Seq<VaultView>,
    password: Seq<char>,
    at: int,
    unlocked: Result<UnlockedVault, VaultError>,
) where
    E: Fn(&VaultPayload) -> Result<Vec<u8>, VaultError>,
    D: Fn(&[u8]) -> Result<VaultPayload, VaultError>,

    requires
        states.len() == changes.len() + 1,
        represents(states[0].disk, account, encode),
        forall|i: int|
            0 <= i < changes.len() ==> carried_out(
                #[trigger] changes[i],
                account.key,
                encode,
                states[i],
                states[i + 1],
            ),
        account.after_all(changes).password == Some(password),
        0 <= at < account.after_all(changes).passkeys.len(),
        forall|i: int|
            0 <= i < at ==> (#[trigger] account.after_all(changes).passkeys[i]).0
                != account.after_all(changes).passkeys[at].0,
    ensures
        unlocks_with_password(states.last().disk, password, decode, unlocked)
            <==> unlocks_with_passkey(
            states.last().disk,
            account.after_all(changes).passkeys[at].0,
            account.after_all(changes).passkeys[at].1,
            decode,
            unlocked,
        ),
{
    let after = account.after_all(changes);
    law_changes_are_kept(account, changes, encode, states);
    law_password_gives_the_key(states.last().disk, after, encode, decode, password, unlocked);
    law_passkey_gives_the_key(states.last().disk, after, encode, decode, at, unlocked);
}

/// A vault of an account opens under its key to what was last committed.
proof fn lemma_opens<E, D>(
    disk: VaultDiskView,
    account: Account,
    encode: E,
    decode: D,
    unlocked: Result<UnlockedVault, VaultError>,
) where
    E: Fn(&VaultPayload) -> Result<Vec<u8>, VaultError>,
    D: Fn(&[u8]) -> Result<VaultPayload, VaultError>,

    requires
        inverse(encode, decode),
        represents(disk, account, encode),
        unlocks(disk, Ok(account.key), decode, unlocked),
    ensures
        opens_to(unlocked, account),
{
    law_key_reads_back(disk, account, encode, decode, unlocked);
}

/// The password of an account opens its vault to exactly what was last
/// committed, provided that tokens are read as they were written.
pub proof fn law_password_opens<E, D>(
    disk: VaultDiskView,
    account: Account,
    encode: E,
    decode: D,
    password: Seq<char>,
    unlocked: Result<UnlockedVault, VaultError>,
) where
    E: Fn(&VaultPayload) -> Result<Vec<u8>, VaultError>,
    D: Fn(&[u8]) -> Result<VaultPayload, VaultError>,

    requires
        inverse(encode, decode),
        represents(disk, account, encode),
        account.password == Some(password),
        unlocks_with_password(disk, password, decode, unlocked),
    ensures
        opens_to(unlocked, account),
{
    lemma_opens(disk, account, encode, decode, unlocked);
}

/// Each passkey of an account opens its vault to exactly what was last
/// committed, as long as no earlier one has its credential id and provided
/// that tokens are read as they were written.
pub proof fn law_passkey_opens<E, D>(
    disk: VaultDiskView,
    account: Account,
    encode: E,
    decode: D,
    at: int,
    unlocked: Result<UnlockedVault, VaultError>,
) where
    E: Fn(&VaultPayload) -> Result<Vec<u8>, VaultError>,
    D: Fn(&[u8]) -> Result<VaultPayload, VaultError>,

    requires
        inverse(encode, decode),
        represents(disk, account, encode),
        0 <= at < account.passkeys.len(),
        forall|i: int| 0 <= i < at ==> (#[trigger] account.passkeys[i]).0 != account.passkeys[at].0,
        unlocks_with_passkey(
            disk,
            account.passkeys[at].0,
            account.passkeys[at].1,
            decode,
            unlocked,
        ),
    ensures
        opens_to(unlocked, account),
{
    law_passkey_gives_the_key(disk, account, encode, decode, at, unlocked);
    lemma_opens(disk, account, encode, decode, unlocked);
}

/// A credential id that no passkey of the account has is unknown to its vault.
pub proof fn law_unknown_passkey_is_refused<E, D>(
    disk: VaultDiskView,
    account: Account,
    encode: E,
    decode: D,
    credential_id: Seq<char>,
    secret: Seq<char>,
    unlocked: Result<UnlockedVault, VaultError>,
) where
    E: Fn(&VaultPayload) -> Result<Vec<u8>, VaultError>,
    D: Fn(&[u8]) -> Result<VaultPayload, VaultError>,

    requires
        represents(disk, account, encode),
        !account.ids().contains(credential_id),
        unlocks_with_passkey(disk, credential_id, secret, decode, unlocked),
    ensures
        unlocked matches Err(err) && err@ == Failure::InvalidInput(
            "unknown passkey credential id"@,
        ),
{
    let envelopes = disk.passkey_envelopes;
    assert forall|i: int| 0 <= i < envelopes.len() implies (#[trigger] envelopes[i]).credential_id
        != credential_id by {
        assert(answers(envelopes[i], account.passkeys[i], account.key));
        assert(account.ids()[i] == account.passkeys[i].0);
    }
    lemma_absent(envelopes, credential_id);
}

/// A credential without an envelope is not found.
proof fn lemma_absent(envelopes: Seq<PasskeyView>, credential_id: Seq<char>)
    requires
        forall|i: int|
            0 <= i < envelopes.len() ==> (#[trigger] envelopes[i]).credential_id != credential_id,
    ensures
        first_passkey(envelopes, credential_id) is None,
    decreases envelopes.len(),
{
    if envelopes.len() > 0 {
        let rest = envelopes.drop_first();
        assert(envelopes[0].credential_id != credential_id);
        assert forall|i: int| 0 <= i < rest.len() implies (#[trigger] rest[i]).credential_id
            != credential_id by {
            assert(envelopes[i + 1].credential_id != credential_id);
        }
        lemma_absent(rest, credential_id);
    }
}

/// The password and a passkey open a vault to the same key, metadata and
/// tokens, after any operations.
pub proof fn law_password_and_passkey_agree<E, D>(
    account: Account,
    changes: Seq<Change>,
    encode: E,
    decode: D,
    states: Seq<VaultView>,
    password: Seq<char>,
    at: int,
    by_password: Result<UnlockedVault, VaultError>,
    by_passkey: Result<UnlockedVault, VaultError>,
) where
    E: Fn(&VaultPayload) -> Result<Vec<u8>, VaultError>,
    D: Fn(&[u8]) -> Result<VaultPayload, VaultError>,

    requires
        inverse(encode, decode),
        states.len() == changes.len() + 1,
        represents(states[0].disk, account, encode),
        forall|i: int|
            0 <= i < changes.len() ==> carried_out(
                #[trigger] changes[i],
                account.key,
                encode,
                states[i],
                states[i + 1],
            ),
        account.after_all(changes).password == Some(password),
        0 <= at < account.after_all(changes).passkeys.len(),
        forall|i: int|
            0 <= i < at ==> (#[trigger] account.after_all(changes).passkeys[i]).0
                != account.after_all(changes).passkeys[at].0,
        unlocks_with_password(states.last().disk, password, decode, by_password),
        unlocks_with_passkey(
            states.last().disk,
            account.after_all(changes).passkeys[at].0,
            account.after_all(changes).passkeys[at].1,
            decode,
            by_passkey,
        ),
    ensures
        by_password matches Ok(one) && by_passkey matches Ok(other) && one@.key == other@.key
            && one@.metadata == other@.metadata && one@.secrets == other@.secrets,
{
    let after = account.after_all(changes);
    law_changes_are_kept(account, changes, encode, states);
    law_password_opens(states.last().disk, after, encode, decode, password, by_password);
    law_passkey_opens(states.last().disk, after, encode, decode, at, by_passkey);
}

/// A vault of an account has a password if the account has one, and lists the
/// credential ids of the account in order.
pub proof fn law_vault_lists_its_passkeys<E: Fn(&VaultPayload) -> Result<Vec<u8>, VaultError>>(
    disk: VaultDiskView,
    account: Account,
    encode: E,
)
    requires
        represents(disk, account, encode),
    ensures
        disk.password_envelope is Some <==> account.password is Some,
        disk.passkey_envelopes.map_values(|envelope: PasskeyView| envelope.credential_id)
            == account.ids(),
{
    let ids = disk.passkey_envelopes.map_values(|envelope: PasskeyView| envelope.credential_id);
    assert forall|i: int| 0 <= i < ids.len() implies ids[i] == account.ids()[i] by {
        assert(answers(disk.passkey_envelopes[i], account.passkeys[i], account.key));
    }
    assert(ids =~= account.ids());
}

/// What an operation stores opens again for its owner exactly as it was
/// stored, with the same secrets, whatever the operations before it did.
pub proof fn law_what_is_stored_opens_again<E, D>(
    change: Change,
    key: Seq<u8>,
    encode: E,
    decode: D,
    before: VaultView,
    after: VaultView,
    owner: Seq<char>,
    reopened: VaultDiskView,
    password: Seq<char>,
    credential_id: Seq<char>,
    secret: Seq<char>,
    unlocked: Result<UnlockedVault, VaultError>,
) where
    E: Fn(&VaultPayload) -> Result<Vec<u8>, VaultError>,
    D: Fn(&[u8]) -> Result<VaultPayload, VaultError>,

    requires
        before.disk.version == VAULT_VERSION,
        before.disk.owner_user == Some(owner),
        carried_out(change, key, encode, before, after),
        after.disk.recoverable(),
        taken_up(after.disk, owner) matches Ok(disk) ==> disk == reopened,
    ensures
        after.path == before.path,
        taken_up(after.disk, owner) == Ok::<_, Failure>(after.disk),
        reopened.password_envelope is Some <==> after.disk.password_envelope is Some,
        reopened.passkey_envelopes == after.disk.passkey_envelopes,
        unlocks_with_password(reopened, password, decode, unlocked) <==> unlocks_with_password(
            after.disk,
            password,
            decode,
            unlocked,
        ),
        unlocks_with_passkey(reopened, credential_id, secret, decode, unlocked)
            <==> unlocks_with_passkey(after.disk, credential_id, secret, decode, unlocked),
{
}

/// A vault of an account opens again for its owner exactly as it was stored.
pub proof fn law_account_opens_again<E: Fn(&VaultPayload) -> Result<Vec<u8>, VaultError>>(
    disk: VaultDiskView,
    account: Account,
    encode: E,
)
    requires
        represents(disk, account, encode),
    ensures
        taken_up(disk, account.owner) == Ok::<_, Failure>(disk),
{
}

} // verus!
