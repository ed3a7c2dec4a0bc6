//! What the operations of a vault promise together.
use crate::envelope::{decrypted, unwrapped, WrappedKeyView};
use crate::error::{Failure, VaultError};
use crate::model::{
    by_provider, MetadataView, PasskeyView, SecretView, VaultDiskView, VaultPayload,
};
use crate::unlocked::{UnlockedVault, UnlockedView};
use crate::vault::{
    enrolls, first_passkey, of_other, opened_with, protects, reads, rotates, seals, taken_up,
    unlocks, unlocks_with_passkey, unlocks_with_password, without_passkey, writes, VaultView,
    VAULT_VERSION,
};
use vstd::prelude::*;

verus! {

/// Whether `decode` reads back what `encode` wrote.
pub open spec fn inverse<E, D>(encode: E, decode: D) -> bool where
    E: Fn(&VaultPayload) -> Result<Vec<u8>, VaultError>,
    D: Fn(&[u8]) -> Result<VaultPayload, VaultError>,
 {
    forall|
        secrets: Map<Seq<char>, SecretView>,
        written: Vec<u8>,
        read: Result<VaultPayload, VaultError>,
    |
        #![trigger writes(encode, secrets, Ok(written)), reads(decode, written@, read)]
        writes(encode, secrets, Ok(written)) && reads(decode, written@, read) ==> (
        read matches Ok(payload) && payload@ == secrets)
}

/// Metadata listed provider by provider is found again under each provider.
proof fn lemma_listing(metadata: Map<Seq<char>, MetadataView>, order: Seq<Seq<char>>)
    requires
        order.no_duplicates(),
        forall|provider: Seq<char>| #[trigger]
            order.contains(provider) ==> metadata.dom().contains(provider)
                && metadata[provider].provider == provider,
    ensures
        by_provider(order.map_values(|provider: Seq<char>| metadata[provider])).dom()
            =~= order.to_set(),
        forall|provider: Seq<char>| #[trigger]
            order.contains(provider) ==> by_provider(
                order.map_values(|provider: Seq<char>| metadata[provider]),
            )[provider] == metadata[provider],
    decreases order.len(),
{
    let listing = order.map_values(|provider: Seq<char>| metadata[provider]);
    if order.len() > 0 {
        let rest = order.drop_last();
        assert forall|provider: Seq<char>| #[trigger] rest.contains(provider) implies order.contains(
            provider,
        ) by {
            let i = rest.index_of(provider);
            assert(order[i] == provider);
        }
        lemma_listing(metadata, rest);
        assert(listing.drop_last() =~= rest.map_values(
            |provider: Seq<char>| metadata[provider],
        ));
        assert(order.contains(order.last()));
        assert forall|provider: Seq<char>| #[trigger] order.contains(provider) implies provider
            == order.last() || rest.contains(provider) by {
            let i = order.index_of(provider);
            if i < rest.len() {
                assert(rest[i] == provider);
            }
        }
    }
}

/// The metadata of an open vault, listed in the order of its providers, is
/// found again under each provider.
pub proof fn law_listed_metadata_is_found(unlocked: UnlockedView)
    requires
        unlocked.valid(),
    ensures
        by_provider(unlocked.listing()) == unlocked.metadata,
{
    lemma_listing(unlocked.metadata, unlocked.order);
    assert(by_provider(unlocked.listing()).dom() =~= unlocked.metadata.dom());
    assert(by_provider(unlocked.listing()) =~= unlocked.metadata) by {
        assert forall|provider: Seq<char>| #[trigger] unlocked.metadata.dom().contains(
            provider,
        ) implies by_provider(unlocked.listing())[provider] == unlocked.metadata[provider] by {
            assert(unlocked.order.contains(provider));
        }
    }
}

/// What is committed comes back. Let a vault hold the metadata and the tokens
/// of `unlocked`, as a commit leaves it, and let `secret` take the master key
/// out of `envelope`. Then opening the vault with `secret` succeeds and gives
/// the same key, the same metadata and the same tokens, provided that tokens
/// are read as they were written.
pub proof fn law_commit_then_unlock<E, D>(
    disk: VaultDiskView,
    unlocked: UnlockedView,
    encode: E,
    decode: D,
    written: Vec<u8>,
    secret: Seq<char>,
    envelope: WrappedKeyView,
    reopened: Result<UnlockedVault, VaultError>,
) where
    E: Fn(&VaultPayload) -> Result<Vec<u8>, VaultError>,
    D: Fn(&[u8]) -> Result<VaultPayload, VaultError>,

    requires
        unlocked.valid(),
        inverse(encode, decode),
        disk.token_metadata == unlocked.listing(),
        writes(encode, unlocked.secrets, Ok(written)),
        seals(disk.encrypted_payload, written@, unlocked.key),
        unwrapped(secret, envelope) == Ok::<_, Failure>(unlocked.key),
        unlocks(disk, unwrapped(secret, envelope), decode, reopened),
    ensures
        reopened matches Ok(vault) && vault@.key == unlocked.key && vault@.metadata
            == unlocked.metadata && vault@.secrets == unlocked.secrets,
{
    law_listed_metadata_is_found(unlocked);
    let read = choose|read: Result<VaultPayload, VaultError>| #[trigger]
        reads(decode, decrypted(disk.encrypted_payload, unlocked.key)->Ok_0, read)
            && opened_with(disk, unlocked.key, read, reopened);
    assert(reads(decode, written@, read));
}

/// The password of a new vault opens it, and there are no tokens in it.
pub proof fn law_created_opens_with_password<E, D>(
    disk: VaultDiskView,
    password: &str,
    passkeys: Seq<(String, String)>,
    key: Seq<u8>,
    encode: E,
    decode: D,
    written: Vec<u8>,
    unlocked: Result<UnlockedVault, VaultError>,
) where
    E: Fn(&VaultPayload) -> Result<Vec<u8>, VaultError>,
    D: Fn(&[u8]) -> Result<VaultPayload, VaultError>,

    requires
        inverse(encode, decode),
        disk.token_metadata.len() == 0,
        writes(encode, Map::empty(), Ok(written)),
        protects(disk, Some(password), passkeys, key, written@),
        unlocks_with_password(disk, password@, decode, unlocked),
    ensures
        unlocked matches Ok(vault) && vault@.key == key && vault@.metadata == Map::<
            Seq<char>,
            MetadataView,
        >::empty() && vault@.secrets == Map::<Seq<char>, SecretView>::empty(),
{
    lemma_new_vault_opens(disk, key, encode, decode, written, unlocked);
}

/// A new vault opens under its key, and there are no tokens in it.
proof fn lemma_new_vault_opens<E, D>(
    disk: VaultDiskView,
    key: Seq<u8>,
    encode: E,
    decode: D,
    written: Vec<u8>,
    unlocked: Result<UnlockedVault, VaultError>,
) where
    E: Fn(&VaultPayload) -> Result<Vec<u8>, VaultError>,
    D: Fn(&[u8]) -> Result<VaultPayload, VaultError>,

    requires
        inverse(encode, decode),
        disk.token_metadata.len() == 0,
        writes(encode, Map::empty(), Ok(written)),
        seals(disk.encrypted_payload, written@, key),
        unlocks(disk, Ok(key), decode, unlocked),
    ensures
        unlocked matches Ok(vault) && vault@.key == key && vault@.metadata == Map::<
            Seq<char>,
            MetadataView,
        >::empty() && vault@.secrets == Map::<Seq<char>, SecretView>::empty(),
{
    let read = choose|read: Result<VaultPayload, VaultError>| #[trigger]
        reads(decode, decrypted(disk.encrypted_payload, key)->Ok_0, read) && opened_with(
            disk,
            key,
            read,
            unlocked,
        );
    assert(reads(decode, written@, read));
}

/// Each passkey of a new vault opens it, as long as no earlier one has its
/// credential id, and there are no tokens in it.
pub proof fn law_created_opens_with_passkey<E, D>(
    disk: VaultDiskView,
    password: Option<&str>,
    passkeys: Seq<(String, String)>,
    key: Seq<u8>,
    encode: E,
    decode: D,
    written: Vec<u8>,
    unlocked: Result<UnlockedVault, VaultError>,
    at: int,
) where
    E: Fn(&VaultPayload) -> Result<Vec<u8>, VaultError>,
    D: Fn(&[u8]) -> Result<VaultPayload, VaultError>,

    requires
        inverse(encode, decode),
        disk.token_metadata.len() == 0,
        writes(encode, Map::empty(), Ok(written)),
        protects(disk, password, passkeys, key, written@),
        0 <= at < passkeys.len(),
        forall|i: int| 0 <= i < at ==> (#[trigger] passkeys[i]).0@ != passkeys[at].0@,
        unlocks_with_passkey(disk, passkeys[at].0@, passkeys[at].1@, decode, unlocked),
    ensures
        unlocked matches Ok(vault) && vault@.key == key && vault@.metadata == Map::<
            Seq<char>,
            MetadataView,
        >::empty() && vault@.secrets == Map::<Seq<char>, SecretView>::empty(),
{
    let envelopes = disk.passkey_envelopes;
    assert forall|i: int| 0 <= i < at implies (#[trigger] envelopes[i]).credential_id
        != passkeys[at].0@ by {
        assert(passkeys[i].0@ != passkeys[at].0@);
    }
    assert(envelopes[at].credential_id == passkeys[at].0@);
    lemma_first_at(envelopes, passkeys[at].0@, at);
    lemma_new_vault_opens(disk, key, encode, decode, written, unlocked);
}

/// A vault opens again for its owner exactly as it was stored, and for nobody
/// else.
pub proof fn law_stored_vault_opens_for_its_owner(
    disk: VaultDiskView,
    owner: Seq<char>,
    current_user: Seq<char>,
)
    requires
        disk.version == VAULT_VERSION,
        disk.owner_user == Some(owner),
        disk.recoverable(),
    ensures
        taken_up(disk, current_user) == if current_user == owner {
            Ok::<_, Failure>(disk)
        } else {
            Err(Failure::InvalidInput("vault belongs to a different OS user"@))
        },
{
}

/// A new password opens the vault with whatever its master key opened before,
/// and every passkey opens what it opened before.
pub proof fn law_rotated_password_opens<D>(
    before: VaultView,
    key: Seq<u8>,
    password: Seq<char>,
    after: VaultView,
    credential_id: Seq<char>,
    secret: Seq<char>,
    decode: D,
    unlocked: Result<UnlockedVault, VaultError>,
) where D: Fn(&[u8]) -> Result<VaultPayload, VaultError>

    requires
        rotates(before, key, password, after, Ok(())),
    ensures
        unlocks_with_password(after.disk, password, decode, unlocked) <==> unlocks(
            before.disk,
            Ok(key),
            decode,
            unlocked,
        ),
        unlocks_with_passkey(after.disk, credential_id, secret, decode, unlocked)
            <==> unlocks_with_passkey(before.disk, credential_id, secret, decode, unlocked),
{
}

/// The first envelope of a credential is the one before which there is none.
pub proof fn lemma_first_at(envelopes: Seq<PasskeyView>, credential_id: Seq<char>, at: int)
    requires
        0 <= at < envelopes.len(),
        envelopes[at].credential_id == credential_id,
        forall|i: int| 0 <= i < at ==> (#[trigger] envelopes[i]).credential_id != credential_id,
    ensures
        first_passkey(envelopes, credential_id) == Some(envelopes[at].wrapped_master_key),
    decreases envelopes.len(),
{
    if at > 0 {
        assert(envelopes[0].credential_id != credential_id);
        assert forall|i: int| 0 <= i < at - 1 implies (
        #[trigger] envelopes.drop_first()[i]).credential_id != credential_id by {
            assert(envelopes[i + 1].credential_id != credential_id);
        }
        lemma_first_at(envelopes.drop_first(), credential_id, at - 1);
    }
}

/// Looking a credential up in a list that was extended.
proof fn lemma_first_in_extended(
    envelopes: Seq<PasskeyView>,
    added: Seq<PasskeyView>,
    credential_id: Seq<char>,
)
    ensures
        first_passkey(envelopes + added, credential_id) == match first_passkey(
            envelopes,
            credential_id,
        ) {
            Some(envelope) => Some(envelope),
            None => first_passkey(added, credential_id),
        },
    decreases envelopes.len(),
{
    if envelopes.len() == 0 {
        assert(envelopes + added =~= added);
    } else {
        assert((envelopes + added).drop_first() =~= envelopes.drop_first() + added);
        lemma_first_in_extended(envelopes.drop_first(), added, credential_id);
    }
}

/// A passkey that was revoked opens nothing any more, and every other passkey
/// opens what it opened before.
pub proof fn law_revoke(envelopes: Seq<PasskeyView>, credential_id: Seq<char>, other: Seq<char>)
    ensures
        first_passkey(without_passkey(envelopes, credential_id), credential_id) is None,
        other != credential_id ==> first_passkey(without_passkey(envelopes, credential_id), other)
            == first_passkey(envelopes, other),
    decreases envelopes.len(),
{
    let keep = of_other(credential_id);
    reveal(Seq::filter);
    if envelopes.len() > 0 {
        let rest = envelopes.drop_first();
        law_revoke(rest, credential_id, other);
        assert(envelopes =~= seq![envelopes[0]] + rest);
        Seq::filter_distributes_over_add(seq![envelopes[0]], rest, keep);
        assert(seq![envelopes[0]].drop_last() =~= Seq::<PasskeyView>::empty());
        assert(seq![envelopes[0]].drop_last().filter(keep) =~= Seq::<PasskeyView>::empty());
        if keep(envelopes[0]) {
            assert(seq![envelopes[0]].filter(keep) =~= seq![envelopes[0]]);
            let kept = without_passkey(envelopes, credential_id);
            assert(kept =~= seq![envelopes[0]] + without_passkey(rest, credential_id));
            assert(kept.drop_first() =~= without_passkey(rest, credential_id));
        } else {
            assert(without_passkey(envelopes, credential_id) =~= without_passkey(
                rest,
                credential_id,
            ));
        }
    }
}

/// A passkey that was enrolled opens the vault with whatever its master key
/// opened before, in place of any that had its credential id, and every other
/// passkey and the password open what they opened before.
pub proof fn law_enrolled_passkey_opens<D>(
    before: VaultView,
    key: Seq<u8>,
    credential_id: Seq<char>,
    secret: Seq<char>,
    after: VaultView,
    other: Seq<char>,
    other_secret: Seq<char>,
    decode: D,
    unlocked: Result<UnlockedVault, VaultError>,
) where D: Fn(&[u8]) -> Result<VaultPayload, VaultError>

    requires
        enrolls(before, key, credential_id, secret, after, Ok(())),
    ensures
        unlocks_with_passkey(after.disk, credential_id, secret, decode, unlocked) <==> unlocks(
            before.disk,
            Ok(key),
            decode,
            unlocked,
        ),
        other != credential_id ==> (unlocks_with_passkey(
            after.disk,
            other,
            other_secret,
            decode,
            unlocked,
        ) <==> unlocks_with_passkey(before.disk, other, other_secret, decode, unlocked)),
        unlocks_with_password(after.disk, other_secret, decode, unlocked)
            <==> unlocks_with_password(before.disk, other_secret, decode, unlocked),
{
    let envelopes = after.disk.passkey_envelopes;
    law_revoke(before.disk.passkey_envelopes, credential_id, other);
    let added = seq![envelopes.last()];
    assert(envelopes =~= envelopes.drop_last() + added);
    lemma_first_in_extended(envelopes.drop_last(), added, credential_id);
    lemma_first_in_extended(envelopes.drop_last(), added, other);
    assert(added.drop_first() =~= Seq::<PasskeyView>::empty());
    assert(first_passkey(added.drop_first(), other) is None);
}

} // verus!
