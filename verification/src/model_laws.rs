//! What vaults are made of, as the contracts see it.
use crate::auth::AuthError;
use crate::envelope::{EncryptedPayload, WrappedKey};
use crate::error::{outcome, shows, Failure, VaultError};
use crate::model::{
    by_provider, option_view, MetadataView, OAuthSecret, PasskeyEnvelope, SecretView,
    TokenMetadata, VaultDisk, VaultPayload,
};
use crate::unlocked::UnlockedView;
use vstd::prelude::*;
use vstd::std_specs::convert::FromSpec;
use vstd::string::*;

verus! {

/// Metadata and tokens are seen as they are, field by field.
pub proof fn law_tokens_as_seen(metadata: TokenMetadata, secret: OAuthSecret, payload: VaultPayload)
    ensures
        metadata@.provider == metadata.provider@,
        metadata@.scopes.len() == metadata.scopes@.len(),
        forall|i: int|
            0 <= i < metadata.scopes@.len() ==> #[trigger] metadata@.scopes[i]
                == metadata.scopes@[i]@,
        metadata@.expires_at_epoch_secs == metadata.expires_at_epoch_secs,
        secret@.access_token == secret.access_token@,
        secret@.refresh_token == secret.refresh_token@,
        payload@ == payload.secrets@,
{
}

/// Envelopes are seen as they are, field by field.
pub proof fn law_envelopes_as_seen(
    wrapped: WrappedKey,
    encrypted: EncryptedPayload,
    passkey: PasskeyEnvelope,
)
    ensures
        wrapped@.kdf == wrapped.kdf,
        wrapped@.salt_b64 == wrapped.salt_b64@,
        wrapped@.nonce_b64 == wrapped.nonce_b64@,
        wrapped@.ciphertext_b64 == wrapped.ciphertext_b64@,
        encrypted@.nonce_b64 == encrypted.nonce_b64@,
        encrypted@.ciphertext_b64 == encrypted.ciphertext_b64@,
        passkey@.credential_id == passkey.credential_id@,
        passkey@.wrapped_master_key == passkey.wrapped_master_key@,
{
}

/// A vault file is seen as it is, field by field, with every envelope and every
/// entry of metadata in its place.
pub proof fn law_disk_as_seen(disk: VaultDisk)
    ensures
        disk@.version == disk.version,
        match disk.owner_user {
            Some(owner) => disk@.owner_user == Some(owner@),
            None => disk@.owner_user is None,
        },
        match disk.password_envelope {
            Some(envelope) => disk@.password_envelope == Some(envelope@),
            None => disk@.password_envelope is None,
        },
        disk@.passkey_envelopes.len() == disk.passkey_envelopes@.len(),
        forall|i: int|
            0 <= i < disk.passkey_envelopes@.len() ==> #[trigger] disk@.passkey_envelopes[i]
                == disk.passkey_envelopes@[i]@,
        disk@.token_metadata.len() == disk.token_metadata@.len(),
        forall|i: int|
            0 <= i < disk.token_metadata@.len() ==> #[trigger] disk@.token_metadata[i]
                == disk.token_metadata@[i]@,
        disk@.encrypted_payload == disk.encrypted_payload@,
{
}

/// An entry at the end of a list of metadata is found under its provider, in
/// place of any before it, and hides no other provider; an empty list has none.
pub proof fn law_last_entry_counts(
    entries: Seq<MetadataView>,
    entry: MetadataView,
    other: Seq<char>,
)
    ensures
        by_provider(Seq::<MetadataView>::empty()).dom() =~= Set::empty(),
        by_provider(entries.push(entry)).dom() =~= by_provider(entries).dom().insert(
            entry.provider,
        ),
        by_provider(entries.push(entry))[entry.provider] == entry,
        other != entry.provider ==> by_provider(entries.push(entry))[other]
            == by_provider(entries)[other],
{
    assert(entries.push(entry).drop_last() =~= entries);
}

/// A token that is put in place is there afterwards, under its provider alone,
/// in place of any that was there; every other provider, the key and the order
/// of the providers stay.
pub proof fn law_token_is_put_in_place(
    unlocked: UnlockedView,
    provider: Seq<char>,
    scopes: Seq<Seq<char>>,
    expires_at_epoch_secs: Option<u64>,
    secret: SecretView,
    other: Seq<char>,
)
    ensures
        ({
            let after = unlocked.with_token(provider, scopes, expires_at_epoch_secs, secret);
            &&& after.key == unlocked.key
            &&& after.metadata.dom() == unlocked.metadata.dom().insert(provider)
            &&& after.secrets.dom() == unlocked.secrets.dom().insert(provider)
            &&& after.metadata[provider].provider == provider
            &&& after.metadata[provider].scopes == scopes
            &&& after.metadata[provider].expires_at_epoch_secs == expires_at_epoch_secs
            &&& after.secrets[provider] == secret
            &&& other != provider ==> after.metadata[other] == unlocked.metadata[other]
                && after.secrets[other] == unlocked.secrets[other]
            &&& unlocked.metadata.dom().contains(provider) ==> after.order == unlocked.order
            &&& !unlocked.metadata.dom().contains(provider) ==> after.order
                == unlocked.order.push(provider)
        }),
{
}

/// The metadata of an open vault is listed provider by provider, and every open
/// vault has a key of 32 bytes, a list of its providers, each once, and every
/// metadata under its own provider.
pub proof fn law_open_vaults_list_their_metadata(unlocked: UnlockedView)
    ensures
        unlocked.listing().len() == unlocked.order.len(),
        forall|i: int|
            0 <= i < unlocked.order.len() ==> #[trigger] unlocked.listing()[i]
                == unlocked.metadata[unlocked.order[i]],
        unlocked.valid() <==> unlocked.key.len() == 32 && unlocked.order.no_duplicates() && (forall|
            provider: Seq<char>,
        | #[trigger]
            unlocked.metadata.dom().contains(provider) <==> unlocked.order.contains(provider)) && (
        forall|provider: Seq<char>| #[trigger]
            unlocked.metadata.dom().contains(provider) ==> unlocked.metadata[provider].provider
                == provider),
{
}

/// A failure keeps its kind and its text, and a result its value or its failure.
pub proof fn law_failures_as_seen<T: View>(
    io: std::io::Error,
    json: serde_json::Error,
    text: &'static str,
    input: String,
    value: T,
    err: VaultError,
)
    ensures
        VaultError::Io(io)@ == Failure::Io(io),
        VaultError::Serde(json)@ == Failure::Serde(json),
        VaultError::Crypto(text)@ == Failure::Crypto(text@),
        VaultError::InvalidData(text)@ == Failure::InvalidData(text@),
        VaultError::InvalidInput(input)@ == Failure::InvalidInput(input@),
        outcome(Ok::<T, VaultError>(value)) == Ok::<T::V, Failure>(value@),
        outcome(Err::<T, VaultError>(err)) == Err::<T::V, Failure>(err@),
        option_view(Some(value)) == Some(value@),
        option_view(None::<T>) is None,
{
}

/// The text of an operating-system error starts with its kind.
proof fn lemma_io_text(io: std::io::Error, detail: String)
    requires
        to_string_from_display_ensures(&io, detail),
    ensures
        shows(VaultError::Io(io), "io error: "@ + detail@),
{
    let err = VaultError::Io(io);
    assert(err->Io_0 == io);
    assert(to_string_from_display_ensures(&err->Io_0, detail));
    let text = "io error: "@ + detail@;
    assert(exists|detail: String| #[trigger]
            to_string_from_display_ensures(&err->Io_0, detail) && text == "io error: "@ + detail@);
}

/// The text of a failure is its kind, a colon and its detail, and no other
/// text shows it.
pub proof fn law_texts_of_failures(
    io: std::io::Error,
    json: serde_json::Error,
    msg: &'static str,
    input: String,
    detail: String,
    text: Seq<char>,
)
    ensures
        shows(VaultError::Crypto(msg), text) <==> text == "crypto error: "@ + msg@,
        shows(VaultError::InvalidData(msg), text) <==> text == "invalid data: "@ + msg@,
        shows(VaultError::InvalidInput(input), text) <==> text == "invalid input: "@ + input@,
        to_string_from_display_ensures(&io, detail) ==> shows(
            VaultError::Io(io),
            "io error: "@ + detail@,
        ),
        to_string_from_display_ensures(&json, detail) ==> shows(
            VaultError::Serde(json),
            "serialization error: "@ + detail@,
        ),
        shows(VaultError::Io(io), text) ==> exists|detail: String| #[trigger]
            to_string_from_display_ensures(&io, detail) && text == "io error: "@ + detail@,
        shows(VaultError::Serde(json), text) ==> exists|detail: String| #[trigger]
            to_string_from_display_ensures(&json, detail) && text == "serialization error: "@
                + detail@,
{
    if to_string_from_display_ensures(&io, detail) {
        lemma_io_text(io, detail);
    }
    if shows(VaultError::Io(io), text) {
        let detail = choose|detail: String| #[trigger]
            to_string_from_display_ensures(&io, detail) && text == "io error: "@ + detail@;
        assert(to_string_from_display_ensures(&io, detail) && text == "io error: "@ + detail@);
    }
    if shows(VaultError::Serde(json), text) {
        let detail = choose|detail: String| #[trigger]
            to_string_from_display_ensures(&json, detail) && text == "serialization error: "@
                + detail@;
        assert(to_string_from_display_ensures(&json, detail) && text == "serialization error: "@
            + detail@);
    }
}

/// Errors of the operating system and of JSON become vault errors of their
/// kind, and a vault error an authentication error, unchanged.
pub proof fn law_errors_are_handed_on(
    io: std::io::Error,
    json: serde_json::Error,
    err: VaultError,
)
    ensures
        <VaultError as FromSpec<std::io::Error>>::from_spec(io) == VaultError::Io(io),
        <VaultError as FromSpec<serde_json::Error>>::from_spec(json) == VaultError::Serde(json),
        <AuthError as FromSpec<VaultError>>::from_spec(err) == AuthError::Vault(err),
{
}

} // verus!
