//! What a vault is made of.
use crate::envelope::{EncryptedPayload, EncryptedView, WrappedKey, WrappedKeyView};
use crate::string_map::StringMap;
use crate::text::views;
use vstd::prelude::*;

verus! {

/// What is known of a provider's token without unlocking the vault.
#[derive(Debug, PartialEq, Eq)]
pub struct TokenMetadata {
    pub provider: String,
    pub scopes: Vec<String>,
    pub expires_at_epoch_secs: Option<u64>,
}

/// The content of a [`TokenMetadata`].
pub struct MetadataView {
    pub provider: Seq<char>,
    pub scopes: Seq<Seq<char>>,
    pub expires_at_epoch_secs: Option<u64>,
}

impl View for TokenMetadata {
    type V = MetadataView;

    open spec fn view(&self) -> MetadataView {
        MetadataView {
            provider: self.provider@,
            scopes: views(self.scopes@),
            expires_at_epoch_secs: self.expires_at_epoch_secs,
        }
    }
}

/// A copy of `texts`.
pub fn copy_texts(texts: &Vec<String>) -> (copy: Vec<String>)
    ensures
        views(copy@) == views(texts@),
{
    let copy = texts.clone();
    assert(views(copy@) =~= views(texts@));
    copy
}

impl Clone for TokenMetadata {
    fn clone(&self) -> (copy: Self)
        ensures
            copy@ == self@,
    {
        TokenMetadata {
            provider: self.provider.clone(),
            scopes: copy_texts(&self.scopes),
            expires_at_epoch_secs: self.expires_at_epoch_secs,
        }
    }
}

/// The tokens of a provider.
#[derive(Debug, PartialEq, Eq)]
pub struct OAuthSecret {
    pub access_token: String,
    pub refresh_token: String,
}

/// The content of an [`OAuthSecret`].
pub struct SecretView {
    pub access_token: Seq<char>,
    pub refresh_token: Seq<char>,
}

impl View for OAuthSecret {
    type V = SecretView;

    open spec fn view(&self) -> SecretView {
        SecretView { access_token: self.access_token@, refresh_token: self.refresh_token@ }
    }
}

impl Clone for OAuthSecret {
    fn clone(&self) -> (copy: Self)
        ensures
            copy@ == self@,
    {
        OAuthSecret {
            access_token: self.access_token.clone(),
            refresh_token: self.refresh_token.clone(),
        }
    }
}

/// What a vault keeps encrypted: the tokens by provider.
#[derive(Debug)]
pub struct VaultPayload {
    pub secrets: StringMap<OAuthSecret>,
}

impl View for VaultPayload {
    type V = Map<Seq<char>, SecretView>;

    open spec fn view(&self) -> Map<Seq<char>, SecretView> {
        self.secrets@
    }
}

impl Default for VaultPayload {
    fn default() -> (payload: Self)
        ensures
            payload@ == Map::<Seq<char>, SecretView>::empty(),
    {
        VaultPayload { secrets: StringMap::new() }
    }
}

/// The master key, wrapped under the secret of one passkey.
#[derive(Debug, Clone)]
pub struct PasskeyEnvelope {
    pub credential_id: String,
    pub wrapped_master_key: WrappedKey,
}

/// The content of a [`PasskeyEnvelope`].
pub struct PasskeyView {
    pub credential_id: Seq<char>,
    pub wrapped_master_key: WrappedKeyView,
}

impl View for PasskeyEnvelope {
    type V = PasskeyView;

    open spec fn view(&self) -> PasskeyView {
        PasskeyView {
            credential_id: self.credential_id@,
            wrapped_master_key: self.wrapped_master_key@,
        }
    }
}

/// What the vault file holds.
#[derive(Debug, Clone)]
pub struct VaultDisk {
    pub version: u32,
    pub owner_user: Option<String>,
    pub password_envelope: Option<WrappedKey>,
    pub passkey_envelopes: Vec<PasskeyEnvelope>,
    pub token_metadata: Vec<TokenMetadata>,
    pub encrypted_payload: EncryptedPayload,
}

/// The content of a [`VaultDisk`].
#[verifier::ext_equal]
pub struct VaultDiskView {
    pub version: u32,
    pub owner_user: Option<Seq<char>>,
    pub password_envelope: Option<WrappedKeyView>,
    pub passkey_envelopes: Seq<PasskeyView>,
    pub token_metadata: Seq<MetadataView>,
    pub encrypted_payload: EncryptedView,
}

/// The view of an optional value.
pub open spec fn option_view<T: View>(value: Option<T>) -> Option<T::V> {
    match value {
        Some(inner) => Some(inner@),
        None => None,
    }
}

impl View for VaultDisk {
    type V = VaultDiskView;

    open spec fn view(&self) -> VaultDiskView {
        VaultDiskView {
            version: self.version,
            owner_user: option_view(self.owner_user),
            password_envelope: option_view(self.password_envelope),
            passkey_envelopes: views(self.passkey_envelopes@),
            token_metadata: views(self.token_metadata@),
            encrypted_payload: self.encrypted_payload@,
        }
    }
}

/// Metadata by provider; of two entries for one provider the later counts.
pub open spec fn by_provider(entries: Seq<MetadataView>) -> Map<Seq<char>, MetadataView>
    decreases entries.len(),
{
    if entries.len() == 0 {
        Map::empty()
    } else {
        by_provider(entries.drop_last()).insert(entries.last().provider, entries.last())
    }
}

} // verus!
