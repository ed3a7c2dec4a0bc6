//! An unlocked vault: the master key and the tokens it protects.
use crate::crypto::{expose_key, guard_key, key_bytes, MasterKey};
use crate::envelope::KEY_LEN;
use crate::model::{by_provider, MetadataView, OAuthSecret, SecretView, TokenMetadata, VaultPayload};
use crate::string_map::{lists_keys, StringMap};
use crate::text::{lemma_take_next, lemma_views_push, views};
use vstd::prelude::*;
use vstd::slice::slice_to_vec;

verus! {

/// The master key of a vault, and metadata and tokens by provider.
#[derive(Debug)]
pub struct UnlockedVault {
    master_key: MasterKey,
    metadata: StringMap<TokenMetadata>,
    secrets: StringMap<OAuthSecret>,
}

/// The content of an [`UnlockedVault`]; `order` lists the providers of which
/// there is metadata.
#[verifier::ext_equal]
pub struct UnlockedView {
    pub key: Seq<u8>,
    pub metadata: Map<Seq<char>, MetadataView>,
    pub secrets: Map<Seq<char>, SecretView>,
    pub order: Seq<Seq<char>>,
}

impl UnlockedView {
    /// What holds of every unlocked vault: the key has the right length, each
    /// provider is listed once, and metadata stands under its own provider.
    pub open spec fn valid(self) -> bool {
        &&& self.key.len() == KEY_LEN
        &&& lists_keys(self.order, self.metadata)
        &&& forall|provider: Seq<char>| #[trigger]
            self.metadata.dom().contains(provider) ==> self.metadata[provider].provider == provider
    }

    /// The metadata in the order of the providers.
    pub open spec fn listing(self) -> Seq<MetadataView> {
        self.order.map_values(|provider: Seq<char>| self.metadata[provider])
    }

    /// The state after the token of `provider` was put in place.
    pub open spec fn with_token(
        self,
        provider: Seq<char>,
        scopes: Seq<Seq<char>>,
        expires_at_epoch_secs: Option<u64>,
        secret: SecretView,
    ) -> UnlockedView {
        UnlockedView {
            key: self.key,
            metadata: self.metadata.insert(
                provider,
                MetadataView { provider, scopes, expires_at_epoch_secs },
            ),
            secrets: self.secrets.insert(provider, secret),
            order: if self.metadata.dom().contains(provider) {
                self.order
            } else {
                self.order.push(provider)
            },
        }
    }
}

impl View for UnlockedVault {
    type V = UnlockedView;

    closed spec fn view(&self) -> UnlockedView {
        UnlockedView {
            key: key_bytes(self.master_key),
            metadata: self.metadata@,
            secrets: self.secrets@,
            order: self.metadata.order(),
        }
    }
}

impl UnlockedVault {
    #[verifier::type_invariant]
    spec fn well_formed(self) -> bool {
        self@.valid()
    }

    /// Metadata and tokens under `master_key`.
    pub(crate) fn assemble(
        master_key: Vec<u8>,
        token_metadata: &Vec<TokenMetadata>,
        payload: VaultPayload,
    ) -> (unlocked: Self)
        requires
            master_key@.len() == KEY_LEN,
        ensures
            unlocked@.valid(),
            unlocked@.key == master_key@,
            unlocked@.metadata == by_provider(views(token_metadata@)),
            unlocked@.secrets == payload@,
    {
        let ghost entries = views(token_metadata@);
        let mut metadata: StringMap<TokenMetadata> = StringMap::new();
        let mut at: usize = 0;
        assert(entries.take(0) =~= Seq::<MetadataView>::empty());
        while at < token_metadata.len()
            invariant
                at <= token_metadata@.len(),
                entries == views(token_metadata@),
                metadata@ == by_provider(entries.take(at as int)),
                lists_keys(metadata.order(), metadata@),
                forall|provider: Seq<char>| #[trigger]
                    metadata@.dom().contains(provider) ==> metadata@[provider].provider == provider,
            decreases token_metadata@.len() - at,
        {
            let entry = token_metadata[at].clone();
            proof {
                let taken = entries.take(at as int + 1);
                assert(taken.drop_last() =~= entries.take(at as int));
                assert(taken.last() == entry@);
            }
            metadata.insert(entry.provider.clone(), entry);
            at += 1;
        }
        assert(entries.take(at as int) =~= entries);
        UnlockedVault { master_key: guard_key(master_key), metadata, secrets: payload.secrets }
    }

    /// The metadata of `provider`.
    pub fn metadata_for(&self, provider: &str) -> (found: Option<&TokenMetadata>)
        ensures
            match found {
                Some(entry) => self@.metadata.dom().contains(provider@) && entry@
                    == self@.metadata[provider@],
                None => !self@.metadata.dom().contains(provider@),
            },
    {
        self.metadata.get(provider)
    }

    /// The tokens of `provider`.
    pub fn secret_for(&self, provider: &str) -> (found: Option<&OAuthSecret>)
        ensures
            match found {
                Some(secret) => self@.secrets.dom().contains(provider@) && secret@
                    == self@.secrets[provider@],
                None => !self@.secrets.dom().contains(provider@),
            },
    {
        self.secrets.get(provider)
    }

    /// The providers of which there is metadata, each once.
    pub fn providers(&self) -> (names: Vec<&str>)
        ensures
            self@.valid(),
            views(names@) == self@.order,
    {
        proof {
            use_type_invariant(self);
        }
        let mut names: Vec<&str> = Vec::new();
        let len = self.metadata.len();
        let mut at: usize = 0;
        while at < len
            invariant
                at <= len,
                len == self.metadata.order().len(),
                views(names@) == self.metadata.order().take(at as int),
            decreases len - at,
        {
            let (name, _) = self.metadata.entry(at);
            proof {
                lemma_views_push(names@, name);
                lemma_take_next(self.metadata.order(), at as int);
            }
            names.push(name);
            at += 1;
        }
        assert(self.metadata.order().take(at as int) =~= self.metadata.order());
        names
    }

    /// Puts a token in place, instead of what was there for the provider.
    pub fn upsert_token(
        &mut self,
        provider: &str,
        scopes: Vec<String>,
        expires_at_epoch_secs: Option<u64>,
        access_token: &str,
        refresh_token: &str,
    )
        ensures
            final(self)@.valid(),
            final(self)@ == old(self)@.with_token(
                provider@,
                views(scopes@),
                expires_at_epoch_secs,
                SecretView { access_token: access_token@, refresh_token: refresh_token@ },
            ),
    {
        proof {
            use_type_invariant(&*self);
        }
        let entry = TokenMetadata {
            provider: provider.to_owned(),
            scopes,
            expires_at_epoch_secs,
        };
        let secret = OAuthSecret {
            access_token: access_token.to_owned(),
            refresh_token: refresh_token.to_owned(),
        };
        let mut metadata: StringMap<TokenMetadata> = StringMap::new();
        std::mem::swap(&mut metadata, &mut self.metadata);
        metadata.insert(provider.to_owned(), entry);
        self.metadata = metadata;
        let mut secrets: StringMap<OAuthSecret> = StringMap::new();
        std::mem::swap(&mut secrets, &mut self.secrets);
        secrets.insert(provider.to_owned(), secret);
        self.secrets = secrets;
    }

    /// The master key.
    pub fn key(&self) -> (bytes: &[u8])
        ensures
            bytes@ == self@.key,
            self@.valid(),
    {
        proof {
            use_type_invariant(self);
        }
        expose_key(&self.master_key)
    }

    /// A copy of the tokens, as they are encrypted.
    pub fn payload(&self) -> (payload: VaultPayload)
        ensures
            payload@ == self@.secrets,
    {
        VaultPayload { secrets: self.secrets.clone() }
    }

    /// A copy of the metadata, in the order of the providers.
    pub fn metadata_list(&self) -> (entries: Vec<TokenMetadata>)
        ensures
            views(entries@) == self@.listing(),
            self@.valid(),
    {
        proof {
            use_type_invariant(self);
        }
        let mut entries: Vec<TokenMetadata> = Vec::new();
        let len = self.metadata.len();
        let mut at: usize = 0;
        while at < len
            invariant
                at <= len,
                len == self.metadata.order().len(),
                views(entries@) == self@.listing().take(at as int),
            decreases len - at,
        {
            let (_, entry) = self.metadata.entry(at);
            let copy = entry.clone();
            proof {
                lemma_views_push(entries@, copy);
                lemma_take_next(self@.listing(), at as int);
            }
            entries.push(copy);
            at += 1;
        }
        assert(self@.listing().take(at as int) =~= self@.listing());
        entries
    }
}

impl Clone for UnlockedVault {
    fn clone(&self) -> (copy: Self)
        ensures
            copy@ == self@,
    {
        proof {
            use_type_invariant(self);
        }
        let master_key = guard_key(slice_to_vec(expose_key(&self.master_key)));
        UnlockedVault {
            master_key,
            metadata: self.metadata.clone(),
            secrets: self.secrets.clone(),
        }
    }
}

} // verus!
