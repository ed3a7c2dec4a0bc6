//! Access tokens for the sources, and how they are kept fresh.
use crate::error::{outcome, Failure, VaultError};
use crate::model::{copy_texts, MetadataView, SecretView};
use crate::string_map::StringMap;
use crate::text::{lemma_take_next, lemma_views_push, views};
use crate::timeline::Source;
use crate::unlocked::{UnlockedVault, UnlockedView};
use vstd::prelude::*;

verus! {

/// Gives out the access token of a source.
pub trait CredentialProvider: Send + Sync {
    /// The access token of `source`, if there is one.
    fn access_token_for_source(&self, source: Source) -> Option<&str>;
}

/// The access tokens of one session, by provider.
#[derive(Debug)]
pub struct SessionCredentialProvider {
    tokens_by_provider: StringMap<String>,
}

impl View for SessionCredentialProvider {
    type V = Map<Seq<char>, Seq<char>>;

    closed spec fn view(&self) -> Map<Seq<char>, Seq<char>> {
        self.tokens_by_provider@
    }
}

/// The access tokens of the providers that have both metadata and tokens.
pub open spec fn session_tokens(unlocked: UnlockedView) -> Map<Seq<char>, Seq<char>> {
    Map::new(
        |provider: Seq<char>|
            unlocked.metadata.dom().contains(provider) && unlocked.secrets.dom().contains(provider),
        |provider: Seq<char>| unlocked.secrets[provider].access_token,
    )
}

impl SessionCredentialProvider {
    /// The access tokens in an unlocked vault.
    pub fn from_unlocked(unlocked: &UnlockedVault) -> (session: Self)
        ensures
            session@ == session_tokens(unlocked@),
    {
        let names = unlocked.providers();
        let ghost order = unlocked@.order;
        let mut tokens: StringMap<String> = StringMap::new();
        let mut at: usize = 0;
        while at < names.len()
            invariant
                at <= names@.len(),
                views(names@) == order,
                forall|provider: Seq<char>| #[trigger]
                    tokens@.dom().contains(provider) <==> order.take(at as int).contains(provider)
                        && unlocked@.secrets.dom().contains(provider),
                forall|provider: Seq<char>| #[trigger]
                    tokens@.dom().contains(provider) ==> tokens@[provider]
                        == unlocked@.secrets[provider].access_token,
            decreases names@.len() - at,
        {
            let name = names[at];
            proof {
                let taken = order.take(at as int);
                assert(name@ == order[at as int]);
                lemma_take_next(order, at as int);
                assert forall|provider: Seq<char>| #[trigger]
                    taken.push(name@).contains(provider) <==> (taken.contains(provider) || provider
                    == name@) by {
                    if taken.contains(provider) {
                        let i = taken.index_of(provider);
                        assert(taken.push(name@)[i] == provider);
                    }
                    assert(taken.push(name@)[at as int] == name@);
                }
            }
            if let Some(secret) = unlocked.secret_for(name) {
                tokens.insert(name.to_owned(), secret.access_token.clone());
            }
            at += 1;
        }
        assert(order.take(at as int) =~= order);
        assert(tokens@ =~= session_tokens(unlocked@));
        SessionCredentialProvider { tokens_by_provider: tokens }
    }
}

impl CredentialProvider for SessionCredentialProvider {
    fn access_token_for_source(&self, source: Source) -> (token: Option<&str>)
        ensures
            match token {
                Some(token) => self@.dom().contains(source.account()) && token@
                    == self@[source.account()],
                None => !self@.dom().contains(source.account()),
            },
    {
        match self.tokens_by_provider.get(source.provider_key()) {
            Some(token) => Some(token.as_str()),
            None => None,
        }
    }
}

impl Clone for SessionCredentialProvider {
    fn clone(&self) -> (copy: Self)
        ensures
            copy@ == self@,
    {
        SessionCredentialProvider { tokens_by_provider: self.tokens_by_provider.clone() }
    }
}

impl Default for SessionCredentialProvider {
    fn default() -> (session: Self)
        ensures
            session@ == Map::<Seq<char>, Seq<char>>::empty(),
    {
        SessionCredentialProvider { tokens_by_provider: StringMap::new() }
    }
}

/// The tokens that a service issues in exchange for a refresh token.
#[derive(Debug, Clone, PartialEq, Eq)]
pub struct RefreshResult {
    pub access_token: String,
    pub refresh_token: String,
    pub expires_at_epoch_secs: Option<u64>,
}

/// The content of a [`RefreshResult`].
pub struct RefreshView {
    pub access_token: Seq<char>,
    pub refresh_token: Seq<char>,
    pub expires_at_epoch_secs: Option<u64>,
}

impl View for RefreshResult {
    type V = RefreshView;

    open spec fn view(&self) -> RefreshView {
        RefreshView {
            access_token: self.access_token@,
            refresh_token: self.refresh_token@,
            expires_at_epoch_secs: self.expires_at_epoch_secs,
        }
    }
}

/// Exchanges a refresh token for new tokens.
pub trait OAuthRefresher {
    /// The tokens that `provider` issues for `refresh_token`, if it issues any.
    fn refresh(&self, provider: &str, refresh_token: &str, now_epoch_secs: u64) -> Option<
        RefreshResult,
    >;
}

/// Keeps the tokens of an unlocked vault fresh.
#[derive(Debug)]
pub struct OAuthSessionManager<R: OAuthRefresher> {
    refresher: R,
}

/// Whether a token has expired.
pub open spec fn expired(metadata: MetadataView, now_epoch_secs: u64) -> bool {
    metadata.expires_at_epoch_secs matches Some(expires_at) && expires_at <= now_epoch_secs
}

/// Whether the token of `provider` is to be refreshed.
pub open spec fn due(unlocked: UnlockedView, provider: Seq<char>, now_epoch_secs: u64) -> bool {
    unlocked.metadata.dom().contains(provider) && expired(
        unlocked.metadata[provider],
        now_epoch_secs,
    )
}

/// Whether the token of `provider` is to be refreshed and there is none.
pub open spec fn orphaned(
    unlocked: UnlockedView,
    provider: Seq<char>,
    now_epoch_secs: u64,
) -> bool {
    due(unlocked, provider, now_epoch_secs) && !unlocked.secrets.dom().contains(provider)
}

/// What a reply makes of an unlocked vault: new tokens take the place of the
/// old ones, and the scopes stay.
pub open spec fn with_reply(
    unlocked: UnlockedView,
    provider: Seq<char>,
    reply: Option<RefreshView>,
) -> UnlockedView {
    match reply {
        Some(tokens) => unlocked.with_token(
            provider,
            if unlocked.metadata.dom().contains(provider) {
                unlocked.metadata[provider].scopes
            } else {
                Seq::empty()
            },
            tokens.expires_at_epoch_secs,
            SecretView {
                access_token: tokens.access_token,
                refresh_token: tokens.refresh_token,
            },
        ),
        None => unlocked,
    }
}

/// An unlocked vault after the first `count` of its providers were looked at,
/// where `replies` holds what came back for each that was due.
pub open spec fn after_replies(
    unlocked: UnlockedView,
    now_epoch_secs: u64,
    replies: Seq<Option<RefreshView>>,
    count: nat,
) -> UnlockedView
    decreases count,
{
    if count == 0 {
        unlocked
    } else {
        let at = count - 1;
        let provider = unlocked.order[at];
        let before = after_replies(unlocked, now_epoch_secs, replies, at as nat);
        if due(unlocked, provider, now_epoch_secs) {
            with_reply(before, provider, replies[at])
        } else {
            before
        }
    }
}

/// How many of the first `count` providers got new tokens.
pub open spec fn renewed(
    unlocked: UnlockedView,
    now_epoch_secs: u64,
    replies: Seq<Option<RefreshView>>,
    count: nat,
) -> nat
    decreases count,
{
    if count == 0 {
        0
    } else {
        let at = count - 1;
        renewed(unlocked, now_epoch_secs, replies, at as nat) + if due(
            unlocked,
            unlocked.order[at],
            now_epoch_secs,
        ) && replies[at] is Some {
            1nat
        } else {
            0
        }
    }
}

/// Whether `reply` is what `refresher` gives for the refresh token of
/// `provider`.
pub open spec fn replies_with<R: OAuthRefresher>(
    refresher: R,
    provider: Seq<char>,
    refresh_token: Seq<char>,
    now_epoch_secs: u64,
    reply: Option<RefreshView>,
) -> bool {
    exists|name: &str, token: &str, answer: Option<RefreshResult>|
        #![trigger call_ensures(R::refresh, (&refresher, name, token, now_epoch_secs), answer)]
        name@ == provider && token@ == refresh_token && call_ensures(
            R::refresh,
            (&refresher, name, token, now_epoch_secs),
            answer,
        ) && reply == reply_view(answer)
}

/// A reply with the tokens as characters.
pub open spec fn reply_view(answer: Option<RefreshResult>) -> Option<RefreshView> {
    match answer {
        Some(tokens) => Some(tokens@),
        None => None,
    }
}

/// Whether `replies` holds a reply of `refresher` for each of the first
/// `count` providers that was due.
pub open spec fn answered<R: OAuthRefresher>(
    refresher: R,
    unlocked: UnlockedView,
    now_epoch_secs: u64,
    replies: Seq<Option<RefreshView>>,
    count: nat,
) -> bool {
    forall|i: int|
        0 <= i < count && due(unlocked, unlocked.order[i], now_epoch_secs) ==> replies_with(
            refresher,
            unlocked.order[i],
            unlocked.secrets[unlocked.order[i]].refresh_token,
            now_epoch_secs,
            #[trigger] replies[i],
        )
}

/// The outcome of a refresh in which `replies` came back: the vault after it,
/// and the number of new tokens, or the failure at the first provider that
/// was due and had no token.
pub open spec fn refreshed<R: OAuthRefresher>(
    refresher: R,
    unlocked: UnlockedView,
    now_epoch_secs: u64,
    replies: Seq<Option<RefreshView>>,
    after: UnlockedView,
    updated: Result<usize, VaultError>,
) -> bool {
    exists|count: nat| #[trigger]
        answered(refresher, unlocked, now_epoch_secs, replies, count) && {
            &&& count <= unlocked.order.len()
            &&& after == after_replies(unlocked, now_epoch_secs, replies, count)
            &&& forall|i: int|
                0 <= i < count ==> !orphaned(
                    unlocked,
                    #[trigger] unlocked.order[i],
                    now_epoch_secs,
                )
            &&& match updated {
                Ok(number) => count == unlocked.order.len() && number == renewed(
                    unlocked,
                    now_epoch_secs,
                    replies,
                    count,
                ),
                Err(err) => {
                    &&& count < unlocked.order.len()
                    &&& orphaned(unlocked, unlocked.order[count as int], now_epoch_secs)
                    &&& err@ == Failure::InvalidData("metadata exists without matching secret"@)
                },
            }
        }
}

/// Looking at some providers leaves those that come later, the key and the
/// set of providers as they were.
proof fn lemma_later_providers_untouched(
    unlocked: UnlockedView,
    now_epoch_secs: u64,
    replies: Seq<Option<RefreshView>>,
    count: nat,
)
    requires
        unlocked.valid(),
        count <= unlocked.order.len(),
    ensures
        after_replies(unlocked, now_epoch_secs, replies, count).valid(),
        after_replies(unlocked, now_epoch_secs, replies, count).order == unlocked.order,
        after_replies(unlocked, now_epoch_secs, replies, count).key == unlocked.key,
        forall|i: int|
            #![trigger unlocked.order[i]]
            count <= i < unlocked.order.len() ==> {
                let after = after_replies(unlocked, now_epoch_secs, replies, count);
                let provider = unlocked.order[i];
                &&& after.metadata.dom().contains(provider)
                &&& after.metadata[provider] == unlocked.metadata[provider]
                &&& after.secrets.dom().contains(provider) == unlocked.secrets.dom().contains(
                    provider,
                )
                &&& after.secrets[provider] == unlocked.secrets[provider]
            },
    decreases count,
{
    assert forall|i: int| #![trigger unlocked.order[i]] 0 <= i < unlocked.order.len() implies
        unlocked.metadata.dom().contains(unlocked.order[i]) by {
        assert(unlocked.order.contains(unlocked.order[i]));
    }
    if count > 0 {
        let at = count - 1;
        lemma_later_providers_untouched(unlocked, now_epoch_secs, replies, at as nat);
        let before = after_replies(unlocked, now_epoch_secs, replies, at as nat);
        let after = after_replies(unlocked, now_epoch_secs, replies, count);
        let provider = unlocked.order[at];
        assert(before.metadata.dom().contains(provider));
        assert(after.metadata.dom() =~= before.metadata.dom());
        assert forall|i: int| #![trigger unlocked.order[i]] count <= i < unlocked.order.len() implies
            unlocked.order[i] != provider by {
            assert(i != at);
        }
    }
}

impl<R: OAuthRefresher> OAuthSessionManager<R> {
    /// What refreshes the tokens.
    pub closed spec fn refresher(&self) -> R {
        self.refresher
    }

    /// A manager that refreshes tokens with `refresher`.
    pub fn new(refresher: R) -> (manager: Self)
        ensures
            manager.refresher() == refresher,
    {
        OAuthSessionManager { refresher }
    }

    /// Refreshes the tokens that have expired at `now_epoch_secs`, and says how
    /// many new ones came.
    pub fn refresh_expiring_tokens(
        &self,
        unlocked: &mut UnlockedVault,
        now_epoch_secs: u64,
    ) -> (updated: Result<usize, VaultError>)
        ensures
            old(unlocked)@.valid(),
            exists|replies: Seq<Option<RefreshView>>| #[trigger]
                refreshed(
                    self.refresher(),
                    old(unlocked)@,
                    now_epoch_secs,
                    replies,
                    final(unlocked)@,
                    updated,
                ),
    {
        let ghost before = unlocked@;
        let ghost mut replies: Seq<Option<RefreshView>> = Seq::empty();
        let provider_ids = copy_names(unlocked.providers());
        let mut updated: usize = 0;
        let mut at: usize = 0;
        while at < provider_ids.len()
            invariant
                at <= provider_ids@.len(),
                updated <= at,
                before == old(unlocked)@,
                before.valid(),
                views(provider_ids@) == before.order,
                replies.len() == at,
                unlocked@ == after_replies(before, now_epoch_secs, replies, at as nat),
                updated == renewed(before, now_epoch_secs, replies, at as nat),
                answered(self.refresher(), before, now_epoch_secs, replies, at as nat),
                forall|i: int|
                    0 <= i < at ==> !orphaned(before, #[trigger] before.order[i], now_epoch_secs),
            decreases provider_ids@.len() - at,
        {
            let provider = provider_ids[at].as_str();
            proof {
                lemma_later_providers_untouched(before, now_epoch_secs, replies, at as nat);
                assert(before.order[at as int] == provider@);
                assert(before.order.contains(provider@));
            }
            let ghost mut reply: Option<RefreshView> = None;
            let should_refresh = match unlocked.metadata_for(provider) {
                Some(entry) => match entry.expires_at_epoch_secs {
                    Some(expires_at) => expires_at <= now_epoch_secs,
                    None => false,
                },
                None => false,
            };
            assert(should_refresh == due(before, provider@, now_epoch_secs));
            if should_refresh {
                let refresh_token = match unlocked.secret_for(provider) {
                    Some(secret) => secret.refresh_token.clone(),
                    None => {
                        assert(refreshed(
                            self.refresher(),
                            before,
                            now_epoch_secs,
                            replies,
                            unlocked@,
                            Err::<usize, VaultError>(
                                VaultError::InvalidData("metadata exists without matching secret"),
                            ),
                        ));
                        return Err(
                            VaultError::InvalidData("metadata exists without matching secret"),
                        );
                    },
                };
                let answer = self.refresher.refresh(
                    provider,
                    refresh_token.as_str(),
                    now_epoch_secs,
                );
                proof {
                    reply = reply_view(answer);
                    assert(replies_with(
                        self.refresher(),
                        provider@,
                        refresh_token@,
                        now_epoch_secs,
                        reply,
                    ));
                }
                if apply_reply(unlocked, provider, answer) {
                    updated += 1;
                }
            }
            proof {
                let longer = replies.push(reply);
                lemma_replies_taken(before, now_epoch_secs, replies, reply, at as nat);
                assert forall|i: int|
                    0 <= i < at + 1 && due(before, before.order[i], now_epoch_secs) implies
                    replies_with(
                    self.refresher(),
                    before.order[i],
                    before.secrets[before.order[i]].refresh_token,
                    now_epoch_secs,
                    #[trigger] longer[i],
                ) by {
                    if i < at {
                        assert(longer[i] == replies[i]);
                    }
                }
                replies = longer;
            }
            at += 1;
        }
        assert(refreshed(
            self.refresher(),
            before,
            now_epoch_secs,
            replies,
            unlocked@,
            Ok::<usize, VaultError>(updated),
        ));
        Ok(updated)
    }
}

/// Puts the tokens of a reply in place of those of `provider`, and says
/// whether there were any.
pub fn apply_reply(
    unlocked: &mut UnlockedVault,
    provider: &str,
    reply: Option<RefreshResult>,
) -> (renewed: bool)
    ensures
        final(unlocked)@ == with_reply(old(unlocked)@, provider@, reply_view(reply)),
        renewed == reply is Some,
{
    match reply {
        Some(tokens) => {
            let scopes = match unlocked.metadata_for(provider) {
                Some(entry) => copy_texts(&entry.scopes),
                None => Vec::new(),
            };
            assert(!unlocked@.metadata.dom().contains(provider@) ==> views(scopes@) =~= Seq::<
                Seq<char>,
            >::empty());
            unlocked.upsert_token(
                provider,
                scopes,
                tokens.expires_at_epoch_secs,
                tokens.access_token.as_str(),
                tokens.refresh_token.as_str(),
            );
            true
        },
        None => false,
    }
}

/// Copies of `names`.
fn copy_names(names: Vec<&str>) -> (copies: Vec<String>)
    ensures
        views(copies@) == views(names@),
{
    let mut copies: Vec<String> = Vec::new();
    let mut at: usize = 0;
    assert(views(copies@) =~= views(names@).take(0));
    while at < names.len()
        invariant
            at <= names@.len(),
            views(copies@) == views(names@).take(at as int),
        decreases names@.len() - at,
    {
        let copy = names[at].to_owned();
        proof {
            lemma_views_push(copies@, copy);
            lemma_take_next(views(names@), at as int);
        }
        copies.push(copy);
        at += 1;
    }
    assert(views(names@).take(at as int) =~= views(names@));
    copies
}

/// A later reply has no part in what the earlier ones did.
proof fn lemma_replies_taken(
    unlocked: UnlockedView,
    now_epoch_secs: u64,
    replies: Seq<Option<RefreshView>>,
    reply: Option<RefreshView>,
    count: nat,
)
    requires
        count <= replies.len(),
    ensures
        after_replies(unlocked, now_epoch_secs, replies.push(reply), count) == after_replies(
            unlocked,
            now_epoch_secs,
            replies,
            count,
        ),
        renewed(unlocked, now_epoch_secs, replies.push(reply), count) == renewed(
            unlocked,
            now_epoch_secs,
            replies,
            count,
        ),
    decreases count,
{
    if count > 0 {
        lemma_replies_taken(unlocked, now_epoch_secs, replies, reply, (count - 1) as nat);
    }
}

} // verus!
