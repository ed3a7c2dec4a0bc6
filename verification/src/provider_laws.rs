//! What holds of every refresh of an unlocked vault.
use crate::error::{Failure, VaultError};
use crate::model::SecretView;
use crate::providers::{
    after_replies, answered, due, orphaned, refreshed, renewed, replies_with, reply_view,
    session_tokens, with_reply, OAuthRefresher, RefreshResult, RefreshView,
};
use crate::unlocked::UnlockedView;
use vstd::prelude::*;

verus! {

/// What a refresh makes of one provider.
proof fn lemma_provider_after(
    unlocked: UnlockedView,
    now_epoch_secs: u64,
    replies: Seq<Option<RefreshView>>,
    count: nat,
    provider: Seq<char>,
)
    requires
        unlocked.valid(),
        count <= unlocked.order.len(),
    ensures
        ({
            let after = after_replies(unlocked, now_epoch_secs, replies, count);
            &&& after.valid()
            &&& after.key == unlocked.key
            &&& after.order == unlocked.order
            &&& after.metadata.dom() == unlocked.metadata.dom()
            &&& unlocked.metadata.dom().contains(provider) ==> after.metadata[provider].scopes
                == unlocked.metadata[provider].scopes
            &&& (forall|i: int|
                0 <= i < count && due(unlocked, unlocked.order[i], now_epoch_secs)
                    && #[trigger] unlocked.order[i] == provider ==> replies[i] is None) ==> {
                &&& after.metadata[provider] == unlocked.metadata[provider]
                &&& after.secrets.dom().contains(provider) == unlocked.secrets.dom().contains(
                    provider,
                )
                &&& after.secrets[provider] == unlocked.secrets[provider]
            }
        }),
    decreases count,
{
    if count > 0 {
        let at = count - 1;
        let name = unlocked.order[at];
        let before = after_replies(unlocked, now_epoch_secs, replies, at as nat);
        let after = after_replies(unlocked, now_epoch_secs, replies, count);
        lemma_provider_after(unlocked, now_epoch_secs, replies, at as nat, provider);
        assert(unlocked.order.contains(name));
        assert(before.metadata.dom().contains(name));
        assert(after.metadata.dom() =~= before.metadata.dom());
    }
}

/// A refresh keeps the master key, the providers and the scopes of every
/// token, and leaves alone every provider whose token has not expired.
pub proof fn law_refresh_keeps_what_is_fresh<R: OAuthRefresher>(
    refresher: R,
    unlocked: UnlockedView,
    now_epoch_secs: u64,
    replies: Seq<Option<RefreshView>>,
    after: UnlockedView,
    updated: Result<usize, VaultError>,
    provider: Seq<char>,
)
    requires
        unlocked.valid(),
        refreshed(refresher, unlocked, now_epoch_secs, replies, after, updated),
    ensures
        after.valid(),
        after.key == unlocked.key,
        after.order == unlocked.order,
        after.metadata.dom() == unlocked.metadata.dom(),
        unlocked.metadata.dom().contains(provider) ==> after.metadata[provider].scopes
            == unlocked.metadata[provider].scopes,
        !due(unlocked, provider, now_epoch_secs) ==> {
            &&& after.metadata[provider] == unlocked.metadata[provider]
            &&& after.secrets.dom().contains(provider) == unlocked.secrets.dom().contains(provider)
            &&& after.secrets[provider] == unlocked.secrets[provider]
        },
{
    let count = choose|count: nat| #[trigger]
        answered(refresher, unlocked, now_epoch_secs, replies, count) && count
            <= unlocked.order.len() && after == after_replies(
            unlocked,
            now_epoch_secs,
            replies,
            count,
        );
    lemma_provider_after(unlocked, now_epoch_secs, replies, count, provider);
}

/// A refresh fails exactly if some provider has an expired token in its
/// metadata and no token in the vault.
pub proof fn law_refresh_fails_on_orphans_only<R: OAuthRefresher>(
    refresher: R,
    unlocked: UnlockedView,
    now_epoch_secs: u64,
    replies: Seq<Option<RefreshView>>,
    after: UnlockedView,
    updated: Result<usize, VaultError>,
)
    requires
        refreshed(refresher, unlocked, now_epoch_secs, replies, after, updated),
    ensures
        updated is Err <==> exists|i: int|
            0 <= i < unlocked.order.len() && orphaned(
                unlocked,
                #[trigger] unlocked.order[i],
                now_epoch_secs,
            ),
{
}

/// Where no token has expired, a refresh changes nothing.
pub proof fn law_refresh_without_expired_tokens<R: OAuthRefresher>(
    refresher: R,
    unlocked: UnlockedView,
    now_epoch_secs: u64,
    replies: Seq<Option<RefreshView>>,
    after: UnlockedView,
    updated: Result<usize, VaultError>,
)
    requires
        refreshed(refresher, unlocked, now_epoch_secs, replies, after, updated),
        forall|i: int|
            0 <= i < unlocked.order.len() ==> !due(
                unlocked,
                #[trigger] unlocked.order[i],
                now_epoch_secs,
            ),
    ensures
        after == unlocked,
        updated == Ok::<usize, VaultError>(0),
{
    let count = choose|count: nat| #[trigger]
        answered(refresher, unlocked, now_epoch_secs, replies, count) && count
            <= unlocked.order.len() && after == after_replies(
            unlocked,
            now_epoch_secs,
            replies,
            count,
        ) && (match updated {
            Ok(number) => count == unlocked.order.len() && number == renewed(
                unlocked,
                now_epoch_secs,
                replies,
                count,
            ),
            Err(_) => count < unlocked.order.len() && orphaned(
                unlocked,
                unlocked.order[count as int],
                now_epoch_secs,
            ),
        });
    lemma_nothing_due(unlocked, now_epoch_secs, replies, count);
}

/// Looking at providers none of which is due does nothing.
proof fn lemma_nothing_due(
    unlocked: UnlockedView,
    now_epoch_secs: u64,
    replies: Seq<Option<RefreshView>>,
    count: nat,
)
    requires
        count <= unlocked.order.len(),
        forall|i: int|
            0 <= i < unlocked.order.len() ==> !due(
                unlocked,
                #[trigger] unlocked.order[i],
                now_epoch_secs,
            ),
    ensures
        after_replies(unlocked, now_epoch_secs, replies, count) == unlocked,
        renewed(unlocked, now_epoch_secs, replies, count) == 0,
    decreases count,
{
    if count > 0 {
        lemma_nothing_due(unlocked, now_epoch_secs, replies, (count - 1) as nat);
    }
}

/// After a refresh that succeeds, a provider whose token had expired has the
/// tokens of its reply, and a session gives out the new access token; a
/// provider without a reply has what it had.
pub proof fn law_refresh_takes_the_replies<R: OAuthRefresher>(
    refresher: R,
    unlocked: UnlockedView,
    now_epoch_secs: u64,
    replies: Seq<Option<RefreshView>>,
    after: UnlockedView,
    updated: Result<usize, VaultError>,
    at: int,
)
    requires
        unlocked.valid(),
        refreshed(refresher, unlocked, now_epoch_secs, replies, after, updated),
        updated is Ok,
        0 <= at < unlocked.order.len(),
        due(unlocked, unlocked.order[at], now_epoch_secs),
    ensures
        match replies[at] {
            Some(tokens) => {
                &&& after.secrets.dom().contains(unlocked.order[at])
                &&& after.secrets[unlocked.order[at]] == (SecretView {
                    access_token: tokens.access_token,
                    refresh_token: tokens.refresh_token,
                })
                &&& after.metadata[unlocked.order[at]].expires_at_epoch_secs
                    == tokens.expires_at_epoch_secs
                &&& session_tokens(after).dom().contains(unlocked.order[at])
                &&& session_tokens(after)[unlocked.order[at]] == tokens.access_token
            },
            None => {
                &&& after.secrets[unlocked.order[at]] == unlocked.secrets[unlocked.order[at]]
                &&& after.metadata[unlocked.order[at]] == unlocked.metadata[unlocked.order[at]]
            },
        },
{
    let provider = unlocked.order[at];
    let count = unlocked.order.len();
    assert(after == after_replies(unlocked, now_epoch_secs, replies, count));
    lemma_provider_after(unlocked, now_epoch_secs, replies, count, provider);
    assert(unlocked.order.contains(provider));
    if replies[at] is Some {
        lemma_reply_stays(unlocked, now_epoch_secs, replies, count, at);
    } else {
        assert forall|i: int|
            0 <= i < count && due(unlocked, unlocked.order[i], now_epoch_secs)
                && #[trigger] unlocked.order[i] == provider implies replies[i] is None by {
            assert(i == at);
        }
    }
}

/// What a reply put in place stays there.
proof fn lemma_reply_stays(
    unlocked: UnlockedView,
    now_epoch_secs: u64,
    replies: Seq<Option<RefreshView>>,
    count: nat,
    at: int,
)
    requires
        unlocked.valid(),
        0 <= at < count <= unlocked.order.len(),
        due(unlocked, unlocked.order[at], now_epoch_secs),
        replies[at] is Some,
    ensures
        ({
            let after = after_replies(unlocked, now_epoch_secs, replies, count);
            let tokens = replies[at]->0;
            &&& after.secrets.dom().contains(unlocked.order[at])
            &&& after.secrets[unlocked.order[at]].access_token == tokens.access_token
            &&& after.secrets[unlocked.order[at]].refresh_token == tokens.refresh_token
            &&& after.metadata[unlocked.order[at]].expires_at_epoch_secs
                == tokens.expires_at_epoch_secs
        }),
    decreases count,
{
    let last = count - 1;
    if at < last {
        lemma_reply_stays(unlocked, now_epoch_secs, replies, last as nat, at);
        assert(unlocked.order[at] != unlocked.order[last]);
    }
}

/// A token is to be refreshed exactly if its metadata names an expiry that is
/// not after the present; it is an orphan if the vault then holds no token.
pub proof fn law_due_means_expired(
    unlocked: UnlockedView,
    provider: Seq<char>,
    now_epoch_secs: u64,
)
    ensures
        due(unlocked, provider, now_epoch_secs) <==> unlocked.metadata.dom().contains(provider) && (
        unlocked.metadata[provider].expires_at_epoch_secs matches Some(expires_at) && expires_at
            <= now_epoch_secs),
        orphaned(unlocked, provider, now_epoch_secs) <==> due(unlocked, provider, now_epoch_secs)
            && !unlocked.secrets.dom().contains(provider),
{
}

/// What is due stays due as time goes on, and a token without an expiry is
/// never due.
pub proof fn law_due_is_monotone(
    unlocked: UnlockedView,
    provider: Seq<char>,
    now_epoch_secs: u64,
    later_epoch_secs: u64,
)
    requires
        now_epoch_secs <= later_epoch_secs,
    ensures
        due(unlocked, provider, now_epoch_secs) ==> due(unlocked, provider, later_epoch_secs),
        unlocked.metadata[provider].expires_at_epoch_secs is None ==> !due(
            unlocked,
            provider,
            later_epoch_secs,
        ),
{
}

/// After a refresh that succeeds: a provider whose expiry is not after the
/// present was asked for with its own refresh token, and has the tokens and
/// the expiry of the answer, or what it had if there was no answer; every other
/// provider has what it had.
pub proof fn law_refresh_asks_for_what_has_expired<R: OAuthRefresher>(
    refresher: R,
    unlocked: UnlockedView,
    now_epoch_secs: u64,
    replies: Seq<Option<RefreshView>>,
    after: UnlockedView,
    updated: Result<usize, VaultError>,
    at: int,
)
    requires
        unlocked.valid(),
        refreshed(refresher, unlocked, now_epoch_secs, replies, after, updated),
        updated is Ok,
        0 <= at < unlocked.order.len(),
    ensures
        ({
            let provider = unlocked.order[at];
            let expired = unlocked.metadata[provider].expires_at_epoch_secs matches Some(
                expires_at,
            ) && expires_at <= now_epoch_secs;
            &&& expired ==> exists|name: &str, token: &str, answer: Option<RefreshResult>|
                #![trigger call_ensures(R::refresh, (&refresher, name, token, now_epoch_secs), answer)]
                name@ == provider && token@ == unlocked.secrets[provider].refresh_token
                    && call_ensures(
                    R::refresh,
                    (&refresher, name, token, now_epoch_secs),
                    answer,
                ) && match answer {
                    Some(tokens) => {
                        &&& after.secrets[provider].access_token == tokens.access_token@
                        &&& after.secrets[provider].refresh_token == tokens.refresh_token@
                        &&& after.metadata[provider].expires_at_epoch_secs
                            == tokens.expires_at_epoch_secs
                    },
                    None => after.secrets[provider] == unlocked.secrets[provider]
                        && after.metadata[provider] == unlocked.metadata[provider],
                }
            &&& !expired ==> after.secrets[provider] == unlocked.secrets[provider]
                && after.metadata[provider] == unlocked.metadata[provider]
                && after.secrets.dom().contains(provider) == unlocked.secrets.dom().contains(
                provider,
            )
            &&& after.metadata[provider].provider == provider
            &&& after.metadata[provider].scopes == unlocked.metadata[provider].scopes
        }),
{
    let provider = unlocked.order[at];
    let count = unlocked.order.len();
    assert(unlocked.order.contains(provider));
    assert(after == after_replies(unlocked, now_epoch_secs, replies, count));
    assert(answered(refresher, unlocked, now_epoch_secs, replies, count));
    law_due_means_expired(unlocked, provider, now_epoch_secs);
    law_refresh_keeps_what_is_fresh(
        refresher,
        unlocked,
        now_epoch_secs,
        replies,
        after,
        updated,
        provider,
    );
    if due(unlocked, provider, now_epoch_secs) {
        law_refresh_takes_the_replies(
            refresher,
            unlocked,
            now_epoch_secs,
            replies,
            after,
            updated,
            at,
        );
        assert(replies_with(
            refresher,
            provider,
            unlocked.secrets[provider].refresh_token,
            now_epoch_secs,
            replies[at],
        ));
    }
}

/// The number that a refresh reports is the number of expired tokens for which
/// an answer came.
pub proof fn law_refresh_counts_new_tokens<R: OAuthRefresher>(
    refresher: R,
    unlocked: UnlockedView,
    now_epoch_secs: u64,
    replies: Seq<Option<RefreshView>>,
    after: UnlockedView,
    updated: Result<usize, VaultError>,
)
    requires
        unlocked.valid(),
        refreshed(refresher, unlocked, now_epoch_secs, replies, after, updated),
        updated is Ok,
    ensures
        updated->Ok_0 == Seq::new(
            unlocked.order.len(),
            |i: int|
                (unlocked.metadata[unlocked.order[i]].expires_at_epoch_secs matches Some(expires_at)
                    && expires_at <= now_epoch_secs) && replies[i] is Some,
        ).filter(|new: bool| new).len(),
{
    let count = unlocked.order.len();
    assert(updated->Ok_0 == renewed(unlocked, now_epoch_secs, replies, count));
    lemma_renewed_counts(unlocked, now_epoch_secs, replies, count);
}

/// How many of the first providers got new tokens.
proof fn lemma_renewed_counts(
    unlocked: UnlockedView,
    now_epoch_secs: u64,
    replies: Seq<Option<RefreshView>>,
    count: nat,
)
    requires
        unlocked.valid(),
        count <= unlocked.order.len(),
    ensures
        renewed(unlocked, now_epoch_secs, replies, count) == Seq::new(
            count,
            |i: int|
                (unlocked.metadata[unlocked.order[i]].expires_at_epoch_secs matches Some(expires_at)
                    && expires_at <= now_epoch_secs) && replies[i] is Some,
        ).filter(|new: bool| new).len(),
    decreases count,
{
    reveal(Seq::filter);
    let is_new = |i: int|
        (unlocked.metadata[unlocked.order[i]].expires_at_epoch_secs matches Some(expires_at)
            && expires_at <= now_epoch_secs) && replies[i] is Some;
    let all = Seq::new(count, is_new);
    if count > 0 {
        let fewer = (count - 1) as nat;
        lemma_renewed_counts(unlocked, now_epoch_secs, replies, fewer);
        assert(all.drop_last() =~= Seq::new(fewer, is_new));
        assert(unlocked.order.contains(unlocked.order[count - 1]));
        law_due_means_expired(unlocked, unlocked.order[count - 1], now_epoch_secs);
    }
}

/// A refresh that fails says that metadata has no token, at the first provider
/// of which that is so; that provider and all after it have what they had.
pub proof fn law_refresh_stops_at_the_first_orphan<R: OAuthRefresher>(
    refresher: R,
    unlocked: UnlockedView,
    now_epoch_secs: u64,
    replies: Seq<Option<RefreshView>>,
    after: UnlockedView,
    updated: Result<usize, VaultError>,
)
    requires
        unlocked.valid(),
        refreshed(refresher, unlocked, now_epoch_secs, replies, after, updated),
        updated is Err,
    ensures
        updated->Err_0@ == Failure::InvalidData("metadata exists without matching secret"@),
        exists|first: int|
            0 <= first < unlocked.order.len() && (
            unlocked.metadata[#[trigger] unlocked.order[first]].expires_at_epoch_secs matches Some(
                expires_at,
            ) && expires_at <= now_epoch_secs) && !unlocked.secrets.dom().contains(
                unlocked.order[first],
            ) && stopped_at(unlocked, now_epoch_secs, replies, after, first),
{
    let count = choose|count: nat| #[trigger]
        answered(refresher, unlocked, now_epoch_secs, replies, count) && count
            < unlocked.order.len() && after == after_replies(
            unlocked,
            now_epoch_secs,
            replies,
            count,
        ) && orphaned(unlocked, unlocked.order[count as int], now_epoch_secs) && (forall|i: int|
            0 <= i < count ==> !orphaned(unlocked, #[trigger] unlocked.order[i], now_epoch_secs));
    let first = count as int;
    law_due_means_expired(unlocked, unlocked.order[first], now_epoch_secs);
    assert forall|i: int| 0 <= i < unlocked.order.len() implies #[trigger] settled_at(
        unlocked,
        now_epoch_secs,
        replies,
        after,
        first,
        unlocked.order[i],
        i,
    ) by {
        let provider = unlocked.order[i];
        assert(unlocked.order.contains(provider));
        law_due_means_expired(unlocked, provider, now_epoch_secs);
        lemma_provider_after(unlocked, now_epoch_secs, replies, count, provider);
        if i < first && due(unlocked, provider, now_epoch_secs) && replies[i] is Some {
            lemma_reply_stays(unlocked, now_epoch_secs, replies, count, i);
        } else {
            assert forall|k: int|
                0 <= k < count && due(unlocked, unlocked.order[k], now_epoch_secs)
                    && #[trigger] unlocked.order[k] == provider implies replies[k] is None by {
                assert(k == i);
            }
        }
        assert(!(i < first && orphaned(unlocked, provider, now_epoch_secs)));
    }
}

/// Whether a refresh stopped at `first`: before it every provider with an
/// expired token has a token and has what came back for it, and from it on
/// every provider has what it had.
pub open spec fn stopped_at(
    unlocked: UnlockedView,
    now_epoch_secs: u64,
    replies: Seq<Option<RefreshView>>,
    after: UnlockedView,
    first: int,
) -> bool {
    forall|i: int|
        0 <= i < unlocked.order.len() ==> #[trigger] settled_at(
            unlocked,
            now_epoch_secs,
            replies,
            after,
            first,
            unlocked.order[i],
            i,
        )
}

/// What a refresh that stopped at `first` made of the provider at `at`.
pub open spec fn settled_at(
    unlocked: UnlockedView,
    now_epoch_secs: u64,
    replies: Seq<Option<RefreshView>>,
    after: UnlockedView,
    first: int,
    provider: Seq<char>,
    at: int,
) -> bool {
    let expired = unlocked.metadata[provider].expires_at_epoch_secs matches Some(expires_at)
        && expires_at <= now_epoch_secs;
    if at < first && expired {
        &&& unlocked.secrets.dom().contains(provider)
        &&& match replies[at] {
            Some(tokens) => {
                &&& after.secrets[provider].access_token == tokens.access_token
                &&& after.secrets[provider].refresh_token == tokens.refresh_token
                &&& after.metadata[provider].expires_at_epoch_secs == tokens.expires_at_epoch_secs
            },
            None => after.secrets[provider] == unlocked.secrets[provider]
                && after.metadata[provider] == unlocked.metadata[provider],
        }
    } else {
        &&& after.secrets[provider] == unlocked.secrets[provider]
        &&& after.metadata[provider] == unlocked.metadata[provider]
    }
}

/// An answer puts its tokens and its expiry in place of those of the provider,
/// keeps the scopes and every other provider, and without one nothing changes.
pub proof fn law_reply_replaces_one_token(
    unlocked: UnlockedView,
    provider: Seq<char>,
    tokens: RefreshView,
    other: Seq<char>,
)
    ensures
        with_reply(unlocked, provider, None) == unlocked,
        ({
            let after = with_reply(unlocked, provider, Some(tokens));
            &&& after.key == unlocked.key
            &&& after.metadata.dom() == unlocked.metadata.dom().insert(provider)
            &&& after.secrets.dom() == unlocked.secrets.dom().insert(provider)
            &&& after.secrets[provider].access_token == tokens.access_token
            &&& after.secrets[provider].refresh_token == tokens.refresh_token
            &&& after.metadata[provider].provider == provider
            &&& after.metadata[provider].expires_at_epoch_secs == tokens.expires_at_epoch_secs
            &&& unlocked.metadata.dom().contains(provider) ==> after.metadata[provider].scopes
                == unlocked.metadata[provider].scopes && after.order == unlocked.order
            &&& !unlocked.metadata.dom().contains(provider) ==> after.metadata[provider].scopes
                == Seq::<Seq<char>>::empty() && after.order == unlocked.order.push(provider)
            &&& other != provider ==> after.metadata[other] == unlocked.metadata[other]
                && after.secrets[other] == unlocked.secrets[other]
        }),
{
}

/// A session has the access token of every provider that has both metadata and
/// tokens, and of no other.
pub proof fn law_session_has_the_access_tokens(unlocked: UnlockedView, provider: Seq<char>)
    ensures
        session_tokens(unlocked).dom().contains(provider) <==> unlocked.metadata.dom().contains(
            provider,
        ) && unlocked.secrets.dom().contains(provider),
        session_tokens(unlocked).dom().contains(provider) ==> session_tokens(unlocked)[provider]
            == unlocked.secrets[provider].access_token,
{
}

/// New tokens are seen as they are, field by field.
pub proof fn law_new_tokens_as_seen(tokens: RefreshResult)
    ensures
        tokens@.access_token == tokens.access_token@,
        tokens@.refresh_token == tokens.refresh_token@,
        tokens@.expires_at_epoch_secs == tokens.expires_at_epoch_secs,
        reply_view(Some(tokens)) == Some(tokens@),
        reply_view(None) is None,
{
}

/// Whether a refresh succeeds or fails, every provider that it reached and
/// whose expiry is not after the present was asked for with its own refresh
/// token at that very moment, and what came back is the answer.
pub proof fn law_every_expired_provider_is_asked<R: OAuthRefresher>(
    refresher: R,
    unlocked: UnlockedView,
    now_epoch_secs: u64,
    replies: Seq<Option<RefreshView>>,
    after: UnlockedView,
    updated: Result<usize, VaultError>,
    at: int,
)
    requires
        unlocked.valid(),
        refreshed(refresher, unlocked, now_epoch_secs, replies, after, updated),
        0 <= at < unlocked.order.len(),
        unlocked.metadata[unlocked.order[at]].expires_at_epoch_secs matches Some(expires_at)
            && expires_at <= now_epoch_secs,
        forall|i: int|
            0 <= i <= at ==> unlocked.secrets.dom().contains(#[trigger] unlocked.order[i]),
    ensures
        exists|name: &str, token: &str, answer: Option<RefreshResult>|
            #![trigger call_ensures(R::refresh, (&refresher, name, token, now_epoch_secs), answer)]
            name@ == unlocked.order[at] && token@
                == unlocked.secrets[unlocked.order[at]].refresh_token && call_ensures(
                R::refresh,
                (&refresher, name, token, now_epoch_secs),
                answer,
            ) && match answer {
                Some(tokens) => replies[at] == Some(
                    RefreshView {
                        access_token: tokens.access_token@,
                        refresh_token: tokens.refresh_token@,
                        expires_at_epoch_secs: tokens.expires_at_epoch_secs,
                    },
                ),
                None => replies[at] is None,
            },
{
    let provider = unlocked.order[at];
    assert(unlocked.order.contains(provider));
    law_due_means_expired(unlocked, provider, now_epoch_secs);
    let count = choose|count: nat| #[trigger]
        answered(refresher, unlocked, now_epoch_secs, replies, count) && count
            <= unlocked.order.len() && (count < unlocked.order.len() ==> orphaned(
            unlocked,
            unlocked.order[count as int],
            now_epoch_secs,
        ));
    if count <= at {
        assert(unlocked.secrets.dom().contains(unlocked.order[count as int]));
        law_due_means_expired(unlocked, unlocked.order[count as int], now_epoch_secs);
    }
    assert(replies_with(
        refresher,
        provider,
        unlocked.secrets[provider].refresh_token,
        now_epoch_secs,
        replies[at],
    ));
}

} // verus!
