//! What holds of every manager, whatever the clock shows.
use crate::account_laws::{law_password_opens, represents, Account};
use crate::auth::{
    attempted, auth_outcome, verdict, AuthError, AuthFailure, AuthView, LockView, UnlockMethod,
};
use crate::error::VaultError;
use crate::model::VaultPayload;
use crate::span::{excess_of, sum_of, Span};
use crate::unlocked::UnlockedVault;
use crate::vault::{unlocks_with_password, Vault};
use crate::vault_laws::inverse;
use vstd::prelude::*;

verus! {

/// The manager after failed attempts at the moments `times`, one by one.
pub open spec fn after_failures(manager: AuthView, times: Seq<nat>) -> AuthView
    decreases times.len(),
{
    if times.len() == 0 {
        manager
    } else {
        after_failures(manager, times.drop_last()).failed(times.last())
    }
}

/// How many attempts in a row may fail before a cooldown; at least one can.
pub open spec fn attempts_allowed(manager: AuthView) -> nat {
    if manager.max_failed_attempts == 0 {
        1
    } else {
        manager.max_failed_attempts
    }
}

/// Every operation keeps a manager valid.
pub proof fn law_operations_keep_validity(
    manager: AuthView,
    opening: Result<UnlockedVault, VaultError>,
    text: Seq<char>,
    now: nat,
)
    requires
        manager.valid(),
    ensures
        manager.failed(now).valid(),
        manager.settled(opening, now).valid(),
        manager.locked(text).valid(),
        manager.active(now).valid(),
        manager.logged(text).valid(),
{
}

/// No operation starts the clock anew, so that moments can be compared.
pub proof fn law_clock_is_never_restarted(
    manager: AuthView,
    opening: Result<UnlockedVault, VaultError>,
    text: Seq<char>,
    now: nat,
)
    ensures
        manager.failed(now).clock == manager.clock,
        manager.settled(opening, now).clock == manager.clock,
        manager.locked(text).clock == manager.clock,
        manager.active(now).clock == manager.clock,
        manager.logged(text).clock == manager.clock,
{
}

/// Failed attempts count up, and leave a recorded cooldown as it is, until as
/// many have failed as are allowed.
pub proof fn law_failures_count_up(
    manager: AuthView,
    failed_attempts: nat,
    cooldown_until: Option<nat>,
    times: Seq<nat>,
)
    requires
        manager.state == (LockView::Locked { failed_attempts, cooldown_until }),
        failed_attempts + times.len() < attempts_allowed(manager),
    ensures
        after_failures(manager, times) == (AuthView {
            state: LockView::Locked {
                failed_attempts: failed_attempts + times.len(),
                cooldown_until,
            },
            ..manager
        }),
    decreases times.len(),
{
    if times.len() > 0 {
        law_failures_count_up(manager, failed_attempts, cooldown_until, times.drop_last());
    }
}

/// The last failed attempt that is allowed brings a cooldown, which runs from
/// that attempt whatever cooldown was recorded, and the count starts anew.
pub proof fn law_failures_bring_cooldown(
    manager: AuthView,
    failed_attempts: nat,
    cooldown_until: Option<nat>,
    times: Seq<nat>,
)
    requires
        manager.state == (LockView::Locked { failed_attempts, cooldown_until }),
        failed_attempts + times.len() == attempts_allowed(manager),
        times.len() > 0,
    ensures
        after_failures(manager, times) == (AuthView {
            state: LockView::Locked {
                failed_attempts: 0,
                cooldown_until: Some(sum_of(times.last(), manager.cooldown)),
            },
            ..manager
        }),
{
    law_failures_count_up(manager, failed_attempts, cooldown_until, times.drop_last());
}

/// After as many failed attempts as are allowed, every attempt is refused until
/// the cooldown is over, with any password and any vault. It is told how long
/// to wait and leaves no trace.
pub proof fn law_rate_limit_after_failures<D: Fn(&[u8]) -> Result<VaultPayload, VaultError>>(
    manager: AuthView,
    failed_attempts: nat,
    cooldown_until: Option<nat>,
    times: Seq<nat>,
    vault: Vault,
    password: Seq<char>,
    decode: D,
    now: nat,
    later: nat,
    after: AuthView,
    result: Result<(), AuthFailure>,
)
    requires
        manager.state == (LockView::Locked { failed_attempts, cooldown_until }),
        failed_attempts + times.len() == attempts_allowed(manager),
        times.len() > 0,
        now < sum_of(times.last(), manager.cooldown),
        attempted(
            after_failures(manager, times),
            vault,
            password,
            decode,
            now,
            later,
            after,
            result,
        ),
    ensures
        after == after_failures(manager, times),
        result == Err::<(), AuthFailure>(
            AuthFailure::RateLimited {
                retry_after: excess_of(sum_of(times.last(), manager.cooldown), now),
            },
        ),
{
    law_failures_bring_cooldown(manager, failed_attempts, cooldown_until, times);
}

/// An attempt is refused for its rate exactly while a cooldown lasts; else the
/// vault alone decides, and a vault that opens is open from then on.
pub proof fn law_vault_decides_after_cooldown<D: Fn(&[u8]) -> Result<VaultPayload, VaultError>>(
    manager: AuthView,
    vault: Vault,
    password: Seq<char>,
    decode: D,
    now: nat,
    later: nat,
    after: AuthView,
    result: Result<(), AuthFailure>,
)
    requires
        attempted(manager, vault, password, decode, now, later, after, result),
    ensures
        manager.remaining(now) is Some <==> (result matches Err(failure) && failure is RateLimited),
        manager.remaining(now) is None ==> exists|opening: Result<UnlockedVault, VaultError>|
            #[trigger] unlocks_with_password(vault@.disk, password, decode, opening) && result
                == verdict(opening),
        result is Ok ==> (after.state matches LockView::Unlocked { method, last_activity, .. } && method
            == UnlockMethod::Password && last_activity == later),
        manager.remaining(now) is None && result is Err ==> after.state is Locked,
{
}

/// The log only grows: an attempt, a lock and activity leave what is there.
pub proof fn law_log_only_grows<D: Fn(&[u8]) -> Result<VaultPayload, VaultError>>(
    manager: AuthView,
    vault: Vault,
    password: Seq<char>,
    decode: D,
    now: nat,
    later: nat,
    after: AuthView,
    result: Result<(), AuthFailure>,
    reason: Seq<char>,
)
    requires
        attempted(manager, vault, password, decode, now, later, after, result),
    ensures
        manager.audit_log.is_prefix_of(after.audit_log),
        after.audit_log.len() <= manager.audit_log.len() + 1,
        manager.audit_log.is_prefix_of(manager.locked(reason).audit_log),
        manager.active(now).audit_log == manager.audit_log,
        manager.logged(reason).audit_log == manager.audit_log.push(reason),
{
}

/// A lock forgets failed attempts and lifts a cooldown.
pub proof fn law_lock_forgets(manager: AuthView, reason: Seq<char>, now: nat)
    ensures
        manager.locked(reason).state == (LockView::Locked {
            failed_attempts: 0,
            cooldown_until: None,
        }),
        manager.locked(reason).remaining(now) is None,
        !manager.locked(reason).stale(now),
{
}

/// After activity an open vault asks for a lock exactly once it has been left
/// alone for the timeout.
pub proof fn law_activity_postpones_lock(manager: AuthView, active_at: nat, now: nat)
    ensures
        manager.active(active_at).stale(now) <==> manager.state is Unlocked && excess_of(
            now,
            active_at,
        ) >= manager.inactivity_timeout,
{
}

/// Whenever an attempt succeeds, the vault that the manager then gives out is
/// what the vault opened to with that password, and is open by password from
/// the end of the attempt on; the success is logged, and nothing else changes.
pub proof fn law_success_gives_out_the_opened_vault<
    D: Fn(&[u8]) -> Result<VaultPayload, VaultError>,
>(
    manager: AuthView,
    vault: Vault,
    password: Seq<char>,
    decode: D,
    now: nat,
    later: nat,
    after: AuthView,
)
    requires
        attempted(manager, vault, password, decode, now, later, after, Ok(())),
    ensures
        exists|opened: UnlockedVault|
            #![trigger opened@]
            unlocks_with_password(vault@.disk, password, decode, Ok(opened)) && after.state == (
            LockView::Unlocked {
                method: UnlockMethod::Password,
                unlocked: opened@,
                last_activity: later,
            }),
        after.audit_log == manager.audit_log.push("unlock_password_success"@),
        after.clock == manager.clock,
        after.max_failed_attempts == manager.max_failed_attempts,
        after.cooldown == manager.cooldown,
        after.inactivity_timeout == manager.inactivity_timeout,
{
    let opening = choose|opening: Result<UnlockedVault, VaultError>| #[trigger]
        unlocks_with_password(vault@.disk, password, decode, opening) && after
            == manager.settled(opening, later) && Ok::<(), AuthFailure>(()) == verdict(opening);
    let opened = opening->Ok_0;
    assert(unlocks_with_password(vault@.disk, password, decode, Ok(opened)));
    assert(opened@ == opened@);
}

/// Whenever an attempt with the password of an account succeeds, the vault that
/// the manager then gives out holds the key, the metadata and the tokens that
/// were last committed; and outside a cooldown it does succeed.
pub proof fn law_password_opens_the_session<E, D>(
    manager: AuthView,
    vault: Vault,
    account: Account,
    password: Seq<char>,
    encode: E,
    decode: D,
    now: nat,
    later: nat,
    after: AuthView,
    result: Result<(), AuthFailure>,
) where
    E: Fn(&VaultPayload) -> Result<Vec<u8>, VaultError>,
    D: Fn(&[u8]) -> Result<VaultPayload, VaultError>,

    requires
        inverse(encode, decode),
        represents(vault@.disk, account, encode),
        account.password == Some(password),
        manager.remaining(now) is None,
        attempted(manager, vault, password, decode, now, later, after, result),
    ensures
        result is Ok,
        after.state matches LockView::Unlocked { unlocked, .. } && unlocked.key == account.key
            && unlocked.metadata == account.metadata && unlocked.secrets == account.secrets,
{
    let opening = choose|opening: Result<UnlockedVault, VaultError>| #[trigger]
        unlocks_with_password(vault@.disk, password, decode, opening) && after
            == manager.settled(opening, later) && result == verdict(opening);
    law_password_opens(vault@.disk, account, encode, decode, password, opening);
}

/// Whenever an attempt fails, it was refused for its rate and left no trace, or
/// the vault did not open with that password: then the vault's failure is the
/// answer, the failure is logged, and the attempt counts as failed.
pub proof fn law_failure_is_the_vaults<D: Fn(&[u8]) -> Result<VaultPayload, VaultError>>(
    manager: AuthView,
    vault: Vault,
    password: Seq<char>,
    decode: D,
    now: nat,
    later: nat,
    after: AuthView,
    failure: AuthFailure,
)
    requires
        attempted(manager, vault, password, decode, now, later, after, Err(failure)),
    ensures
        match manager.state {
            LockView::Locked { cooldown_until: Some(until), .. } => now < until,
            _ => false,
        } ==> after == manager && failure == (AuthFailure::RateLimited {
            retry_after: (manager.state->cooldown_until->0 - now) as nat,
        }),
        !(match manager.state {
            LockView::Locked { cooldown_until: Some(until), .. } => now < until,
            _ => false,
        }) ==> {
            &&& exists|err: VaultError|
                #![trigger err@]
                unlocks_with_password(vault@.disk, password, decode, Err(err)) && failure
                    == AuthFailure::Vault(err@)
            &&& after.audit_log == manager.audit_log.push("unlock_password_failure"@)
            &&& after.state == manager.failed(later).state
            &&& after.clock == manager.clock
            &&& after.max_failed_attempts == manager.max_failed_attempts
            &&& after.cooldown == manager.cooldown
            &&& after.inactivity_timeout == manager.inactivity_timeout
        },
{
    if manager.remaining(now) is None {
        let opening = choose|opening: Result<UnlockedVault, VaultError>| #[trigger]
            unlocks_with_password(vault@.disk, password, decode, opening) && after
                == manager.settled(opening, later) && Err::<(), AuthFailure>(failure) == verdict(
                opening,
            );
        let err = opening->Err_0;
        assert(unlocks_with_password(vault@.disk, password, decode, Err(err)));
        assert(err@ == err@);
    }
}

/// A failed attempt locks the vault. Counted from one that is open, or from one
/// that is locked, it brings a cooldown from its moment on exactly if as many
/// have failed as are allowed, and else counts one more and leaves a recorded
/// cooldown as it is.
pub proof fn law_failed_attempt_counts(manager: AuthView, now: nat)
    ensures
        ({
            let count: nat = match manager.state {
                LockView::Locked { failed_attempts, .. } => failed_attempts,
                LockView::Unlocked { .. } => 0,
            };
            let recorded: Option<nat> = match manager.state {
                LockView::Locked { cooldown_until, .. } => cooldown_until,
                LockView::Unlocked { .. } => None,
            };
            &&& count + 1 >= manager.max_failed_attempts ==> manager.failed(now) == (AuthView {
                state: LockView::Locked {
                    failed_attempts: 0,
                    cooldown_until: Some(sum_of(now, manager.cooldown)),
                },
                ..manager
            })
            &&& count + 1 < manager.max_failed_attempts ==> manager.failed(now) == (AuthView {
                state: LockView::Locked {
                    failed_attempts: count + 1,
                    cooldown_until: recorded,
                },
                ..manager
            })
        }),
{
}

/// A locked vault with a recorded cooldown refuses attempts until it ends, for
/// as long as is left; any other vault refuses none for their rate.
pub proof fn law_cooldown_lasts_until_its_end(manager: AuthView, now: nat)
    ensures
        match manager.state {
            LockView::Locked { cooldown_until: Some(until), .. } => {
                &&& now < until ==> (manager.remaining(now) matches Some(left) && now + left
                    == until)
                &&& now >= until ==> manager.remaining(now) is None
            },
            LockView::Locked { cooldown_until: None, .. } => manager.remaining(now) is None,
            LockView::Unlocked { .. } => manager.remaining(now) is None,
        },
{
}

/// An open vault asks for a lock exactly once the timeout has passed since the
/// last activity; a locked one never does.
pub proof fn law_idle_vaults_ask_for_a_lock(manager: AuthView, now: nat)
    ensures
        match manager.state {
            LockView::Unlocked { last_activity, .. } => {
                &&& now >= last_activity ==> (manager.stale(now) <==> now >= last_activity
                    + manager.inactivity_timeout)
                &&& now < last_activity ==> (manager.stale(now) <==> manager.inactivity_timeout
                    == 0)
            },
            LockView::Locked { .. } => !manager.stale(now),
        },
{
}

/// Activity moves the last activity of an open vault to its moment, and changes
/// nothing else; a locked vault it leaves as it is.
pub proof fn law_activity_is_noted(manager: AuthView, now: nat)
    ensures
        match manager.state {
            LockView::Unlocked { method, unlocked, .. } => manager.active(now) == (AuthView {
                state: LockView::Unlocked { method, unlocked, last_activity: now },
                ..manager
            }),
            LockView::Locked { .. } => manager.active(now) == manager,
        },
{
}

/// A lock logs its reason and changes nothing but the state.
pub proof fn law_lock_is_logged(manager: AuthView, reason: Seq<char>)
    ensures
        manager.locked(reason) == (AuthView {
            state: LockView::Locked { failed_attempts: 0, cooldown_until: None },
            audit_log: manager.audit_log.push("locked:"@ + reason),
            ..manager
        }),
        manager.logged(reason) == (AuthView {
            audit_log: manager.audit_log.push(reason),
            ..manager
        }),
{
}

/// An error says what went wrong: how long to wait, or the vault's failure.
pub proof fn law_auth_errors_as_seen(retry_after: Span, err: VaultError)
    ensures
        (AuthError::RateLimited { retry_after })@ == (AuthFailure::RateLimited {
            retry_after: retry_after@,
        }),
        AuthError::Vault(err)@ == AuthFailure::Vault(err@),
        auth_outcome(Ok(())) == Ok::<(), AuthFailure>(()),
        auth_outcome(Err(AuthError::Vault(err))) == Err::<(), AuthFailure>(
            AuthFailure::Vault(err@),
        ),
        auth_outcome(Err(AuthError::RateLimited { retry_after })) == Err::<(), AuthFailure>(
            AuthFailure::RateLimited { retry_after: retry_after@ },
        ),
        verdict(Err(err)) == Err::<(), AuthFailure>(AuthFailure::Vault(err@)),
{
}

/// A manager is valid exactly if it is open, has seen no failed attempt, or
/// fewer than bring a cooldown.
pub proof fn law_valid_managers(manager: AuthView)
    ensures
        manager.valid() <==> match manager.state {
            LockView::Locked { failed_attempts, .. } => failed_attempts == 0 || failed_attempts
                < manager.max_failed_attempts,
            LockView::Unlocked { .. } => true,
        },
{
}

/// The end of an attempt gives the session the very vault that was opened, or
/// counts the failure; either is logged.
pub proof fn law_end_of_an_attempt(
    manager: AuthView,
    opened: UnlockedVault,
    err: VaultError,
    now: nat,
)
    ensures
        manager.settled(Ok(opened), now).state == (LockView::Unlocked {
            method: UnlockMethod::Password,
            unlocked: opened@,
            last_activity: now,
        }),
        manager.settled(Ok(opened), now).audit_log == manager.audit_log.push(
            "unlock_password_success"@,
        ),
        verdict(Ok(opened)) == Ok::<(), AuthFailure>(()),
        manager.settled(Err(err), now).state == manager.failed(now).state,
        manager.settled(Err(err), now).audit_log == manager.audit_log.push(
            "unlock_password_failure"@,
        ),
{
}

} // verus!
