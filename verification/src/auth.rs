//! Locking and unlocking a vault: failed attempts bring a cooldown, and
//! inactivity asks for a lock.
use crate::error::{shows, Failure, VaultError};
use crate::model::VaultPayload;
use crate::span::{excess_of, span_view, sum_of, text_of, Span, NANOS_PER_SEC};
use crate::text::{lemma_views_push, views};
use crate::unlocked::{UnlockedVault, UnlockedView};
use crate::vault::{unlocks_with_password, Vault};
use std::time::Instant;
use vstd::prelude::*;
use vstd::std_specs::convert::FromSpecImpl;
use vstd::string::*;

verus! {

/// A moment of the monotonic clock, carried through unread.
#[verifier::external_type_specification]
#[verifier::external_body]
pub struct ExInstant(Instant);

/// How a vault was unlocked.
#[derive(Debug, Clone, PartialEq, Eq)]
pub enum UnlockMethod {
    Password,
    Passkey { credential_id: String },
}

/// Why a vault was not unlocked.
#[derive(Debug)]
pub enum AuthError {
    RateLimited { retry_after: Span },
    Vault(VaultError),
}

/// What an [`AuthError`] says, with the span in nanoseconds.
pub enum AuthFailure {
    RateLimited { retry_after: nat },
    Vault(Failure),
}

impl View for AuthError {
    type V = AuthFailure;

    open spec fn view(&self) -> AuthFailure {
        match *self {
            AuthError::RateLimited { retry_after } => AuthFailure::RateLimited {
                retry_after: retry_after@,
            },
            AuthError::Vault(err) => AuthFailure::Vault(err@),
        }
    }
}

impl AuthError {
    /// The text shown to a person.
    pub fn message(&self) -> (text: String)
        ensures
            match *self {
                AuthError::RateLimited { retry_after } => text@
                    == "too many failed attempts, retry in "@ + text_of(retry_after@),
                AuthError::Vault(err) => shows(err, text@),
            },
    {
        match self {
            AuthError::RateLimited { retry_after } => {
                "too many failed attempts, retry in ".to_owned().concat(
                    retry_after.text().as_str(),
                )
            },
            AuthError::Vault(err) => err.message(),
        }
    }
}

impl From<VaultError> for AuthError {
    fn from(value: VaultError) -> (err: Self) {
        AuthError::Vault(value)
    }
}

impl FromSpecImpl<VaultError> for AuthError {
    open spec fn obeys_from_spec() -> bool {
        true
    }

    open spec fn from_spec(value: VaultError) -> Self {
        AuthError::Vault(value)
    }
}

/// Whether the vault is open, with moments as spans since the start of the
/// clock.
#[derive(Debug)]
enum LockState {
    Locked { failed_attempts: u32, cooldown_until: Option<Span> },
    Unlocked { method: UnlockMethod, unlocked: UnlockedVault, last_activity: Span },
}

/// Whether the vault is open, with moments in nanoseconds since the start of
/// the clock.
pub enum LockView {
    Locked { failed_attempts: nat, cooldown_until: Option<nat> },
    Unlocked { method: UnlockMethod, unlocked: UnlockedView, last_activity: nat },
}

/// Guards a vault: counts failed attempts, enforces the cooldown, and logs
/// what happens.
#[derive(Debug)]
pub struct AuthManager {
    max_failed_attempts: u32,
    cooldown: Span,
    inactivity_timeout: Span,
    clock: Instant,
    state: LockState,
    audit_log: Vec<String>,
}

/// The content of an [`AuthManager`], with spans in nanoseconds. Every moment
/// is counted from `clock`, the start of the clock.
#[verifier::ext_equal]
pub struct AuthView {
    pub clock: Instant,
    pub max_failed_attempts: nat,
    pub cooldown: nat,
    pub inactivity_timeout: nat,
    pub state: LockView,
    pub audit_log: Seq<Seq<char>>,
}

impl View for LockState {
    type V = LockView;

    closed spec fn view(&self) -> LockView {
        match *self {
            LockState::Locked { failed_attempts, cooldown_until } => LockView::Locked {
                failed_attempts: failed_attempts as nat,
                cooldown_until: span_view(cooldown_until),
            },
            LockState::Unlocked { method, unlocked, last_activity } => LockView::Unlocked {
                method,
                unlocked: unlocked@,
                last_activity: last_activity@,
            },
        }
    }
}

impl View for AuthManager {
    type V = AuthView;

    closed spec fn view(&self) -> AuthView {
        AuthView {
            clock: self.clock,
            max_failed_attempts: self.max_failed_attempts as nat,
            cooldown: self.cooldown@,
            inactivity_timeout: self.inactivity_timeout@,
            state: self.state@,
            audit_log: views(self.audit_log@),
        }
    }
}

impl AuthView {
    /// What holds of every manager: a locked vault has seen fewer failed
    /// attempts than bring a cooldown.
    pub open spec fn valid(self) -> bool {
        self.state matches LockView::Locked { failed_attempts, .. } ==> failed_attempts == 0
            || failed_attempts < self.max_failed_attempts
    }

    /// How long the vault refuses attempts at the moment `now`.
    pub open spec fn remaining(self, now: nat) -> Option<nat> {
        match self.state {
            LockView::Locked { cooldown_until: Some(until), .. } => if now >= until {
                None
            } else {
                Some(excess_of(until, now))
            },
            _ => None,
        }
    }

    /// Whether the vault has been left alone for too long at the moment `now`.
    pub open spec fn stale(self, now: nat) -> bool {
        match self.state {
            LockView::Unlocked { last_activity, .. } => excess_of(now, last_activity)
                >= self.inactivity_timeout,
            LockView::Locked { .. } => false,
        }
    }

    /// The manager with `event` at the end of its log.
    pub open spec fn logged(self, event: Seq<char>) -> AuthView {
        AuthView { audit_log: self.audit_log.push(event), ..self }
    }

    /// The manager after a failed attempt at the moment `now`: the vault is
    /// locked, and the attempt counts; the last attempt that is allowed brings
    /// a cooldown and starts the count anew.
    pub open spec fn failed(self, now: nat) -> AuthView {
        let (failed_attempts, cooldown_until) = match self.state {
            LockView::Locked { failed_attempts, cooldown_until } => (
                failed_attempts,
                cooldown_until,
            ),
            LockView::Unlocked { .. } => (0nat, None::<nat>),
        };
        let state = if failed_attempts + 1 >= self.max_failed_attempts {
            LockView::Locked {
                failed_attempts: 0,
                cooldown_until: Some(sum_of(now, self.cooldown)),
            }
        } else {
            LockView::Locked { failed_attempts: failed_attempts + 1, cooldown_until }
        };
        AuthView { state, ..self }
    }

    /// The manager after an attempt with the password ended at the moment
    /// `now` with `opening`.
    pub open spec fn settled(
        self,
        opening: Result<UnlockedVault, VaultError>,
        now: nat,
    ) -> AuthView {
        match opening {
            Ok(unlocked) => (AuthView {
                state: LockView::Unlocked {
                    method: UnlockMethod::Password,
                    unlocked: unlocked@,
                    last_activity: now,
                },
                ..self
            }).logged("unlock_password_success"@),
            Err(_) => self.failed(now).logged("unlock_password_failure"@),
        }
    }

    /// The manager after activity at the moment `now`.
    pub open spec fn active(self, now: nat) -> AuthView {
        match self.state {
            LockView::Unlocked { method, unlocked, .. } => AuthView {
                state: LockView::Unlocked { method, unlocked, last_activity: now },
                ..self
            },
            LockView::Locked { .. } => self,
        }
    }

    /// The manager after the vault was locked for `reason`: failed attempts
    /// and a cooldown are forgotten.
    pub open spec fn locked(self, reason: Seq<char>) -> AuthView {
        (AuthView {
            state: LockView::Locked { failed_attempts: 0, cooldown_until: None },
            ..self
        }).logged("locked:"@ + reason)
    }
}

/// What a caller learns from an attempt that ended with `opening`.
pub open spec fn verdict(opening: Result<UnlockedVault, VaultError>) -> Result<(), AuthFailure> {
    match opening {
        Ok(_) => Ok(()),
        Err(err) => Err(AuthFailure::Vault(err@)),
    }
}

/// A result with the error taken by its view.
pub open spec fn auth_outcome(result: Result<(), AuthError>) -> Result<(), AuthFailure> {
    match result {
        Ok(()) => Ok(()),
        Err(err) => Err(err@),
    }
}

/// The outcome of an attempt to unlock `vault` with `password` that starts
/// when the clock shows `now` and ends when it shows `later`: while a cooldown
/// lasts it is refused and leaves no trace; else the vault decides.
pub open spec fn attempted<D: Fn(&[u8]) -> Result<VaultPayload, VaultError>>(
    before: AuthView,
    vault: Vault,
    password: Seq<char>,
    decode: D,
    now: nat,
    later: nat,
    after: AuthView,
    result: Result<(), AuthFailure>,
) -> bool {
    match before.remaining(now) {
        Some(retry_after) => {
            &&& after == before
            &&& result == Err::<(), AuthFailure>(AuthFailure::RateLimited { retry_after })
        },
        None => exists|opening: Result<UnlockedVault, VaultError>| #[trigger]
            unlocks_with_password(vault@.disk, password, decode, opening) && after
                == before.settled(opening, later) && result == verdict(opening),
    }
}

/// `Instant::now`: some moment of the monotonic clock, of which nothing is
/// known.
#[verifier::external_body]
pub(crate) fn start_clock() -> (start: Instant) {
    Instant::now()
}

/// `Instant::elapsed`: the seconds and nanoseconds since `start`, the latter
/// less than a second. Which numbers come depends on the clock and is not
/// stated.
#[verifier::external_body]
pub(crate) fn elapsed_since(start: &Instant) -> (parts: (u64, u32))
    ensures
        parts.1 < NANOS_PER_SEC,
{
    let elapsed = start.elapsed();
    (elapsed.as_secs(), elapsed.subsec_nanos())
}

/// Whether a clock may have been started at `start`: whether `start` is a
/// moment that [`start_clock`] gave.
pub closed spec fn started(start: Instant) -> bool {
    call_ensures(start_clock, (), start)
}

/// Whether a clock that was started at `start` may show `now`: whether `now`
/// is what [`elapsed_since`] gave for `start`, in nanoseconds.
pub closed spec fn clock_shows(start: Instant, now: nat) -> bool {
    exists|parts: (u64, u32)| #[trigger]
        call_ensures(elapsed_since, (&start,), parts) && now == parts.0 * NANOS_PER_SEC + parts.1
}

/// What a clock shows is what `Instant::elapsed` gave for its start, seconds
/// and nanoseconds together, and a clock is started where `Instant::now` was.
pub(crate) proof fn law_clocks_show_elapsed_time(start: Instant, now: nat)
    ensures
        started(start) <==> call_ensures(start_clock, (), start),
        clock_shows(start, now) <==> exists|parts: (u64, u32)| #[trigger]
            call_ensures(elapsed_since, (&start,), parts) && now == parts.0 * 1_000_000_000
                + parts.1,
{
}

impl AuthManager {
    /// A manager of a locked vault, whose clock starts now.
    pub fn new(max_failed_attempts: u32, cooldown: Span, inactivity_timeout: Span) -> (manager:
        Self)
        ensures
            manager@.valid(),
            started(manager@.clock),
            manager@ == (AuthView {
                clock: manager@.clock,
                max_failed_attempts: max_failed_attempts as nat,
                cooldown: cooldown@,
                inactivity_timeout: inactivity_timeout@,
                state: LockView::Locked { failed_attempts: 0, cooldown_until: None },
                audit_log: seq!["app_started_locked"@],
            }),
    {
        let audit_log = vec!["app_started_locked".to_owned()];
        assert(views(audit_log@) =~= seq!["app_started_locked"@]);
        let clock = start_clock();
        assert(call_ensures(start_clock, (), clock));
        AuthManager {
            max_failed_attempts,
            cooldown,
            inactivity_timeout,
            clock,
            state: LockState::Locked { failed_attempts: 0, cooldown_until: None },
            audit_log,
        }
    }

    /// What the clock shows.
    fn now(&self) -> (now: Span)
        ensures
            clock_shows(self@.clock, now@),
    {
        let (secs, nanos) = elapsed_since(&self.clock);
        assert(call_ensures(elapsed_since, (&self.clock,), (secs, nanos)));
        Span::new(secs, nanos)
    }

    /// Whether the vault is open.
    pub fn is_unlocked(&self) -> (answer: bool)
        ensures
            answer == self@.state is Unlocked,
    {
        match &self.state {
            LockState::Unlocked { .. } => true,
            LockState::Locked { .. } => false,
        }
    }

    /// How the vault was unlocked; nothing if it is locked.
    pub fn unlock_method(&self) -> (method: Option<&UnlockMethod>)
        ensures
            match self@.state {
                LockView::Unlocked { method: how, .. } => method == Some(&how),
                LockView::Locked { .. } => method is None,
            },
    {
        match &self.state {
            LockState::Unlocked { method, .. } => Some(method),
            LockState::Locked { .. } => None,
        }
    }

    /// The unlocked vault; nothing if it is locked.
    pub fn unlocked(&self) -> (vault: Option<&UnlockedVault>)
        ensures
            match self@.state {
                LockView::Unlocked { unlocked, .. } => vault matches Some(open) && open@
                    == unlocked,
                LockView::Locked { .. } => vault is None,
            },
    {
        match &self.state {
            LockState::Unlocked { unlocked, .. } => Some(unlocked),
            LockState::Locked { .. } => None,
        }
    }

    /// What has happened so far.
    pub fn audit_events(&self) -> (events: &[String])
        ensures
            views(events@) == self@.audit_log,
    {
        self.audit_log.as_slice()
    }

    /// How long the vault refuses attempts when the clock shows `now`.
    pub fn cooldown_remaining_at(&self, now: Span) -> (remaining: Option<Span>)
        ensures
            span_view(remaining) == self@.remaining(now@),
    {
        match &self.state {
            LockState::Locked { cooldown_until: Some(until), .. } => {
                if now.as_nanos() >= until.as_nanos() {
                    None
                } else {
                    Some(until.saturating_sub(&now))
                }
            },
            _ => None,
        }
    }

    /// How long the vault refuses attempts.
    pub fn cooldown_remaining(&self) -> (remaining: Option<Span>)
        ensures
            exists|now: nat| #[trigger]
                clock_shows(self@.clock, now) && span_view(remaining) == self@.remaining(now),
    {
        let now = self.now();
        self.cooldown_remaining_at(now)
    }

    /// Whether the vault has been left alone for too long when the clock shows
    /// `now`.
    pub fn should_auto_lock_at(&self, now: Span) -> (answer: bool)
        ensures
            answer == self@.stale(now@),
    {
        match &self.state {
            LockState::Unlocked { last_activity, .. } => {
                now.saturating_sub(last_activity).as_nanos() >= self.inactivity_timeout.as_nanos()
            },
            LockState::Locked { .. } => false,
        }
    }

    /// Whether the vault has been left alone for too long.
    pub fn should_auto_lock(&self) -> (answer: bool)
        ensures
            exists|now: nat| #[trigger]
                clock_shows(self@.clock, now) && answer == self@.stale(now),
    {
        let now = self.now();
        self.should_auto_lock_at(now)
    }

    /// Refuses an attempt while a cooldown lasts, when the clock shows `now`.
    pub fn ensure_not_rate_limited(&self, now: Span) -> (allowed: Result<(), AuthError>)
        ensures
            auth_outcome(allowed) == match self@.remaining(now@) {
                Some(retry_after) => Err::<(), AuthFailure>(
                    AuthFailure::RateLimited { retry_after },
                ),
                None => Ok(()),
            },
    {
        match self.cooldown_remaining_at(now) {
            Some(retry_after) => Err(AuthError::RateLimited { retry_after }),
            None => Ok(()),
        }
    }

    /// Puts `event` at the end of the log.
    fn log(&mut self, event: String)
        ensures
            final(self)@ == old(self)@.logged(event@),
    {
        proof {
            lemma_views_push(self.audit_log@, event);
        }
        self.audit_log.push(event);
    }

    /// Counts a failed attempt when the clock shows `now`.
    pub fn record_failed_attempt(&mut self, now: Span)
        ensures
            final(self)@ == old(self)@.failed(now@),
            final(self)@.valid(),
    {
        let (failed_attempts, cooldown_until) = match &self.state {
            LockState::Locked { failed_attempts, cooldown_until } => (
                *failed_attempts,
                *cooldown_until,
            ),
            LockState::Unlocked { .. } => (0, None),
        };
        let next_failed_attempts: u32 = failed_attempts.saturating_add(1);
        if next_failed_attempts >= self.max_failed_attempts {
            self.state = LockState::Locked {
                failed_attempts: 0,
                cooldown_until: Some(now.saturating_add(&self.cooldown)),
            };
        } else {
            self.state = LockState::Locked {
                failed_attempts: next_failed_attempts,
                cooldown_until,
            };
        }
    }

    /// Takes in the end of an attempt with the password, when the clock shows
    /// `now`.
    pub fn settle_password_attempt(
        &mut self,
        opening: Result<UnlockedVault, VaultError>,
        now: Span,
    ) -> (result: Result<(), AuthError>)
        ensures
            final(self)@ == old(self)@.settled(opening, now@),
            final(self)@.valid(),
            auth_outcome(result) == verdict(opening),
    {
        match opening {
            Ok(unlocked) => {
                self.log("unlock_password_success".to_owned());
                self.state = LockState::Unlocked {
                    method: UnlockMethod::Password,
                    unlocked,
                    last_activity: now,
                };
                Ok(())
            },
            Err(err) => {
                self.record_failed_attempt(now);
                self.log("unlock_password_failure".to_owned());
                Err(AuthError::from(err))
            },
        }
    }

    /// Tries to unlock `vault` with `password`, its tokens being read by
    /// `decode`.
    pub fn unlock_with_password<D: Fn(&[u8]) -> Result<VaultPayload, VaultError>>(
        &mut self,
        vault: &Vault,
        password: &str,
        decode: D,
    ) -> (result: Result<(), AuthError>)
        requires
            forall|bytes: &[u8]| #[trigger] decode.requires((bytes,)),
        ensures
            old(self)@.valid() ==> final(self)@.valid(),
            exists|now: nat, later: nat| #[trigger]
                attempted(
                    old(self)@,
                    *vault,
                    password@,
                    decode,
                    now,
                    later,
                    final(self)@,
                    auth_outcome(result),
                ) && clock_shows(old(self)@.clock, now) && clock_shows(old(self)@.clock, later),
    {
        let ghost before = self@;
        let now = self.now();
        if let Err(err) = self.ensure_not_rate_limited(now) {
            assert(attempted(
                before,
                *vault,
                password@,
                decode,
                now@,
                now@,
                self@,
                Err::<(), AuthFailure>(err@),
            ));
            return Err(err);
        }
        let opening = vault.unlock_with_password(password, decode);
        let later = self.now();
        assert(unlocks_with_password(vault@.disk, password@, decode, opening));
        let ghost after = before.settled(opening, later@);
        assert(attempted(
            before,
            *vault,
            password@,
            decode,
            now@,
            later@,
            after,
            verdict(opening),
        ));
        self.settle_password_attempt(opening, later)
    }

    /// Refuses to unlock `vault` with a passkey, and logs the attempt.
    pub fn unlock_with_passkey(
        &mut self,
        vault: &Vault,
        credential_id: &str,
        passkey_secret: &str,
    ) -> (result: Result<(), AuthError>)
        ensures
            final(self)@ == old(self)@.logged("unlock_passkey_disabled"@),
            auth_outcome(result) == Err::<(), AuthFailure>(
                AuthFailure::Vault(
                    Failure::InvalidInput(
                        "hardware-key unlock is disabled until secure device-backed verification is implemented"@,
                    ),
                ),
            ),
    {
        let _ = (vault, credential_id, passkey_secret);
        self.log("unlock_passkey_disabled".to_owned());
        Err(
            AuthError::Vault(
                VaultError::InvalidInput(
                    "hardware-key unlock is disabled until secure device-backed verification is implemented".to_owned(),
                ),
            ),
        )
    }

    /// Locks the vault for `reason`.
    pub fn lock(&mut self, reason: &str)
        ensures
            final(self)@ == old(self)@.locked(reason@),
            final(self)@.valid(),
    {
        self.log("locked:".to_owned().concat(reason));
        self.state = LockState::Locked { failed_attempts: 0, cooldown_until: None };
    }

    /// The unlocked vault, to be changed; nothing if it is locked.
    pub fn unlocked_mut(&mut self) -> (vault: Option<&mut UnlockedVault>)
        ensures
            match old(self)@.state {
                LockView::Unlocked { method, unlocked, last_activity } => {
                    &&& vault matches Some(open)
                    &&& open@ == unlocked
                    &&& final(self)@ == (AuthView {
                        state: LockView::Unlocked { method, unlocked: final(open)@, last_activity },
                        ..old(self)@
                    })
                },
                LockView::Locked { .. } => vault is None && final(self)@ == old(self)@,
            },
    {
        match &mut self.state {
            LockState::Unlocked { unlocked, .. } => Some(unlocked),
            LockState::Locked { .. } => None,
        }
    }

    /// Notes activity when the clock shows `now`.
    pub fn mark_activity_at(&mut self, now: Span)
        ensures
            final(self)@ == old(self)@.active(now@),
    {
        if let LockState::Unlocked { last_activity, .. } = &mut self.state {
            *last_activity = now;
        }
    }

    /// Notes activity.
    pub fn mark_activity(&mut self)
        ensures
            exists|now: nat| #[trigger]
                clock_shows(old(self)@.clock, now) && final(self)@ == old(self)@.active(now),
    {
        let now = self.now();
        self.mark_activity_at(now)
    }
}

} // verus!
