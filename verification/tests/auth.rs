use alligator::auth::{AuthError, AuthManager, UnlockMethod};
use alligator::error::VaultError;
use alligator::model::{OAuthSecret, VaultPayload};
use alligator::vault::Vault;
use alligator::Span;
use serde_json::Value;
use std::path::PathBuf;
use std::time::{Duration, Instant};

fn encode(payload: &VaultPayload) -> Result<Vec<u8>, VaultError> {
    let mut secrets = serde_json::Map::new();
    for at in 0..payload.secrets.len() {
        let (provider, secret) = payload.secrets.entry(at);
        let mut entry = serde_json::Map::new();
        entry.insert("access_token".to_string(), Value::from(secret.access_token.as_str()));
        entry.insert("refresh_token".to_string(), Value::from(secret.refresh_token.as_str()));
        secrets.insert(provider.to_string(), Value::Object(entry));
    }
    let mut root = serde_json::Map::new();
    root.insert("secrets".to_string(), Value::Object(secrets));
    serde_json::to_vec(&Value::Object(root)).map_err(VaultError::Serde)
}

fn decode(bytes: &[u8]) -> Result<VaultPayload, VaultError> {
    let root: Value = serde_json::from_slice(bytes).map_err(VaultError::Serde)?;
    let mut payload = VaultPayload::default();
    if let Some(secrets) = root["secrets"].as_object() {
        for (provider, entry) in secrets {
            let text = |field: &str| entry[field].as_str().unwrap_or_default().to_string();
            payload.secrets.insert(
                provider.clone(),
                OAuthSecret {
                    access_token: text("access_token"),
                    refresh_token: text("refresh_token"),
                },
            );
        }
    }
    Ok(payload)
}

fn some_path(label: &str) -> PathBuf {
    PathBuf::from(format!("alligator-{label}-{}.json", rand::random::<u64>()))
}

fn new_vault(label: &str, password: &str) -> Vault {
    Vault::create(some_path(label), Some(password), &[], "someone", encode).expect("create vault")
}

fn wait(duration: Duration) {
    let start = Instant::now();
    while start.elapsed() < duration {}
}

fn events(auth: &AuthManager) -> Vec<&str> {
    auth.audit_events().iter().map(|event| event.as_str()).collect()
}

#[test]
fn state_transitions_unlock_and_auto_lock() {
    let password = format!("password-{}", rand::random::<u64>());
    let vault = new_vault("state", &password);

    let mut auth = AuthManager::new(3, Span::from_secs(30), Span::from_millis(1));
    auth.unlock_with_password(&vault, password.as_str(), decode)
        .expect("unlock");
    assert!(auth.is_unlocked());

    wait(Duration::from_millis(2));
    assert!(auth.should_auto_lock());

    auth.lock("timeout");
    assert!(!auth.is_unlocked());
}

#[test]
fn unlock_rate_limit_enforced_after_failures() {
    let password = format!("password-{}", rand::random::<u64>());
    let vault = new_vault("ratelimit", &password);

    let mut auth = AuthManager::new(2, Span::from_secs(60), Span::from_secs(60));
    assert!(auth.unlock_with_password(&vault, "bad", decode).is_err());
    assert!(auth.unlock_with_password(&vault, "bad", decode).is_err());

    let err = auth
        .unlock_with_password(&vault, password.as_str(), decode)
        .expect_err("should be rate-limited");
    assert!(matches!(err, AuthError::RateLimited { .. }));
}

#[test]
fn a_refused_attempt_leaves_no_trace() {
    let vault = new_vault("trace", "pw");
    let mut auth = AuthManager::new(1, Span::from_secs(60), Span::from_secs(60));
    assert!(auth.cooldown_remaining().is_none());
    let err = auth.unlock_with_password(&vault, "bad", decode).expect_err("wrong");
    assert!(matches!(err, AuthError::Vault(VaultError::Crypto("decryption failed"))));
    let before: Vec<String> = auth.audit_events().to_vec();
    match auth.unlock_with_password(&vault, "pw", decode) {
        Err(AuthError::RateLimited { retry_after }) => {
            assert!(retry_after.as_secs() <= 60 && retry_after.as_secs() >= 50)
        }
        _ => panic!("expected a rate limit"),
    }
    assert_eq!(auth.audit_events(), before.as_slice());
    let remaining = auth.cooldown_remaining().expect("cooldown");
    assert!(remaining.as_secs() <= 60 && remaining.as_secs() >= 50);
}

#[test]
fn the_log_of_a_session() {
    let vault = new_vault("log", "pw");
    let mut auth = AuthManager::new(3, Span::from_secs(60), Span::from_secs(60));
    assert_eq!(events(&auth), vec!["app_started_locked"]);
    assert!(auth.unlock_with_password(&vault, "bad", decode).is_err());
    auth.unlock_with_password(&vault, "pw", decode).expect("unlock");
    assert_eq!(auth.unlock_method(), Some(&UnlockMethod::Password));
    auth.lock("user");
    assert!(auth.unlock_method().is_none());
    assert_eq!(
        events(&auth),
        vec![
            "app_started_locked",
            "unlock_password_failure",
            "unlock_password_success",
            "locked:user"
        ]
    );
}

#[test]
fn passkeys_are_refused() {
    let vault = new_vault("passkey", "pw");
    let mut auth = AuthManager::new(3, Span::from_secs(60), Span::from_secs(60));
    let err = auth.unlock_with_passkey(&vault, "key-1", "secret").expect_err("disabled");
    assert_eq!(
        err.message(),
        "invalid input: hardware-key unlock is disabled until secure device-backed verification is implemented"
    );
    assert_eq!(events(&auth), vec!["app_started_locked", "unlock_passkey_disabled"]);
    assert!(!auth.is_unlocked());
}

#[test]
fn failures_count_up_to_a_cooldown() {
    let mut auth = AuthManager::new(3, Span::from_secs(10), Span::from_secs(60));
    auth.record_failed_attempt(Span::from_secs(1));
    auth.record_failed_attempt(Span::from_secs(2));
    assert!(auth.cooldown_remaining_at(Span::from_secs(2)).is_none());
    auth.record_failed_attempt(Span::from_secs(5));
    let left = |at: Span| auth.cooldown_remaining_at(at).map(|span| span.as_nanos());
    assert_eq!(left(Span::from_secs(5)), Some(10_000_000_000));
    assert_eq!(left(Span::from_millis(14_999)), Some(1_000_000));
    assert_eq!(left(Span::from_secs(15)), None);
    assert!(auth.ensure_not_rate_limited(Span::from_secs(14)).is_err());
    assert!(auth.ensure_not_rate_limited(Span::from_secs(15)).is_ok());
}

#[test]
fn the_count_starts_anew_after_a_cooldown() {
    let mut auth = AuthManager::new(2, Span::from_secs(10), Span::from_secs(60));
    auth.record_failed_attempt(Span::from_secs(1));
    auth.record_failed_attempt(Span::from_secs(1));
    auth.record_failed_attempt(Span::from_secs(20));
    assert!(auth.cooldown_remaining_at(Span::from_secs(20)).is_none());
    auth.record_failed_attempt(Span::from_secs(21));
    assert!(auth.cooldown_remaining_at(Span::from_secs(30)).is_some());
}

#[test]
fn without_allowed_failures_the_first_brings_a_cooldown() {
    let mut auth = AuthManager::new(0, Span::from_secs(10), Span::from_secs(60));
    auth.record_failed_attempt(Span::from_secs(1));
    assert!(auth.cooldown_remaining_at(Span::from_secs(10)).is_some());
}

#[test]
fn a_lock_lifts_a_cooldown() {
    let mut auth = AuthManager::new(1, Span::from_secs(10), Span::from_secs(60));
    auth.record_failed_attempt(Span::from_secs(1));
    auth.lock("reset");
    assert!(auth.cooldown_remaining_at(Span::from_secs(2)).is_none());
}

#[test]
fn a_failure_locks_an_open_vault() {
    let vault = new_vault("relock", "pw");
    let mut auth = AuthManager::new(2, Span::from_secs(10), Span::from_secs(60));
    auth.record_failed_attempt(Span::from_secs(1));
    auth.unlock_with_password(&vault, "pw", decode).expect("unlock");
    assert!(auth.unlock_with_password(&vault, "bad", decode).is_err());
    assert!(!auth.is_unlocked());
    assert!(auth.cooldown_remaining().is_none());
}

#[test]
fn settling_an_attempt() {
    let vault = new_vault("settle", "pw");
    let mut auth = AuthManager::new(2, Span::from_secs(10), Span::from_secs(60));
    let opening = vault.unlock_with_password("pw", decode);
    auth.settle_password_attempt(opening, Span::from_secs(100)).expect("settle");
    assert!(!auth.should_auto_lock_at(Span::from_secs(159)));
    assert!(auth.should_auto_lock_at(Span::from_secs(160)));
    auth.mark_activity_at(Span::from_secs(150));
    assert!(!auth.should_auto_lock_at(Span::from_secs(160)));
    assert!(!auth.should_auto_lock_at(Span::from_secs(0)));
    let err = auth
        .settle_password_attempt(Err(VaultError::Crypto("no")), Span::from_secs(151))
        .expect_err("failed");
    assert!(matches!(err, AuthError::Vault(VaultError::Crypto("no"))));
    assert!(!auth.should_auto_lock_at(Span::from_secs(1_000)));
}

#[test]
fn the_open_vault_can_be_changed() {
    let vault = new_vault("change", "pw");
    let mut auth = AuthManager::new(2, Span::from_secs(10), Span::from_secs(60));
    assert!(auth.unlocked().is_none());
    assert!(auth.unlocked_mut().is_none());
    auth.unlock_with_password(&vault, "pw", decode).expect("unlock");
    let open = auth.unlocked_mut().expect("open");
    open.upsert_token("slack", vec![], None, "a", "r");
    let secret = auth.unlocked().expect("open").secret_for("slack");
    assert_eq!(secret.map(|secret| secret.access_token.as_str()), Some("a"));
}

#[test]
fn activity_by_the_clock_postpones_the_lock() {
    let vault = new_vault("activity", "pw");
    let mut auth = AuthManager::new(2, Span::from_secs(10), Span::from_secs(3_600));
    auth.mark_activity();
    assert!(!auth.should_auto_lock());
    auth.unlock_with_password(&vault, "pw", decode).expect("unlock");
    auth.mark_activity();
    assert!(!auth.should_auto_lock());
    assert!(auth.is_unlocked());
}

#[test]
fn texts_of_auth_errors() {
    let limited = AuthError::RateLimited { retry_after: Span::from_millis(1_500) };
    assert_eq!(limited.message(), "too many failed attempts, retry in 1.5s");
    let vault = AuthError::from(VaultError::InvalidData("x"));
    assert_eq!(vault.message(), "invalid data: x");
}

#[test]
fn failures_leave_a_recorded_cooldown_until_the_last_one_allowed() {
    let mut auth = AuthManager::new(2, Span::from_secs(10), Span::from_secs(60));
    auth.record_failed_attempt(Span::from_secs(1));
    auth.record_failed_attempt(Span::from_secs(1));
    auth.record_failed_attempt(Span::from_secs(3));
    let left = |auth: &AuthManager| {
        auth.cooldown_remaining_at(Span::from_secs(4)).map(|span| span.as_secs())
    };
    assert_eq!(left(&auth), Some(7));
    auth.record_failed_attempt(Span::from_secs(4));
    assert_eq!(left(&auth), Some(10));
}

#[test]
fn a_short_cooldown_ends_by_the_clock() {
    let vault = new_vault("short", "pw");
    let mut auth = AuthManager::new(1, Span::from_millis(1), Span::from_secs(60));
    assert!(auth.unlock_with_password(&vault, "bad", decode).is_err());
    wait(Duration::from_millis(2));
    assert!(auth.cooldown_remaining().is_none());
    auth.unlock_with_password(&vault, "pw", decode).expect("cooldown is over");
}

#[test]
fn activity_by_the_clock_is_noted() {
    let vault = new_vault("noted", "pw");
    let mut auth = AuthManager::new(1, Span::from_secs(60), Span::from_millis(200));
    auth.unlock_with_password(&vault, "pw", decode).expect("unlock");
    wait(Duration::from_millis(210));
    assert!(auth.should_auto_lock());
    auth.mark_activity();
    assert!(!auth.should_auto_lock());
}
