use alligator::error::VaultError;
use alligator::model::{OAuthSecret, VaultPayload};
use alligator::providers::{
    apply_reply, CredentialProvider, OAuthRefresher, OAuthSessionManager, RefreshResult,
    SessionCredentialProvider,
};
use alligator::vault::Vault;
use alligator::Source;
use serde_json::Value;
use std::path::PathBuf;

fn encode(payload: &VaultPayload) -> Result<Vec<u8>, VaultError> {
    let mut secrets = serde_json::Map::new();
    for at in 0..payload.secrets.len() {
        let (provider, secret) = payload.secrets.entry(at);
        let mut entry = serde_json::Map::new();
        entry.insert("access_token".to_string(), Value::from(secret.access_token.as_str()));
        entry.insert("refresh_token".to_string(), Value::from(secret.refresh_token.as_str()));
        secrets.insert(provider.to_string(), Value::Object(entry));
    }
    let mut root = serde_json::Map::new();
    root.insert("secrets".to_string(), Value::Object(secrets));
    serde_json::to_vec(&Value::Object(root)).map_err(VaultError::Serde)
}

fn decode(bytes: &[u8]) -> Result<VaultPayload, VaultError> {
    let root: Value = serde_json::from_slice(bytes).map_err(VaultError::Serde)?;
    let mut payload = VaultPayload::default();
    if let Some(secrets) = root["secrets"].as_object() {
        for (provider, entry) in secrets {
            let text = |field: &str| entry[field].as_str().unwrap_or_default().to_string();
            payload.secrets.insert(
                provider.clone(),
                OAuthSecret {
                    access_token: text("access_token"),
                    refresh_token: text("refresh_token"),
                },
            );
        }
    }
    Ok(payload)
}

fn some_path(label: &str) -> PathBuf {
    PathBuf::from(format!("alligator-{label}-{}.json", rand::random::<u64>()))
}

#[derive(Debug)]
struct MockRefresher;

impl OAuthRefresher for MockRefresher {
    fn refresh(
        &self,
        provider: &str,
        refresh_token: &str,
        now_epoch_secs: u64,
    ) -> Option<RefreshResult> {
        Some(RefreshResult {
            access_token: format!("{provider}-new-access"),
            refresh_token: format!("{refresh_token}-next"),
            expires_at_epoch_secs: Some(now_epoch_secs + 120),
        })
    }
}

struct SilentRefresher;

impl OAuthRefresher for SilentRefresher {
    fn refresh(&self, _: &str, _: &str, _: u64) -> Option<RefreshResult> {
        None
    }
}

fn new_vault(label: &str, password: &str) -> (PathBuf, Vault) {
    let path = some_path(label);
    let vault = Vault::create(path.clone(), Some(password), &[], "someone", encode)
        .expect("create vault");
    (path, vault)
}

#[test]
fn refresh_updates_and_persists_tokens() {
    let password = format!("password-{}", rand::random::<u64>());
    let (path, mut vault) = new_vault("refresh", &password);

    let mut unlocked = vault
        .unlock_with_password(password.as_str(), decode)
        .expect("unlock vault");
    unlocked.upsert_token(
        "slack",
        vec!["channels:history".to_string(), "channels:read".to_string()],
        Some(10),
        "old-access",
        "old-refresh",
    );
    vault.commit(&unlocked, encode).expect("commit initial token");

    let manager = OAuthSessionManager::new(MockRefresher);
    let updated = manager
        .refresh_expiring_tokens(&mut unlocked, 10)
        .expect("refresh tokens");
    assert_eq!(updated, 1);

    vault.commit(&unlocked, encode).expect("persist refreshed token");

    let reopened = Vault::open(path, vault.contents().clone(), "someone").expect("reopen vault");
    let unlocked = reopened
        .unlock_with_password(password.as_str(), decode)
        .expect("unlock reopened");
    assert_eq!(
        unlocked
            .secret_for("slack")
            .map(|secret| secret.access_token.as_str()),
        Some("slack-new-access")
    );
    assert_eq!(
        unlocked
            .metadata_for("slack")
            .map(|meta| meta.scopes.clone())
            .unwrap_or_default(),
        vec!["channels:history".to_string(), "channels:read".to_string()]
    );
}

#[test]
fn refresh_skips_unexpired_tokens() {
    let password = format!("password-{}", rand::random::<u64>());
    let (_, vault) = new_vault("no-refresh", &password);

    let mut unlocked = vault
        .unlock_with_password(password.as_str(), decode)
        .expect("unlock vault");
    unlocked.upsert_token(
        "slack",
        vec!["channels:read".to_string()],
        Some(1_000),
        "unchanged-access",
        "unchanged-refresh",
    );

    let manager = OAuthSessionManager::new(MockRefresher);
    let updated = manager
        .refresh_expiring_tokens(&mut unlocked, 999)
        .expect("refresh should succeed");
    assert_eq!(updated, 0);
    assert_eq!(
        unlocked
            .secret_for("slack")
            .map(|secret| secret.access_token.as_str()),
        Some("unchanged-access")
    );
    assert_eq!(
        unlocked
            .metadata_for("slack")
            .map(|meta| meta.scopes.clone())
            .unwrap_or_default(),
        vec!["channels:read".to_string()]
    );
}

#[test]
fn refresh_takes_the_replies() {
    let (_, vault) = new_vault("replies", "pw");
    let mut unlocked = vault.unlock_with_password("pw", decode).expect("unlock");
    unlocked.upsert_token("slack", vec!["s".to_string()], Some(5), "a", "r");
    unlocked.upsert_token("teams", vec![], None, "b", "q");
    unlocked.upsert_token("google_chat", vec![], Some(4), "c", "p");
    let manager = OAuthSessionManager::new(MockRefresher);
    let updated = manager.refresh_expiring_tokens(&mut unlocked, 5).expect("refresh");
    assert_eq!(updated, 2);
    let secret = unlocked.secret_for("slack").expect("secret");
    assert_eq!(secret.access_token, "slack-new-access");
    assert_eq!(secret.refresh_token, "r-next");
    let metadata = unlocked.metadata_for("slack").expect("metadata");
    assert_eq!(metadata.expires_at_epoch_secs, Some(125));
    assert_eq!(metadata.scopes, vec!["s".to_string()]);
    assert_eq!(unlocked.secret_for("teams").expect("secret").access_token, "b");
    assert_eq!(
        unlocked.secret_for("google_chat").expect("secret").access_token,
        "google_chat-new-access"
    );
    assert_eq!(unlocked.providers(), vec!["slack", "teams", "google_chat"]);
}

#[test]
fn refresh_without_replies_changes_nothing() {
    let (_, vault) = new_vault("silent", "pw");
    let mut unlocked = vault.unlock_with_password("pw", decode).expect("unlock");
    unlocked.upsert_token("slack", vec![], Some(5), "a", "r");
    let manager = OAuthSessionManager::new(SilentRefresher);
    let updated = manager.refresh_expiring_tokens(&mut unlocked, 9).expect("refresh");
    assert_eq!(updated, 0);
    assert_eq!(unlocked.secret_for("slack").expect("secret").access_token, "a");
    assert_eq!(
        unlocked.metadata_for("slack").expect("metadata").expires_at_epoch_secs,
        Some(5)
    );
}

#[test]
fn refresh_fails_at_metadata_without_a_secret() {
    let (_, mut vault) = new_vault("orphan", "pw");
    let mut unlocked = vault.unlock_with_password("pw", decode).expect("unlock");
    unlocked.upsert_token("slack", vec![], Some(5), "a", "r");
    unlocked.upsert_token("teams", vec![], Some(5), "b", "q");
    let only_slack = |payload: &VaultPayload| {
        let mut kept = VaultPayload::default();
        if let Some(secret) = payload.secrets.get("slack") {
            kept.secrets.insert("slack".to_string(), secret.clone());
        }
        encode(&kept)
    };
    vault.commit(&unlocked, only_slack).expect("commit");
    let mut unlocked = vault.unlock_with_password("pw", decode).expect("unlock again");
    let manager = OAuthSessionManager::new(MockRefresher);
    let err = manager.refresh_expiring_tokens(&mut unlocked, 5).expect_err("orphan");
    assert!(matches!(
        err,
        VaultError::InvalidData("metadata exists without matching secret")
    ));
    assert_eq!(
        unlocked.secret_for("slack").expect("secret").access_token,
        "slack-new-access"
    );
    assert!(manager.refresh_expiring_tokens(&mut unlocked, 4).is_ok());
}

#[test]
fn a_reply_for_an_unknown_provider_has_no_scopes() {
    let (_, vault) = new_vault("unknown", "pw");
    let mut unlocked = vault.unlock_with_password("pw", decode).expect("unlock");
    assert!(!apply_reply(&mut unlocked, "slack", None));
    assert!(unlocked.metadata_for("slack").is_none());
    let reply = RefreshResult {
        access_token: "a".to_string(),
        refresh_token: "r".to_string(),
        expires_at_epoch_secs: None,
    };
    assert!(apply_reply(&mut unlocked, "slack", Some(reply)));
    assert!(unlocked.metadata_for("slack").expect("metadata").scopes.is_empty());
}

#[test]
fn a_session_gives_out_access_tokens() {
    let (_, vault) = new_vault("session", "pw");
    let mut unlocked = vault.unlock_with_password("pw", decode).expect("unlock");
    unlocked.upsert_token("slack", vec![], None, "slack-token", "r");
    unlocked.upsert_token("google_chat", vec![], None, "chat-token", "r");
    let session = SessionCredentialProvider::from_unlocked(&unlocked);
    assert_eq!(session.access_token_for_source(Source::Slack), Some("slack-token"));
    assert_eq!(session.access_token_for_source(Source::GoogleChat), Some("chat-token"));
    assert_eq!(session.access_token_for_source(Source::Teams), None);
    let copy = session.clone();
    assert_eq!(copy.access_token_for_source(Source::Slack), Some("slack-token"));
    let empty = SessionCredentialProvider::default();
    assert_eq!(empty.access_token_for_source(Source::Slack), None);
}

#[test]
fn a_copy_of_an_open_vault_stands_alone() {
    let (_, vault) = new_vault("copy", "pw");
    let mut unlocked = vault.unlock_with_password("pw", decode).expect("unlock");
    let copy = unlocked.clone();
    unlocked.upsert_token("slack", vec![], None, "a", "r");
    assert!(copy.secret_for("slack").is_none());
    assert_eq!(copy.key(), unlocked.key());
}
