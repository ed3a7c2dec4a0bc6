use alligator::envelope::{
    decode_fixed, decrypt_bytes, default_kdf, derive_key, encrypt_bytes, encrypt_with_nonce,
    unwrap_key_with_secret, wrap_key_with, wrap_key_with_secret, EncryptedPayload, KdfConfig,
};
use alligator::error::VaultError;
use alligator::model::{OAuthSecret, VaultDisk, VaultPayload};
use alligator::vault::{validate_recovery_policy, Vault};
use serde_json::Value;
use std::path::PathBuf;

fn encode(payload: &VaultPayload) -> Result<Vec<u8>, VaultError> {
    let mut secrets = serde_json::Map::new();
    for at in 0..payload.secrets.len() {
        let (provider, secret) = payload.secrets.entry(at);
        let mut entry = serde_json::Map::new();
        entry.insert("access_token".to_string(), Value::from(secret.access_token.as_str()));
        entry.insert("refresh_token".to_string(), Value::from(secret.refresh_token.as_str()));
        secrets.insert(provider.to_string(), Value::Object(entry));
    }
    let mut root = serde_json::Map::new();
    root.insert("secrets".to_string(), Value::Object(secrets));
    serde_json::to_vec(&Value::Object(root)).map_err(VaultError::Serde)
}

fn decode(bytes: &[u8]) -> Result<VaultPayload, VaultError> {
    let root: Value = serde_json::from_slice(bytes).map_err(VaultError::Serde)?;
    let mut payload = VaultPayload::default();
    if let Some(secrets) = root["secrets"].as_object() {
        for (provider, entry) in secrets {
            let text = |field: &str| entry[field].as_str().unwrap_or_default().to_string();
            payload.secrets.insert(
                provider.clone(),
                OAuthSecret {
                    access_token: text("access_token"),
                    refresh_token: text("refresh_token"),
                },
            );
        }
    }
    Ok(payload)
}

fn some_path(label: &str) -> PathBuf {
    PathBuf::from(format!("alligator-{label}-{}.json", rand::random::<u64>()))
}

const USER: &str = "someone";

/// A cost that is cheap to compute.
fn cheap() -> KdfConfig {
    KdfConfig { memory_kib: 8, iterations: 1, parallelism: 1 }
}

fn stored(vault: &Vault) -> VaultDisk {
    vault.contents().clone()
}

fn text_of(err: &VaultError) -> String {
    err.message()
}

fn hex(bytes: &[u8]) -> String {
    bytes.iter().map(|byte| format!("{byte:02x}")).collect()
}

#[test]
fn round_trip_encrypts_and_decrypts_token_data() {
    let password = format!("password-{}", rand::random::<u64>());
    let passkey_secret = format!("passkey-{}", rand::random::<u64>());
    let path = some_path("roundtrip");
    let mut vault = Vault::create(
        path.clone(),
        Some(password.as_str()),
        &[("key-1".into(), passkey_secret)],
        USER,
        encode,
    )
    .expect("create vault");

    let mut unlocked = vault
        .unlock_with_password(password.as_str(), decode)
        .expect("unlock vault");
    unlocked.upsert_token(
        "slack",
        vec!["chat:read".to_string()],
        Some(1_700_000_000),
        "access-a",
        "refresh-a",
    );
    vault.commit(&unlocked, encode).expect("commit vault");

    let reopened = Vault::open(path, stored(&vault), USER).expect("open vault");
    let unlocked = reopened
        .unlock_with_password(password.as_str(), decode)
        .expect("unlock reopened vault");

    assert_eq!(
        unlocked
            .secret_for("slack")
            .map(|entry| entry.access_token.as_str()),
        Some("access-a")
    );
    assert_eq!(
        unlocked
            .metadata_for("slack")
            .and_then(|entry| entry.expires_at_epoch_secs),
        Some(1_700_000_000)
    );
}

#[test]
fn tampered_ciphertext_fails_to_decrypt() {
    let password = format!("password-{}", rand::random::<u64>());
    let passkey_secret = format!("passkey-{}", rand::random::<u64>());
    let path = some_path("tamper");
    let vault = Vault::create(
        path.clone(),
        Some(password.as_str()),
        &[("key-1".into(), passkey_secret)],
        USER,
        encode,
    )
    .expect("create vault");
    let mut disk = stored(&vault);

    disk.encrypted_payload.ciphertext_b64 = "AAAA".into();

    let reopened = Vault::open(path, disk, USER).expect("reopen tampered vault");
    assert!(reopened.unlock_with_password(password.as_str(), decode).is_err());
}

#[test]
fn recovery_policy_requires_password_or_two_passkeys() {
    let path = some_path("recovery");
    let err = Vault::create(path, None, &[("key-1".into(), "secret-1".into())], USER, encode)
        .expect_err("expected recovery-policy error");
    assert!(matches!(err, VaultError::InvalidData(_)));
}

#[test]
fn recovery_policy_allows_password_only() {
    let password = format!("password-{}", rand::random::<u64>());
    let path = some_path("password-only");
    let vault = Vault::create(path, Some(password.as_str()), &[], USER, encode)
        .expect("create vault");
    let unlocked = vault
        .unlock_with_password(password.as_str(), decode)
        .expect("unlock password-only vault");
    assert_eq!(unlocked.providers().len(), 0);
}

#[test]
fn open_rejects_vault_owned_by_different_user() {
    let password = format!("password-{}", rand::random::<u64>());
    let path = some_path("owner-mismatch");
    let current = Vault::current_os_user(Some(USER.to_string()), None);
    let vault = Vault::create(path.clone(), Some(password.as_str()), &[], &current, encode)
        .expect("create vault");

    let mut disk = stored(&vault);
    disk.owner_user = Some(format!("{current}-other"));

    let err = Vault::open(path, disk, &current).expect_err("expected owner mismatch");
    assert!(matches!(err, VaultError::InvalidInput(_)));
}

#[test]
fn argon2id_of_a_known_secret() {
    let kdf = KdfConfig { memory_kib: 65_536, iterations: 2, parallelism: 1 };
    let key = derive_key("password", b"somesalt", kdf).expect("derive");
    assert_eq!(
        hex(&key),
        "09316115d5cf24ed5a15a31a3ba326e5cf32edc24702987c02b6566f61913cf7"
    );
}

#[test]
fn xchacha_of_a_known_message() {
    let key: Vec<u8> = (0x80..0xa0).collect();
    let mut nonce = [0u8; 24];
    for (at, byte) in nonce.iter_mut().enumerate() {
        *byte = 0x40 + at as u8;
    }
    let payload = encrypt_with_nonce(b"Ladies and Gentl", &key, &nonce).expect("encrypt");
    assert_eq!(payload.nonce_b64, "QEFCQ0RFRkdISUpLTE1OT1BRUlNUVVZX");
    let ciphertext = decode_fixed("ciphertext", &payload.ciphertext_b64, 32).expect("base64");
    assert_eq!(hex(&ciphertext[..16]), "bd6d179d3e83d43b9576579493c0e939");
    assert_eq!(decrypt_bytes(&payload, &key).expect("decrypt"), b"Ladies and Gentl");
}

#[test]
fn encryption_refuses_keys_of_other_lengths() {
    let err = encrypt_bytes(b"text", &[0u8; 31]).expect_err("short key");
    assert!(matches!(err, VaultError::Crypto("invalid key length")));
    let payload = encrypt_bytes(b"text", &[7u8; 32]).expect("encrypt");
    let err = decrypt_bytes(&payload, &[7u8; 33]).expect_err("long key");
    assert!(matches!(err, VaultError::Crypto("invalid key length")));
}

#[test]
fn decryption_names_what_is_wrong() {
    let key = [7u8; 32];
    let payload = encrypt_bytes(b"text", &key).expect("encrypt");
    let with = |nonce: &str, ciphertext: &str| {
        decrypt_bytes(
            &EncryptedPayload {
                nonce_b64: nonce.to_string(),
                ciphertext_b64: ciphertext.to_string(),
            },
            &key,
        )
    };
    assert!(matches!(
        with("***", &payload.ciphertext_b64),
        Err(VaultError::InvalidData("invalid base64 value"))
    ));
    assert!(matches!(
        with("AAAA", &payload.ciphertext_b64),
        Err(VaultError::InvalidData("invalid nonce length"))
    ));
    assert!(matches!(
        with(&payload.nonce_b64, "***"),
        Err(VaultError::InvalidData("ciphertext is not valid base64"))
    ));
    assert!(matches!(
        with(&payload.nonce_b64, "AAAA"),
        Err(VaultError::Crypto("decryption failed"))
    ));
    assert!(matches!(
        decrypt_bytes(&payload, &[8u8; 32]),
        Err(VaultError::Crypto("decryption failed"))
    ));
    assert_eq!(with(&payload.nonce_b64, &payload.ciphertext_b64).expect("decrypt"), b"text");
}

#[test]
fn nonces_and_salts_are_fresh() {
    let key = [7u8; 32];
    let one = encrypt_bytes(b"text", &key).expect("encrypt");
    let two = encrypt_bytes(b"text", &key).expect("encrypt");
    assert_ne!(one.nonce_b64, two.nonce_b64);
    assert_ne!(one.ciphertext_b64, two.ciphertext_b64);
    let one = wrap_key_with_secret("secret", &key, cheap()).expect("wrap");
    let two = wrap_key_with_secret("secret", &key, cheap()).expect("wrap");
    assert_ne!(one.salt_b64, two.salt_b64);
}

#[test]
fn fixed_fields_are_decoded() {
    assert_eq!(decode_fixed("salt", "AAECAw==", 4).expect("four bytes"), vec![0, 1, 2, 3]);
    assert!(matches!(
        decode_fixed("salt", "AAECAw==", 16),
        Err(VaultError::InvalidData("invalid salt length"))
    ));
    assert!(matches!(
        decode_fixed("nonce", "AAECAw==", 24),
        Err(VaultError::InvalidData("invalid nonce length"))
    ));
    assert!(matches!(
        decode_fixed("other", "AAECAw==", 5),
        Err(VaultError::InvalidData("invalid field length"))
    ));
    assert!(matches!(
        decode_fixed("salt", "AAECAw", 4),
        Err(VaultError::InvalidData("invalid base64 value"))
    ));
}

#[test]
fn derivation_refuses_bad_costs_and_salts() {
    for (memory_kib, iterations, parallelism) in
        [(7, 1, 1), (8, 0, 1), (8, 1, 0), (15, 1, 2), (8, 1, u32::MAX), (8, 1, 0x2000_0001)]
    {
        let kdf = KdfConfig { memory_kib, iterations, parallelism };
        assert!(matches!(
            derive_key("secret", &[0u8; 16], kdf),
            Err(VaultError::Crypto("invalid argon2 params"))
        ));
    }
    assert!(matches!(
        derive_key("secret", &[0u8; 7], cheap()),
        Err(VaultError::Crypto("argon2 derivation failed"))
    ));
    assert_eq!(derive_key("secret", &[0u8; 8], cheap()).expect("derive").len(), 32);
}

#[test]
fn default_cost_of_a_wrapped_key() {
    let kdf = default_kdf();
    assert_eq!((kdf.memory_kib, kdf.iterations, kdf.parallelism), (19_456, 2, 1));
}

#[test]
fn wrapped_keys_come_out_under_their_secret_only() {
    let key = vec![9u8; 32];
    let wrapped = wrap_key_with("secret", &key, cheap(), &[1u8; 16], &[2u8; 24]).expect("wrap");
    assert_eq!(wrapped.salt_b64, "AQEBAQEBAQEBAQEBAQEBAQ==");
    assert_eq!(wrapped.nonce_b64, "AgICAgICAgICAgICAgICAgICAgICAgIC");
    assert_eq!(unwrap_key_with_secret("secret", &wrapped).expect("unwrap"), key);
    assert!(matches!(
        unwrap_key_with_secret("Secret", &wrapped),
        Err(VaultError::Crypto("decryption failed"))
    ));
    let mut broken = wrapped.clone();
    broken.salt_b64 = "AAAA".to_string();
    assert!(matches!(
        unwrap_key_with_secret("secret", &broken),
        Err(VaultError::InvalidData("invalid salt length"))
    ));
}

#[test]
fn recovery_policy() {
    assert!(validate_recovery_policy(true, 0).is_ok());
    assert!(validate_recovery_policy(false, 2).is_ok());
    for count in 0..2 {
        assert!(matches!(
            validate_recovery_policy(false, count),
            Err(VaultError::InvalidData(
                "vault must have password unlock or at least two passkeys for recovery"
            ))
        ));
    }
}

#[test]
fn create_refuses_blank_passwords() {
    for blank in ["", "  ", "\t\n", "\u{3000}\u{2028}"] {
        let err = Vault::create(some_path("blank"), Some(blank), &[], USER, encode)
            .expect_err("blank password");
        assert_eq!(text_of(&err), "invalid input: password must not be empty");
    }
}

#[test]
fn create_hands_on_what_the_encoder_refuses() {
    let refuse = |_: &VaultPayload| -> Result<Vec<u8>, VaultError> {
        Err(VaultError::InvalidData("refused"))
    };
    let err = Vault::create(some_path("refused"), Some("pw"), &[], USER, refuse)
        .expect_err("refused");
    assert!(matches!(err, VaultError::InvalidData("refused")));
}

#[test]
fn a_new_vault_and_its_fields() {
    let path = some_path("fields");
    let passkeys = [("key-1".to_string(), "one".to_string()), ("key-2".to_string(), "two".to_string())];
    let vault = Vault::create(path.clone(), None, &passkeys, USER, encode).expect("create");
    assert_eq!(vault.path(), &path);
    assert!(!vault.has_password());
    assert_eq!(vault.passkey_ids(), vec!["key-1", "key-2"]);
    let disk = stored(&vault);
    assert_eq!(disk.version, 1);
    assert_eq!(disk.owner_user.as_deref(), Some(USER));
    assert!(disk.token_metadata.is_empty());
    for (id, secret) in &passkeys {
        let unlocked = vault.unlock_with_passkey(id, secret, decode).expect("unlock");
        assert_eq!(unlocked.key().len(), 32);
        assert_eq!(unlocked.providers().len(), 0);
    }
}

#[test]
fn unlocking_names_what_is_wrong() {
    let passkeys = [("key-1".to_string(), "one".to_string()), ("key-2".to_string(), "two".to_string())];
    let vault = Vault::create(some_path("wrong"), None, &passkeys, USER, encode).expect("create");
    let err = vault.unlock_with_password("pw", decode).expect_err("no password");
    assert_eq!(text_of(&err), "invalid input: password login is not configured");
    let err = vault.unlock_with_passkey("key-3", "one", decode).expect_err("unknown");
    assert_eq!(text_of(&err), "invalid input: unknown passkey credential id");
    let err = vault.unlock_with_passkey("key-1", "two", decode).expect_err("wrong secret");
    assert_eq!(text_of(&err), "crypto error: decryption failed");
}

#[test]
fn a_payload_that_cannot_be_read() {
    let vault = Vault::create(
        some_path("unreadable"),
        Some("pw"),
        &[],
        USER,
        |_: &VaultPayload| -> Result<Vec<u8>, VaultError> { Ok(b"not json".to_vec()) },
    )
    .expect("create");
    let err = vault.unlock_with_password("pw", decode).expect_err("not json");
    assert!(matches!(err, VaultError::Serde(_)));
    assert!(text_of(&err).starts_with("serialization error: "));
}

#[test]
fn unlocking_with_the_master_key() {
    let mut vault = Vault::create(some_path("master"), Some("pw"), &[], USER, encode)
        .expect("create");
    let mut unlocked = vault.unlock_with_password("pw", decode).expect("unlock");
    unlocked.upsert_token("teams", vec![], None, "a", "r");
    vault.commit(&unlocked, encode).expect("commit");
    let key = unlocked.key().to_vec();
    let again = vault.unlock_with_master_key(key.clone(), decode).expect("master key");
    assert_eq!(again.secret_for("teams").map(|secret| secret.refresh_token.as_str()), Some("r"));
    let empty = vault.unlock_with_payload(key, VaultPayload::default());
    assert!(empty.secret_for("teams").is_none());
    assert_eq!(empty.providers(), vec!["teams"]);
    assert!(vault.unlock_with_master_key(vec![0u8; 5], decode).is_err());
}

#[test]
fn open_takes_up_what_was_stored() {
    let path = some_path("open");
    let vault = Vault::create(path.clone(), Some("pw"), &[], USER, encode).expect("create");
    let mut disk = stored(&vault);
    disk.owner_user = None;
    let opened = Vault::open(path.clone(), disk.clone(), USER).expect("without owner");
    assert_eq!(stored(&opened).owner_user.as_deref(), Some(USER));

    disk.version = 2;
    let err = Vault::open(path.clone(), disk.clone(), USER).expect_err("version");
    assert_eq!(text_of(&err), "invalid data: unsupported vault version");

    disk.version = 1;
    disk.password_envelope = None;
    let err = Vault::open(path, disk, USER).expect_err("policy");
    assert!(matches!(err, VaultError::InvalidData(_)));
}

#[test]
fn names_of_the_user() {
    let user = |user: Option<&str>, username: Option<&str>| {
        Vault::current_os_user(user.map(str::to_string), username.map(str::to_string))
    };
    assert_eq!(user(Some("ada"), Some("grace")), "ada");
    assert_eq!(user(None, Some("grace")), "grace");
    assert_eq!(user(Some("  "), Some("grace")), "unknown-user");
    assert_eq!(user(None, Some("")), "unknown-user");
    assert_eq!(user(None, None), "unknown-user");
}

#[test]
fn commit_keeps_metadata_and_hands_on_refusals() {
    let mut vault = Vault::create(some_path("commit"), Some("pw"), &[], USER, encode)
        .expect("create");
    let mut unlocked = vault.unlock_with_password("pw", decode).expect("unlock");
    unlocked.upsert_token("slack", vec!["a".to_string()], Some(1), "x", "y");
    unlocked.upsert_token("teams", vec![], None, "t", "u");
    unlocked.upsert_token("slack", vec!["b".to_string()], Some(2), "z", "w");
    vault.commit(&unlocked, encode).expect("commit");
    let disk = stored(&vault);
    let providers: Vec<&str> =
        disk.token_metadata.iter().map(|entry| entry.provider.as_str()).collect();
    assert_eq!(providers, vec!["slack", "teams"]);
    assert_eq!(disk.token_metadata[0].scopes, vec!["b".to_string()]);
    assert_eq!(disk.token_metadata[0].expires_at_epoch_secs, Some(2));

    let again = vault.unlock_with_password("pw", decode).expect("unlock again");
    assert_eq!(again.metadata_for("slack"), unlocked.metadata_for("slack"));
    assert_eq!(again.secret_for("slack"), unlocked.secret_for("slack"));
    assert_eq!(again.secret_for("teams"), unlocked.secret_for("teams"));
    assert!(again.metadata_for("google_chat").is_none());

    let refuse = |_: &VaultPayload| -> Result<Vec<u8>, VaultError> {
        Err(VaultError::Crypto("refused"))
    };
    let err = vault.commit(&unlocked, refuse).expect_err("refused");
    assert!(matches!(err, VaultError::Crypto("refused")));
}

#[test]
fn a_rotated_password_replaces_the_old_one() {
    let mut vault = Vault::create(some_path("rotate"), Some("old"), &[], USER, encode)
        .expect("create");
    let unlocked = vault.unlock_with_password("old", decode).expect("unlock");
    let err = vault.rotate_password(&unlocked, "").expect_err("empty");
    assert_eq!(text_of(&err), "invalid input: new password must not be empty");
    vault.rotate_password(&unlocked, "new").expect("rotate");
    let reopened = vault.unlock_with_password("new", decode).expect("new password");
    assert_eq!(reopened.key(), unlocked.key());
    assert!(vault.unlock_with_password("old", decode).is_err());
}

#[test]
fn passkeys_are_enrolled_and_replaced() {
    let mut vault = Vault::create(some_path("enroll"), Some("pw"), &[], USER, encode)
        .expect("create");
    let unlocked = vault.unlock_with_password("pw", decode).expect("unlock");
    let err = vault.enroll_passkey(&unlocked, "", "secret").expect_err("no id");
    assert_eq!(text_of(&err), "invalid input: credential_id must not be empty");
    let err = vault.enroll_passkey(&unlocked, "key-1", "").expect_err("no secret");
    assert_eq!(text_of(&err), "invalid input: passkey secret must not be empty");
    vault.enroll_passkey(&unlocked, "key-1", "one").expect("enroll");
    vault.enroll_passkey(&unlocked, "key-2", "two").expect("enroll");
    vault.enroll_passkey(&unlocked, "key-1", "three").expect("replace");
    assert_eq!(vault.passkey_ids(), vec!["key-2", "key-1"]);
    assert!(vault.unlock_with_passkey("key-1", "one", decode).is_err());
    let reopened = vault.unlock_with_passkey("key-1", "three", decode).expect("unlock");
    assert_eq!(reopened.key(), unlocked.key());
    assert!(vault.unlock_with_passkey("key-2", "two", decode).is_ok());
}

#[test]
fn a_lone_passkey_enrolled_over_its_double_breaks_the_policy() {
    let double = [("key-1".to_string(), "one".to_string()), ("key-1".to_string(), "two".to_string())];
    let mut vault = Vault::create(some_path("double"), None, &double, USER, encode)
        .expect("create");
    let unlocked = vault.unlock_with_passkey("key-1", "one", decode).expect("first counts");
    assert!(vault.unlock_with_passkey("key-1", "two", decode).is_err());
    let err = vault.enroll_passkey(&unlocked, "key-1", "three").expect_err("policy");
    assert!(matches!(err, VaultError::InvalidData(_)));
    assert_eq!(vault.passkey_ids(), vec!["key-1"]);
}

#[test]
fn passkeys_are_revoked() {
    let passkeys = [("key-1".to_string(), "one".to_string()), ("key-2".to_string(), "two".to_string())];
    let mut vault = Vault::create(some_path("revoke"), Some("pw"), &passkeys, USER, encode)
        .expect("create");
    let err = vault.revoke_passkey("key-3").expect_err("unknown");
    assert_eq!(text_of(&err), "invalid input: passkey credential id not found");
    vault.revoke_passkey("key-1").expect("revoke");
    assert_eq!(vault.passkey_ids(), vec!["key-2"]);
    assert!(vault.unlock_with_passkey("key-1", "one", decode).is_err());
    assert!(vault.unlock_with_passkey("key-2", "two", decode).is_ok());
}

#[test]
fn revoking_the_second_last_passkey_breaks_the_policy() {
    let passkeys = [("key-1".to_string(), "one".to_string()), ("key-2".to_string(), "two".to_string())];
    let mut vault = Vault::create(some_path("last"), None, &passkeys, USER, encode)
        .expect("create");
    let err = vault.revoke_passkey("key-1").expect_err("policy");
    assert!(matches!(err, VaultError::InvalidData(_)));
}

#[test]
fn texts_of_errors() {
    let io = std::io::Error::new(std::io::ErrorKind::NotFound, "no such file");
    assert_eq!(text_of(&VaultError::from(io)), "io error: no such file");
    let json = serde_json::from_str::<Value>("{").expect_err("not json");
    let detail = json.to_string();
    assert_eq!(text_of(&VaultError::from(json)), format!("serialization error: {detail}"));
    assert_eq!(text_of(&VaultError::Crypto("a")), "crypto error: a");
    assert_eq!(text_of(&VaultError::InvalidData("b")), "invalid data: b");
    assert_eq!(text_of(&VaultError::InvalidInput("c".to_string())), "invalid input: c");
}

#[test]
fn a_vault_is_made_under_the_key_that_is_given() {
    let key: Vec<u8> = (0..32).collect();
    let vault = Vault::create_with_key(
        some_path("given"),
        Some("pw"),
        &[("key-1".to_string(), "one".to_string())],
        USER,
        encode,
        key.clone(),
    )
    .expect("create");
    let by_password = vault.unlock_with_password("pw", decode).expect("password");
    let by_passkey = vault.unlock_with_passkey("key-1", "one", decode).expect("passkey");
    assert_eq!(by_password.key(), key.as_slice());
    assert_eq!(by_passkey.key(), key.as_slice());
}

#[test]
fn the_keys_of_new_vaults_are_drawn() {
    let key = || {
        let vault = Vault::create(some_path("drawn"), Some("pw"), &[], USER, encode)
            .expect("create");
        vault.unlock_with_password("pw", decode).expect("unlock").key().to_vec()
    };
    let (one, two) = (key(), key());
    assert_ne!(one, two);
    assert_ne!(one, vec![0u8; 32]);
}

#[test]
fn password_and_passkeys_agree_after_any_operations() {
    let path = some_path("agree");
    let passkeys = [("key-1".to_string(), "one".to_string())];
    let mut vault = Vault::create(path.clone(), Some("pw"), &passkeys, USER, encode)
        .expect("create");
    let mut unlocked = vault.unlock_with_password("pw", decode).expect("unlock");
    unlocked.upsert_token("slack", vec!["a".to_string()], Some(1), "x", "y");
    vault.commit(&unlocked, encode).expect("commit");
    vault.enroll_passkey(&unlocked, "key-2", "two").expect("enroll");
    unlocked.upsert_token("teams", vec![], None, "t", "u");
    vault.commit(&unlocked, encode).expect("commit again");
    vault.rotate_password(&unlocked, " ").expect("rotate");
    vault.revoke_passkey("key-1").expect("revoke");
    unlocked.upsert_token("google_chat", vec![], None, "never", "committed");

    let reopened = Vault::open(path.clone(), stored(&vault), USER).expect("reopen");
    assert_eq!(reopened.path(), &path);
    assert!(reopened.has_password());
    assert_eq!(reopened.passkey_ids(), vec!["key-2"]);
    let by_password = reopened.unlock_with_password(" ", decode).expect("password");
    let by_passkey = reopened.unlock_with_passkey("key-2", "two", decode).expect("passkey");
    assert_eq!(by_password.key(), by_passkey.key());
    assert_eq!(by_password.providers(), vec!["slack", "teams"]);
    for provider in ["slack", "teams", "google_chat"] {
        assert_eq!(by_password.metadata_for(provider), by_passkey.metadata_for(provider));
        assert_eq!(by_password.secret_for(provider), by_passkey.secret_for(provider));
    }
    let err = reopened.unlock_with_passkey("key-1", "one", decode).expect_err("revoked");
    assert_eq!(text_of(&err), "invalid input: unknown passkey credential id");
}
