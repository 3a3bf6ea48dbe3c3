use mcp_credentials_vault::adk_vault::AdkVaultBackend;
use mcp_credentials_vault::error::VaultError;
use mcp_credentials_vault::types::{
    AuditAction, AuditOutcome, BackendType, Credential, CredentialHandle, CredentialStatus,
    RiskLevel, RotationPolicy, Timestamp,
};

fn credential(id: &str, owner: &str, scope: &[&str]) -> Credential {
    Credential {
        id: id.to_string(),
        display_name: format!("{} key", id),
        owner: owner.to_string(),
        scope: scope.iter().map(|s| s.to_string()).collect(),
        backend: BackendType::AdkVault,
        risk_level: RiskLevel::Medium,
        rotation_policy: Some(RotationPolicy {
            interval_days: 90,
            auto_rotate: true,
            notify_before_days: Some(7),
        }),
        expires_at: None,
        last_rotated: None,
        last_accessed: None,
        status: CredentialStatus::Active,
        tags: vec!["env:dev".to_string()],
    }
}

#[test]
fn get_after_insert_returns_the_credential() {
    let mut vault = AdkVaultBackend::new();
    vault.insert(credential("vault://test-api-key", "platform", &["agent-1", "mcp-github"]));
    let c = vault.get_credential("vault://test-api-key").unwrap();
    assert_eq!(c.id, "vault://test-api-key");
    assert_eq!(c.owner, "platform");
    assert_eq!(c.scope, vec!["agent-1".to_string(), "mcp-github".to_string()]);
    assert_eq!(c.tags, vec!["env:dev".to_string()]);
}

#[test]
fn insert_replaces_a_credential_with_the_same_id() {
    let mut vault = AdkVaultBackend::new();
    vault.insert(credential("vault://a", "first", &[]));
    vault.insert(credential("vault://b", "other", &[]));
    vault.insert(credential("vault://a", "second", &[]));
    let all = vault.list_credentials().unwrap();
    assert_eq!(all.len(), 2);
    assert_eq!(all[0].id, "vault://a");
    assert_eq!(all[0].owner, "second");
    assert_eq!(all[1].id, "vault://b");
}

#[test]
fn get_unknown_credential_is_not_found() {
    let vault = AdkVaultBackend::new();
    match vault.get_credential("vault://missing") {
        Err(VaultError::NotFound(id)) => assert_eq!(id, "vault://missing"),
        _ => panic!("expected NotFound"),
    }
}

#[test]
fn health_check_and_backend_type() {
    let vault = AdkVaultBackend::new();
    assert!(vault.health_check().is_ok());
    assert_eq!(vault.backend_type(), BackendType::AdkVault);
}

#[test]
fn runtime_handle_is_scoped_and_audited() {
    let mut vault = AdkVaultBackend::new();
    vault.insert(credential("vault://k", "platform", &[]));
    let scope = vec!["agent-1".to_string()];
    let h = vault.issue_runtime_handle("vault://k", &scope, 60).unwrap();
    assert_eq!(h.credential_id, "vault://k");
    assert_eq!(h.scope, scope);
    assert_eq!(h.handle_id.len(), 36);
    let events = vault.audit_log(Some("vault://k"), 10).unwrap();
    assert_eq!(events.len(), 1);
    assert_eq!(events[0].action, AuditAction::Access);
    assert_eq!(events[0].outcome, AuditOutcome::Success);
    assert_eq!(events[0].actor, "system");
    assert_eq!(events[0].reason, None);
    assert_eq!(h.expires_at.secs, events[0].timestamp.secs + 60);
}

#[test]
fn runtime_handle_with_given_clock_expires_after_ttl() {
    let mut vault = AdkVaultBackend::new();
    vault.insert(credential("vault://k", "platform", &[]));
    let now = Timestamp { secs: 1_700_000_000, nanos: 5 };
    let h = vault
        .issue_runtime_handle_at("vault://k", &vec![], 300, "e1".into(), now, "h1".into(), now)
        .unwrap();
    assert_eq!(h.expires_at, Timestamp { secs: 1_700_000_300, nanos: 5 });
    assert_eq!(h.handle_id, "h1");
}

#[test]
fn runtime_handle_for_unknown_credential_is_denied_and_audited() {
    let mut vault = AdkVaultBackend::new();
    match vault.issue_runtime_handle("vault://nope", &vec![], 60) {
        Err(VaultError::NotFound(id)) => assert_eq!(id, "vault://nope"),
        _ => panic!("expected NotFound"),
    }
    let events = vault.audit_log(None, 10).unwrap();
    assert_eq!(events.len(), 1);
    assert_eq!(events[0].action, AuditAction::Denied);
    assert_eq!(events[0].outcome, AuditOutcome::Denied);
    assert_eq!(events[0].credential_id, "vault://nope");
}

#[test]
fn expiry_past_the_last_instant_is_an_internal_error() {
    let mut vault = AdkVaultBackend::new();
    vault.insert(credential("vault://k", "platform", &[]));
    match vault.issue_runtime_handle("vault://k", &vec![], 9_000_000_000_000_000) {
        Err(VaultError::Internal(m)) => assert_eq!(m, "expiry out of range"),
        _ => panic!("expected Internal"),
    }
    assert!(vault.audit_log(None, 10).unwrap().is_empty());
}

#[test]
fn workload_token_is_internal_and_audited() {
    let mut vault = AdkVaultBackend::new();
    vault.insert(credential("vault://k", "platform", &[]));
    let t = vault.mint_workload_token("vault://k", "https://api.example.com", 300).unwrap();
    assert_eq!(t.token_type, "adk-internal");
    assert_eq!(t.audience, "https://api.example.com");
    assert_eq!(t.credential_id, "vault://k");
    assert_eq!(t.token_id.len(), 36);
    let events = vault.audit_log(None, 10).unwrap();
    assert_eq!(events.len(), 1);
    assert_eq!(events[0].action, AuditAction::TokenMinted);
}

#[test]
fn workload_token_for_unknown_credential_records_nothing() {
    let mut vault = AdkVaultBackend::new();
    assert!(matches!(
        vault.mint_workload_token("vault://nope", "aud", 300),
        Err(VaultError::NotFound(_))
    ));
    assert!(vault.audit_log(None, 10).unwrap().is_empty());
}

#[test]
fn rotate_reactivates_and_stamps_the_credential() {
    let mut vault = AdkVaultBackend::new();
    let mut c = credential("vault://k", "platform", &[]);
    c.status = CredentialStatus::Revoked;
    vault.insert(c);
    let at = Timestamp { secs: 1_000, nanos: 0 };
    vault.rotate_at("vault://k", at, "e".into(), at).unwrap();
    let c = vault.get_credential("vault://k").unwrap();
    assert_eq!(c.status, CredentialStatus::Active);
    assert_eq!(c.last_rotated, Some(at));
    let events = vault.audit_log(None, 10).unwrap();
    assert_eq!(events[0].action, AuditAction::Rotated);
}

#[test]
fn revoke_then_get_shows_revoked() {
    let mut vault = AdkVaultBackend::new();
    vault.insert(credential("vault://k", "platform", &[]));
    vault.insert(credential("vault://other", "platform", &[]));
    vault.revoke("vault://k").unwrap();
    assert_eq!(vault.get_credential("vault://k").unwrap().status, CredentialStatus::Revoked);
    assert_eq!(vault.get_credential("vault://other").unwrap().status, CredentialStatus::Active);
    assert_eq!(vault.audit_log(None, 10).unwrap()[0].action, AuditAction::Revoked);
}

#[test]
fn rotate_and_revoke_unknown_change_nothing() {
    let mut vault = AdkVaultBackend::new();
    assert!(matches!(vault.rotate("vault://x"), Err(VaultError::NotFound(_))));
    assert!(matches!(vault.revoke("vault://x"), Err(VaultError::NotFound(_))));
    assert!(vault.audit_log(None, 10).unwrap().is_empty());
    assert!(vault.list_credentials().unwrap().is_empty());
}

#[test]
fn audit_log_is_newest_first_filtered_and_limited() {
    let mut vault = AdkVaultBackend::new();
    vault.insert(credential("vault://a", "p", &[]));
    vault.insert(credential("vault://b", "p", &[]));
    let t = |s: i64| Timestamp { secs: s, nanos: 0 };
    vault.rotate_at("vault://a", t(1), "1".into(), t(1)).unwrap();
    vault.rotate_at("vault://b", t(2), "2".into(), t(2)).unwrap();
    vault.revoke_at("vault://a", "3".into(), t(3)).unwrap();
    vault.revoke_at("vault://b", "4".into(), t(4)).unwrap();
    let all = vault.audit_log(None, 50).unwrap();
    let ids: Vec<&str> = all.iter().map(|e| e.event_id.as_str()).collect();
    assert_eq!(ids, vec!["4", "3", "2", "1"]);
    let a = vault.audit_log(Some("vault://a"), 50).unwrap();
    let ids: Vec<&str> = a.iter().map(|e| e.event_id.as_str()).collect();
    assert_eq!(ids, vec!["3", "1"]);
    let one = vault.audit_log(Some("vault://b"), 1).unwrap();
    assert_eq!(one.len(), 1);
    assert_eq!(one[0].event_id, "4");
    assert!(vault.audit_log(None, 0).unwrap().is_empty());
}

#[test]
fn audit_trail_only_grows() {
    let mut vault = AdkVaultBackend::new();
    vault.insert(credential("vault://a", "p", &[]));
    let before = vault.audit_log(None, 100).unwrap().len();
    vault.issue_runtime_handle("vault://a", &vec![], 5).unwrap();
    vault.issue_runtime_handle("vault://zz", &vec![], 5).unwrap_err();
    vault.rotate("vault://a").unwrap();
    let after = vault.audit_log(None, 100).unwrap();
    assert_eq!(after.len(), before + 3);
    assert_eq!(after[2].action, AuditAction::Access);
}

#[test]
fn handle_keeps_metadata_without_tags() {
    let c = credential("vault://k", "platform", &["agent-1"]);
    let h = CredentialHandle::from(&c);
    assert_eq!(h.id, c.id);
    assert_eq!(h.display_name, c.display_name);
    assert_eq!(h.owner, c.owner);
    assert_eq!(h.scope, c.scope);
    assert_eq!(h.status, c.status);
    assert_eq!(h.rotation_policy, c.rotation_policy);
}

#[test]
fn clone_of_a_credential_is_equal_field_by_field() {
    let c = credential("vault://k", "platform", &["x"]);
    let d = c.clone();
    assert_eq!(d.id, c.id);
    assert_eq!(d.scope, c.scope);
    assert_eq!(d.tags, c.tags);
}

#[test]
fn error_messages_name_their_kind() {
    assert_eq!(VaultError::NotFound("x".into()).message(), "credential not found: x");
    assert_eq!(VaultError::AccessDenied("x".into()).message(), "access denied: x");
    assert_eq!(VaultError::Unavailable("x".into()).message(), "backend unavailable: x");
    assert_eq!(VaultError::AuthFailed("x".into()).message(), "authentication failed: x");
    assert_eq!(VaultError::RotationFailed("x".into()).message(), "rotation failed: x");
    assert_eq!(VaultError::InvalidScope("x".into()).message(), "invalid scope: x");
    assert_eq!(VaultError::TokenMintFailed("x".into()).message(), "token minting failed: x");
    assert_eq!(VaultError::Internal("x".into()).message(), "internal error: x");
}

#[test]
fn timestamps_order_and_add() {
    let a = Timestamp { secs: 10, nanos: 5 };
    let b = Timestamp { secs: 10, nanos: 6 };
    assert!(a.is_before(&b));
    assert!(!b.is_before(&a));
    assert_eq!(a.plus_seconds(5), Some(Timestamp { secs: 15, nanos: 5 }));
    let last = Timestamp { secs: 8_210_266_876_799, nanos: 0 };
    assert_eq!(last.plus_seconds(1), None);
    assert_eq!(Timestamp::epoch(), Timestamp { secs: 0, nanos: 0 });
}


#[test]
fn runtime_handle_outside_the_credential_scope_is_denied_and_audited() {
    let mut vault = AdkVaultBackend::new();
    vault.insert(credential("vault://k", "platform", &["agent-a"]));
    let asked = vec!["agent-a".to_string(), "agent-b".to_string()];
    match vault.issue_runtime_handle("vault://k", &asked, 60) {
        Err(VaultError::AccessDenied(id)) => assert_eq!(id, "vault://k"),
        _ => panic!("expected AccessDenied"),
    }
    let events = vault.audit_log(None, 10).unwrap();
    assert_eq!(events.len(), 1);
    assert_eq!(events[0].action, AuditAction::Denied);
    assert_eq!(events[0].outcome, AuditOutcome::Denied);
    assert_eq!(events[0].credential_id, "vault://k");
    let h = vault.issue_runtime_handle("vault://k", &vec!["agent-a".to_string()], 60).unwrap();
    assert_eq!(h.scope, vec!["agent-a".to_string()]);
    assert_eq!(vault.audit_log(None, 10).unwrap()[0].action, AuditAction::Access);
}

#[test]
fn out_of_scope_request_is_denied_even_when_the_expiry_overflows() {
    let mut vault = AdkVaultBackend::new();
    vault.insert(credential("vault://k", "platform", &["agent-a"]));
    let now = Timestamp { secs: 10, nanos: 0 };
    match vault.issue_runtime_handle_at(
        "vault://k",
        &vec!["intruder".to_string()],
        60,
        "e1".into(),
        now,
        "h1".into(),
        now,
    ) {
        Err(VaultError::AccessDenied(_)) => {}
        _ => panic!("expected AccessDenied"),
    }
    match vault.issue_runtime_handle("vault://k", &vec!["intruder".to_string()], u64::MAX) {
        Err(VaultError::AccessDenied(_)) => {}
        _ => panic!("expected AccessDenied"),
    }
    assert_eq!(vault.audit_log(None, 10).unwrap().len(), 2);
}
