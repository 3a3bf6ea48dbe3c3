use mcp_credentials_vault::error::VaultError;
use mcp_credentials_vault::server::{
    actor_allowed, continue_backend_search, list_credentials_reply, merge_audit_events,
    metadata_reply, revocation_reply, rotation_reply, runtime_secret_reply, scope_reply,
    start_backend_search, workload_token_reply, AuditCredentialAccessInput, BackendSearch,
    ListCredentialsInput, RequestRuntimeSecretInput, RequestWorkloadTokenInput, ToolReply,
};
use mcp_credentials_vault::types::{
    AuditAction, AuditEvent, AuditOutcome, BackendType, Credential, CredentialStatus, RiskLevel,
    RuntimeSecretHandle, Timestamp, WorkloadToken,
};

fn cred(id: &str, owner: &str, backend: BackendType, scope: &[&str]) -> Credential {
    Credential {
        id: id.to_string(),
        display_name: id.to_string(),
        owner: owner.to_string(),
        scope: scope.iter().map(|s| s.to_string()).collect(),
        backend,
        risk_level: RiskLevel::Low,
        rotation_policy: None,
        expires_at: None,
        last_rotated: None,
        last_accessed: None,
        status: CredentialStatus::Active,
        tags: vec![],
    }
}

fn event(id: &str, secs: i64) -> AuditEvent {
    AuditEvent {
        event_id: id.to_string(),
        credential_id: "vault://x".to_string(),
        action: AuditAction::Access,
        actor: "system".to_string(),
        timestamp: Timestamp { secs, nanos: 0 },
        outcome: AuditOutcome::Success,
        reason: None,
    }
}

fn text(r: ToolReply) -> String {
    match r {
        ToolReply::Text(t) => t,
        other => panic!("expected text, got {:?}", other),
    }
}

#[test]
fn empty_scope_allows_every_actor() {
    assert!(actor_allowed(&vec![], "anyone"));
}

#[test]
fn scope_allows_only_listed_actors() {
    let scope = vec!["mcp-github-server".to_string(), "agent-deploy".to_string()];
    assert!(actor_allowed(&scope, "agent-deploy"));
    assert!(!actor_allowed(&scope, "agent-other"));
}

#[test]
fn scope_reply_reports_decision_scope_and_status() {
    let c = cred("vault://my-api-key", "p", BackendType::Aws, &["mcp-github-server"]);
    match scope_reply("vault://my-api-key", "mcp-github-server", Some(Ok(c))) {
        ToolReply::Scope(s) => {
            assert!(s.allowed);
            assert_eq!(s.actor, "mcp-github-server");
            assert_eq!(s.credential_id, "vault://my-api-key");
            assert_eq!(s.scope, vec!["mcp-github-server".to_string()]);
            assert_eq!(s.status, CredentialStatus::Active);
        }
        other => panic!("unexpected {:?}", other),
    }
    assert_eq!(
        text(scope_reply("vault://none", "a", None)),
        "Credential not found: vault://none"
    );
}

#[test]
fn search_stops_at_first_backend_that_holds_the_credential() {
    assert_eq!(start_backend_search(0), BackendSearch::NotFound);
    assert_eq!(start_backend_search(3), BackendSearch::Probe(0));
    assert_eq!(continue_backend_search(0, false, 3), BackendSearch::Probe(1));
    assert_eq!(continue_backend_search(1, true, 3), BackendSearch::Found(1));
    assert_eq!(continue_backend_search(2, false, 3), BackendSearch::NotFound);
}

#[test]
fn default_lifetimes_and_limit() {
    let r = RequestRuntimeSecretInput { credential_id: "x".into(), scope: vec![], ttl_seconds: None };
    assert_eq!(r.ttl(), 300);
    let r = RequestRuntimeSecretInput { credential_id: "x".into(), scope: vec![], ttl_seconds: Some(60) };
    assert_eq!(r.ttl(), 60);
    let w = RequestWorkloadTokenInput { credential_id: "x".into(), audience: "a".into(), ttl_seconds: None };
    assert_eq!(w.ttl(), 3600);
    let a = AuditCredentialAccessInput { credential_id: None, limit: None };
    assert_eq!(a.event_limit(), 50);
    let a = AuditCredentialAccessInput { credential_id: None, limit: Some(5) };
    assert_eq!(a.event_limit(), 5);
}

#[test]
fn listing_filters_by_backend_name_and_owner() {
    let lists = vec![
        Ok(vec![
            cred("vault://a", "aws-team", BackendType::Aws, &[]),
            cred("vault://b", "platform", BackendType::AdkVault, &[]),
        ]),
        Err(VaultError::Unavailable("down".into())),
        Ok(vec![cred("vault://c", "platform", BackendType::Gcp, &[])]),
    ];
    let all = list_credentials_reply(&ListCredentialsInput { backend: None, owner: None }, &lists);
    let ids: Vec<&str> = all.iter().map(|h| h.id.as_str()).collect();
    assert_eq!(ids, vec!["vault://a", "vault://b", "vault://c"]);
    for (name, expected) in [
        ("aws", "vault://a"),
        ("adk_vault", "vault://b"),
        ("gcp", "vault://c"),
    ] {
        let only = list_credentials_reply(
            &ListCredentialsInput { backend: Some(name.to_string()), owner: None },
            &lists,
        );
        assert_eq!(only.len(), 1);
        assert_eq!(only[0].id, expected);
    }
    let none = list_credentials_reply(
        &ListCredentialsInput { backend: Some("azure".to_string()), owner: None },
        &lists,
    );
    assert!(none.is_empty());
    let owners = list_credentials_reply(
        &ListCredentialsInput { backend: None, owner: Some("plat".to_string()) },
        &lists,
    );
    assert_eq!(owners.len(), 2);
    let both = list_credentials_reply(
        &ListCredentialsInput { backend: Some("\"gcp\"".to_string()), owner: Some("platform".to_string()) },
        &lists,
    );
    assert_eq!(both.len(), 1);
    assert_eq!(both[0].id, "vault://c");
}

#[test]
fn merged_audit_is_newest_first_stable_and_limited() {
    let lists = vec![
        Ok(vec![event("a1", 1), event("a5", 5), event("a3", 3)]),
        Err(VaultError::Internal("x".into())),
        Ok(vec![event("b3", 3), event("b9", 9)]),
    ];
    let merged = merge_audit_events(&lists, 50);
    let ids: Vec<&str> = merged.iter().map(|e| e.event_id.as_str()).collect();
    assert_eq!(ids, vec!["b9", "a5", "a3", "b3", "a1"]);
    let top = merge_audit_events(&lists, 2);
    let ids: Vec<&str> = top.iter().map(|e| e.event_id.as_str()).collect();
    assert_eq!(ids, vec!["b9", "a5"]);
    assert!(merge_audit_events(&vec![], 10).is_empty());
}

#[test]
fn metadata_reply_hands_out_the_handle_or_a_text() {
    let c = cred("vault://k", "p", BackendType::Azure, &[]);
    match metadata_reply("vault://k", Some(Ok(c))) {
        ToolReply::Handle(h) => {
            assert_eq!(h.id, "vault://k");
            assert_eq!(h.backend, BackendType::Azure);
        }
        other => panic!("unexpected {:?}", other),
    }
    assert_eq!(text(metadata_reply("vault://k", None)), "Credential not found: vault://k");
    assert_eq!(
        text(metadata_reply("vault://k", Some(Err(VaultError::NotFound("vault://k".into()))))),
        "Error: credential not found: vault://k"
    );
}

#[test]
fn runtime_and_token_replies() {
    let h = RuntimeSecretHandle {
        handle_id: "h".into(),
        credential_id: "vault://k".into(),
        expires_at: Timestamp { secs: 1, nanos: 0 },
        scope: vec![],
    };
    assert!(matches!(runtime_secret_reply("vault://k", Some(Ok(h))), ToolReply::RuntimeHandle(_)));
    assert_eq!(text(runtime_secret_reply("vault://k", None)), "Credential not found: vault://k");
    let t = WorkloadToken {
        token_id: "t".into(),
        credential_id: "vault://k".into(),
        token_type: "gcp-identity".into(),
        expires_at: Timestamp { secs: 1, nanos: 0 },
        audience: "a".into(),
    };
    assert!(matches!(workload_token_reply("vault://k", Some(Ok(t))), ToolReply::Token(_)));
    assert_eq!(
        text(workload_token_reply("vault://k", Some(Err(VaultError::TokenMintFailed("no".into()))))),
        "Error: token minting failed: no"
    );
}

#[test]
fn rotation_and_revocation_texts() {
    assert_eq!(text(rotation_reply("vault://k", Some(Ok(())))), "Credential vault://k rotated successfully");
    assert_eq!(
        text(rotation_reply("vault://k", Some(Err(VaultError::RotationFailed("status: 500".into()))))),
        "Rotation failed: rotation failed: status: 500"
    );
    assert_eq!(text(rotation_reply("vault://k", None)), "Credential not found: vault://k");
    assert_eq!(
        text(revocation_reply("vault://k", &Some("leaked".to_string()), Some(Ok(())))),
        "Credential vault://k revoked (reason: leaked)"
    );
    assert_eq!(text(revocation_reply("vault://k", &None, Some(Ok(())))), "Credential vault://k revoked");
    assert_eq!(
        text(revocation_reply("vault://k", &None, Some(Err(VaultError::Internal("x".into()))))),
        "Revocation failed: internal error: x"
    );
}
