use mcp_credentials_vault::adk_platform::AdkPlatformBackend;
use mcp_credentials_vault::adk_vault::AdkVaultBackend;
use mcp_credentials_vault::aws::{AwsBackend, AwsSecretEntry};
use mcp_credentials_vault::azure::AzureBackend;
use mcp_credentials_vault::backend::{
    issue_remote_handle, issue_remote_handle_at, mint_remote_token, mint_remote_token_at,
    HttpStatus,
};
use mcp_credentials_vault::clock::utc_from_timestamp;
use mcp_credentials_vault::error::VaultError;
use mcp_credentials_vault::gcp::GcpBackend;
use mcp_credentials_vault::hashicorp::HashicorpBackend;
use mcp_credentials_vault::json::{quote_json_string, JsonValue};
use mcp_credentials_vault::types::{
    BackendType, Credential, CredentialStatus, RiskLevel, Timestamp,
};

fn s(x: &str) -> JsonValue {
    JsonValue::Str(x.to_string())
}

fn obj(members: Vec<(&str, JsonValue)>) -> JsonValue {
    JsonValue::Object(members.into_iter().map(|(k, v)| (k.to_string(), v)).collect())
}

fn arr(items: Vec<JsonValue>) -> JsonValue {
    JsonValue::Array(items)
}

fn status(code: u16, text: &str) -> HttpStatus {
    HttpStatus { code, text: text.to_string() }
}

fn at(secs: i64, nanos: u32) -> Timestamp {
    Timestamp { secs, nanos }
}

fn named(name: &str) -> AwsSecretEntry {
    AwsSecretEntry {
        name: Some(name.to_string()),
        rotation_enabled: None,
        rotation_after_days: None,
        last_rotated: None,
        last_accessed: None,
        deleted_at: None,
        tags: vec![],
    }
}

fn stored(id: &str) -> Credential {
    Credential {
        id: id.to_string(),
        display_name: id.to_string(),
        owner: "platform".to_string(),
        scope: vec![],
        backend: BackendType::AdkVault,
        risk_level: RiskLevel::Low,
        rotation_policy: None,
        expires_at: None,
        last_rotated: None,
        last_accessed: None,
        status: CredentialStatus::Active,
        tags: vec![],
    }
}

#[test]
fn remote_handle_at_expires_ttl_after_the_reading() {
    let scope = vec!["read".to_string()];
    let h = issue_remote_handle_at("vault://db", &scope, 300, "h-1".to_string(), at(1_000, 5))
        .unwrap();
    assert_eq!(h.handle_id, "h-1");
    assert_eq!(h.credential_id, "vault://db");
    assert_eq!(h.expires_at, at(1_300, 5));
    assert_eq!(h.scope, scope);
}

#[test]
fn remote_handle_at_past_the_last_instant_is_an_error() {
    match issue_remote_handle_at("vault://db", &vec![], u64::MAX, "h".to_string(), at(0, 0)) {
        Err(VaultError::Internal(m)) => assert_eq!(m, "expiry out of range"),
        _ => panic!("expected Internal"),
    }
    match mint_remote_token_at("vault://db", "aud", u64::MAX, "aws-sts", "t".to_string(), at(0, 0)) {
        Err(VaultError::Internal(m)) => assert_eq!(m, "expiry out of range"),
        _ => panic!("expected Internal"),
    }
}

#[test]
fn remote_token_at_carries_type_audience_and_expiry() {
    let t = mint_remote_token_at("vault://db", "svc", 60, "gcp-sa", "t-9".to_string(), at(10, 0))
        .unwrap();
    assert_eq!(t.token_id, "t-9");
    assert_eq!(t.token_type, "gcp-sa");
    assert_eq!(t.audience, "svc");
    assert_eq!(t.expires_at, at(70, 0));
}

#[test]
fn remote_handle_with_zero_ttl_succeeds() {
    let h = issue_remote_handle("vault://db", &vec![], 0).unwrap();
    assert_eq!(h.handle_id.len(), 36);
    let t = mint_remote_token("vault://db", "aud", 0, "vault-token").unwrap();
    assert_eq!(t.token_id.len(), 36);
    assert_eq!(t.token_type, "vault-token");
}

#[test]
fn vault_handle_with_the_largest_ttl_is_an_error_not_a_panic() {
    let mut vault = AdkVaultBackend::new();
    vault.insert(stored("vault://k"));
    match vault.issue_runtime_handle("vault://k", &vec![], u64::MAX) {
        Err(VaultError::Internal(m)) => assert_eq!(m, "expiry out of range"),
        _ => panic!("expected Internal"),
    }
    match vault.mint_workload_token("vault://k", "aud", u64::MAX) {
        Err(VaultError::Internal(m)) => assert_eq!(m, "expiry out of range"),
        _ => panic!("expected Internal"),
    }
    assert!(vault.audit_log(None, 10).unwrap().is_empty());
}

#[test]
fn platform_handle_without_expiry_runs_from_the_reading() {
    let body = obj(vec![("handle_id", s("ph-1"))]);
    let h = AdkPlatformBackend::runtime_handle_from_answer_at(
        "vault://db",
        &vec![],
        120,
        &body,
        at(500, 1),
    )
    .unwrap();
    assert_eq!(h.handle_id, "ph-1");
    assert_eq!(h.expires_at, at(620, 1));
    let late = AdkPlatformBackend::runtime_handle_from_answer_at(
        "vault://db",
        &vec![],
        u64::MAX,
        &body,
        at(500, 1),
    );
    assert!(matches!(late, Err(VaultError::Internal(_))));
}

#[test]
fn platform_answer_expiry_wins_over_the_ttl() {
    let body = obj(vec![("token_id", s("pt")), ("expires_at", s("1970-01-01T00:01:40Z"))]);
    let t = AdkPlatformBackend::workload_token_from_answer_at(
        "vault://db",
        "aud",
        u64::MAX,
        &body,
        at(0, 0),
    )
    .unwrap();
    assert_eq!(t.token_id, "pt");
    assert_eq!(t.token_type, "platform");
    assert_eq!(t.expires_at, at(100, 0));
    let h = AdkPlatformBackend::runtime_handle_from_answer("vault://db", &vec![], 0, &body).unwrap();
    assert_eq!(h.expires_at, at(100, 0));
}

#[test]
fn failed_audit_answer_gives_no_events() {
    let body = obj(vec![(
        "data",
        arr(vec![obj(vec![("id", s("e1")), ("action", s("access")), ("created_at", s("1970-01-01T00:00:10Z"))])]),
    )]);
    assert!(AdkPlatformBackend::audit_events_for_status(&status(500, "500 Internal Server Error"), &body)
        .is_empty());
    let events = AdkPlatformBackend::audit_events_for_status(&status(200, "200 OK"), &body);
    assert_eq!(events.len(), 1);
    assert_eq!(events[0].event_id, "e1");
    assert_eq!(events[0].timestamp, at(10, 0));
}

#[test]
fn aws_listing_spans_every_page() {
    let pages = vec![vec![named("a"), named("b")], vec![], vec![named("c")]];
    let creds = AwsBackend::credentials_from_pages(&pages);
    let ids: Vec<&str> = creds.iter().map(|c| c.id.as_str()).collect();
    assert_eq!(ids, vec!["vault://a", "vault://b", "vault://c"]);
    assert!(AwsBackend::credentials_from_pages(&vec![]).is_empty());
}

#[test]
fn azure_listing_follows_next_link() {
    let first = obj(vec![
        ("value", arr(vec![obj(vec![("id", s("https://v.vault.azure.net/secrets/one"))])])),
        ("nextLink", s("https://v.vault.azure.net/secrets?api-version=7.4&$skiptoken=x")),
    ]);
    let last = obj(vec![("value", arr(vec![obj(vec![("id", s("https://v.vault.azure.net/secrets/two"))])]))]);
    assert_eq!(
        AzureBackend::next_page_url(&first),
        Some("https://v.vault.azure.net/secrets?api-version=7.4&$skiptoken=x".to_string())
    );
    assert_eq!(AzureBackend::next_page_url(&last), None);
    let creds = AzureBackend::credentials_from_pages(&vec![first, last]);
    let ids: Vec<&str> = creds.iter().map(|c| c.id.as_str()).collect();
    assert_eq!(ids, vec!["vault://one", "vault://two"]);
}

#[test]
fn gcp_listing_follows_page_tokens() {
    let b = GcpBackend::new("p".into());
    let first = obj(vec![
        ("secrets", arr(vec![obj(vec![("name", s("projects/p/secrets/one"))])])),
        ("nextPageToken", s("tok")),
    ]);
    let last = obj(vec![("secrets", arr(vec![obj(vec![("name", s("projects/p/secrets/two"))])]))]);
    assert_eq!(
        b.next_page_url(&first),
        Some("https://secretmanager.googleapis.com/v1/projects/p/secrets?pageToken=tok".to_string())
    );
    assert_eq!(b.next_page_url(&last), None);
    assert_eq!(b.next_page_url(&obj(vec![("nextPageToken", s(""))])), None);
    let creds = GcpBackend::credentials_from_pages(&vec![first, last]);
    let ids: Vec<&str> = creds.iter().map(|c| c.id.as_str()).collect();
    assert_eq!(ids, vec!["vault://one", "vault://two"]);
}

#[test]
fn hashicorp_revoke_twice_succeeds() {
    assert!(HashicorpBackend::revoke_outcome(&status(204, "204 No Content")).is_ok());
    assert!(HashicorpBackend::revoke_outcome(&status(404, "404 Not Found")).is_ok());
    assert!(HashicorpBackend::revoke_outcome(&status(403, "403 Forbidden")).is_err());
}

#[test]
fn utc_instants_follow_the_representable_range() {
    assert_eq!(utc_from_timestamp(59, 1_500_000_000), Some(at(59, 1_500_000_000)));
    assert_eq!(utc_from_timestamp(58, 1_500_000_000), None);
    assert_eq!(utc_from_timestamp(0, 2_000_000_000), None);
    assert_eq!(utc_from_timestamp(8_210_266_876_799, 0), Some(at(8_210_266_876_799, 0)));
    assert_eq!(utc_from_timestamp(8_210_266_876_800, 0), None);
    assert_eq!(utc_from_timestamp(-8_334_601_228_800, 0), Some(at(-8_334_601_228_800, 0)));
    assert_eq!(utc_from_timestamp(-8_334_601_228_801, 0), None);
}

#[test]
fn json_string_escapes_follow_the_table() {
    assert_eq!(quote_json_string("a\"b\\c"), "\"a\\\"b\\\\c\"");
    assert_eq!(quote_json_string("\u{8}\u{c}\n\r\t"), "\"\\b\\f\\n\\r\\t\"");
    assert_eq!(quote_json_string("\u{1}\u{1f}\u{7f}é/"), "\"\\u0001\\u001f\u{7f}é/\"");
}

#[test]
fn gcp_payload_base64_pads_short_groups() {
    for (value, expected) in [("", ""), ("f", "Zg=="), ("fo", "Zm8="), ("foo", "Zm9v"), ("foob", "Zm9vYg==")] {
        let payload = GcpBackend::version_payload(value);
        let data = match &payload {
            JsonValue::Object(m) => match &m[0].1 {
                JsonValue::Object(inner) => match &inner[0].1 {
                    JsonValue::Str(d) => d.clone(),
                    _ => panic!("data is not a string"),
                },
                _ => panic!("payload is not an object"),
            },
            _ => panic!("not an object"),
        };
        assert_eq!(data, expected);
    }
}
