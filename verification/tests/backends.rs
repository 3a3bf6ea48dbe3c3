use mcp_credentials_vault::adk_platform::{parse_credential, AdkPlatformBackend};
use mcp_credentials_vault::aws::{AwsBackend, AwsSecretEntry};
use mcp_credentials_vault::azure::AzureBackend;
use mcp_credentials_vault::backend::{missing_on_404, HttpStatus};
use mcp_credentials_vault::error::VaultError;
use mcp_credentials_vault::gcp::GcpBackend;
use mcp_credentials_vault::hashicorp::HashicorpBackend;
use mcp_credentials_vault::json::{json_text_of, JsonNumber, JsonValue};
use mcp_credentials_vault::text::{
    contains, decimal_string, last_segment, strip_vault_prefix, trim_end_slashes, vault_id,
};
use mcp_credentials_vault::types::{
    AuditAction, AuditOutcome, BackendType, CredentialStatus, RiskLevel, Timestamp,
};

fn s(x: &str) -> JsonValue {
    JsonValue::Str(x.to_string())
}

fn n(x: i64) -> JsonValue {
    JsonValue::Num(JsonNumber {
        as_i64: Some(x),
        as_u64: if x >= 0 { Some(x as u64) } else { None },
        text: x.to_string(),
    })
}

fn obj(members: Vec<(&str, JsonValue)>) -> JsonValue {
    JsonValue::Object(members.into_iter().map(|(k, v)| (k.to_string(), v)).collect())
}

fn arr(items: Vec<JsonValue>) -> JsonValue {
    JsonValue::Array(items)
}

fn status(code: u16, text: &str) -> HttpStatus {
    HttpStatus { code, text: text.to_string() }
}

#[test]
fn vault_prefix_round_trip() {
    let id = vault_id("my-secret");
    assert_eq!(id, "vault://my-secret");
    assert_eq!(strip_vault_prefix(&id), "my-secret");
    assert_eq!(strip_vault_prefix("plain"), "plain");
    assert_eq!(strip_vault_prefix("vault:/x"), "vault:/x");
}

#[test]
fn text_helpers() {
    assert!(contains("\"adk_vault\"", "adk"));
    assert!(contains("abc", ""));
    assert!(!contains("ab", "abc"));
    assert_eq!(last_segment("projects/p/secrets/db"), "db");
    assert_eq!(last_segment("plain"), "plain");
    assert_eq!(last_segment("ends/"), "");
    assert_eq!(trim_end_slashes("https://v.example//"), "https://v.example");
    assert_eq!(decimal_string(0), "0");
    assert_eq!(decimal_string(1200), "1200");
    assert_eq!(decimal_string(u64::MAX), "18446744073709551615");
}

#[test]
fn json_text_quotes_strings_through_serde() {
    let v = obj(vec![("a", arr(vec![n(1), s("x\"y"), JsonValue::Bool(true), JsonValue::Null]))]);
    assert_eq!(json_text_of(&v), "{\"a\":[1,\"x\\\"y\",true,null]}");
    assert_eq!(json_text_of(&s("prod")), "\"prod\"");
}

#[test]
fn not_found_on_404_only() {
    assert!(matches!(missing_on_404("vault://x", &status(404, "404 Not Found")), Some(VaultError::NotFound(_))));
    assert!(missing_on_404("vault://x", &status(200, "200 OK")).is_none());
}

#[test]
fn hashicorp_urls_and_listing() {
    let b = HashicorpBackend::new("http://127.0.0.1:8200".into(), "t".into(), None);
    assert_eq!(b.mount, "secret");
    assert_eq!(b.url("db"), "http://127.0.0.1:8200/v1/secret/data/db");
    assert_eq!(b.metadata_url(""), "http://127.0.0.1:8200/v1/secret/metadata/");
    assert_eq!(b.health_url(), "http://127.0.0.1:8200/v1/sys/health");
    assert_eq!(b.backend_type(), BackendType::Hashicorp);
    let body = obj(vec![("data", obj(vec![("keys", arr(vec![s("db"), n(3), s("api")]))]))]);
    let creds = HashicorpBackend::credentials_from_listing(&body);
    assert_eq!(creds.len(), 2);
    assert_eq!(creds[0].id, "vault://db");
    assert_eq!(creds[0].owner, "hashicorp");
    assert_eq!(creds[1].display_name, "api");
    assert!(HashicorpBackend::credentials_from_listing(&JsonValue::Null).is_empty());
    assert!(HashicorpBackend::listing_is_empty(&status(404, "404 Not Found")));
}

#[test]
fn hashicorp_metadata_dates_and_outcomes() {
    let body = obj(vec![(
        "data",
        obj(vec![
            ("created_time", s("2026-05-23T10:00:00Z")),
            ("updated_time", s("not a date")),
        ]),
    )]);
    let c = HashicorpBackend::credential_from_metadata("db", &body);
    assert_eq!(c.id, "vault://db");
    assert_eq!(c.last_accessed, Some(Timestamp { secs: 1_779_530_400, nanos: 0 }));
    assert_eq!(c.last_rotated, None);
    assert!(HashicorpBackend::health_outcome(&status(429, "429 Too Many Requests")).is_ok());
    match HashicorpBackend::health_outcome(&status(503, "503 Service Unavailable")) {
        Err(VaultError::Unavailable(m)) => assert_eq!(m, "status: 503 Service Unavailable"),
        _ => panic!(),
    }
    assert!(HashicorpBackend::revoke_outcome(&status(404, "404 Not Found")).is_ok());
    assert!(matches!(HashicorpBackend::rotation_outcome(&status(400, "400 Bad Request")), Err(VaultError::RotationFailed(_))));
    let (url, payload) = b_hashi().rotation_request("vault://db");
    assert_eq!(url, "http://h/v1/kv/data/db");
    match payload {
        JsonValue::Object(m) => {
            assert_eq!(m[0].0, "data");
            match &m[0].1 {
                JsonValue::Object(inner) => match &inner[0].1 {
                    JsonValue::Str(v) => assert_eq!(v.len(), 36),
                    _ => panic!(),
                },
                _ => panic!(),
            }
        }
        _ => panic!(),
    }
}

fn b_hashi() -> HashicorpBackend {
    HashicorpBackend::new("http://h".into(), "t".into(), Some("kv".into()))
}

#[test]
fn remote_handles_and_tokens() {
    let h = HashicorpBackend::issue_runtime_handle("vault://db", &vec!["a".to_string()], 60).unwrap();
    assert_eq!(h.credential_id, "vault://db");
    assert_eq!(h.handle_id.len(), 36);
    let t = GcpBackend::mint_workload_token("vault://db", "aud", 60).unwrap();
    assert_eq!(t.token_type, "gcp-identity");
    assert_eq!(AwsBackend::mint_workload_token("vault://db", "aud", 60).unwrap().token_type, "aws-session");
    assert_eq!(AzureBackend::mint_workload_token("vault://db", "aud", 60).unwrap().token_type, "azure-ad");
    assert_eq!(HashicorpBackend::mint_workload_token("vault://db", "aud", 60).unwrap().token_type, "vault-token");
    assert!(AzureBackend::audit_log().is_empty());
}

#[test]
fn azure_listing_reads_attributes_and_tags() {
    let b = AzureBackend::new("https://myvault.vault.azure.net/".into(), "tok".into());
    assert_eq!(b.vault_url, "https://myvault.vault.azure.net");
    assert_eq!(b.secrets_url(), "https://myvault.vault.azure.net/secrets?api-version=7.4");
    assert_eq!(b.secret_url("db"), "https://myvault.vault.azure.net/secrets/db?api-version=7.4");
    let body = obj(vec![(
        "value",
        arr(vec![
            obj(vec![
                ("id", s("https://myvault.vault.azure.net/secrets/db")),
                ("attributes", obj(vec![("enabled", JsonValue::Bool(false)), ("exp", n(100)), ("updated", n(50))])),
                ("tags", obj(vec![("env", s("prod")), ("n", n(1))])),
            ]),
            obj(vec![]),
        ]),
    )]);
    let creds = AzureBackend::credentials_from_listing(&body);
    assert_eq!(creds.len(), 2);
    assert_eq!(creds[0].id, "vault://db");
    assert_eq!(creds[0].status, CredentialStatus::Revoked);
    assert_eq!(creds[0].expires_at, Some(Timestamp { secs: 100, nanos: 0 }));
    assert_eq!(creds[0].last_rotated, Some(Timestamp { secs: 50, nanos: 0 }));
    assert_eq!(creds[0].tags, vec!["env=prod".to_string(), "n=".to_string()]);
    assert_eq!(creds[1].id, "vault://");
    assert_eq!(creds[1].status, CredentialStatus::Active);
    let one = AzureBackend::credential_from_secret("db", &obj(vec![("tags", obj(vec![("a", s("b"))]))]));
    assert!(one.tags.is_empty());
    match AzureBackend::health_outcome(&status(401, "401 Unauthorized")) {
        Err(VaultError::AuthFailed(m)) => assert_eq!(m, "token expired or invalid"),
        _ => panic!(),
    }
    let (url, _) = b.revoke_request("vault://db");
    assert_eq!(url, "https://myvault.vault.azure.net/secrets/db?api-version=7.4");
}

#[test]
fn gcp_listing_uses_short_names_and_label_text() {
    let b = GcpBackend::new("my-project".into());
    assert_eq!(b.base_url(), "https://secretmanager.googleapis.com/v1/projects/my-project");
    assert_eq!(b.health_url(), "https://secretmanager.googleapis.com/v1/projects/my-project/secrets?pageSize=1");
    let body = obj(vec![(
        "secrets",
        arr(vec![obj(vec![
            ("name", s("projects/my-project/secrets/db")),
            ("labels", obj(vec![("env", s("prod"))])),
        ])]),
    )]);
    let creds = GcpBackend::credentials_from_listing(&body);
    assert_eq!(creds[0].id, "vault://db");
    assert_eq!(creds[0].owner, "gcp");
    assert_eq!(creds[0].tags, vec!["env=\"prod\"".to_string()]);
    let (url, _) = b.rotation_request("vault://db");
    assert_eq!(url, "https://secretmanager.googleapis.com/v1/projects/my-project/secrets/db:addVersion");
}

#[test]
fn gcp_version_payload_is_base64() {
    match GcpBackend::version_payload("hello") {
        JsonValue::Object(m) => match &m[0].1 {
            JsonValue::Object(inner) => match &inner[0].1 {
                JsonValue::Str(v) => assert_eq!(v, "aGVsbG8="),
                _ => panic!(),
            },
            _ => panic!(),
        },
        _ => panic!(),
    }
}

#[test]
fn aws_entries_become_records() {
    let entry = AwsSecretEntry {
        name: Some("db".into()),
        rotation_enabled: Some(true),
        rotation_after_days: Some(30),
        last_rotated: Some((1_000, 7)),
        last_accessed: Some((i64::MAX, 0)),
        deleted_at: Some((5, 0)),
        tags: vec![
            (Some("env".into()), Some("prod".into())),
            (Some("k".into()), None),
        ],
    };
    let c = AwsBackend::credential_from_description("vault-name", &entry);
    assert_eq!(c.id, "vault://vault-name");
    assert_eq!(c.display_name, "db");
    assert_eq!(c.rotation_policy.unwrap().interval_days, 30);
    assert_eq!(c.last_rotated, Some(Timestamp { secs: 1_000, nanos: 7 }));
    assert_eq!(c.last_accessed, Some(Timestamp { secs: 0, nanos: 0 }));
    assert_eq!(c.status, CredentialStatus::Revoked);
    assert_eq!(c.tags, vec!["env=prod".to_string()]);
    let unnamed = AwsSecretEntry {
        name: None,
        rotation_enabled: None,
        rotation_after_days: None,
        last_rotated: None,
        last_accessed: None,
        deleted_at: None,
        tags: vec![],
    };
    let listed = AwsBackend::credentials_from_listing(&vec![unnamed]);
    assert_eq!(listed[0].id, "vault://unknown");
    assert_eq!(listed[0].rotation_policy, None);
    assert_eq!(listed[0].status, CredentialStatus::Active);
    assert_eq!(AwsBackend::secret_name("vault://db"), "db");
}

#[test]
fn platform_record_parsing() {
    let v = obj(vec![
        ("id", s("cred-1")),
        ("name", s("Name")),
        ("scope", arr(vec![s("agent-1"), n(2)])),
        ("risk_level", s("critical")),
        ("status", s("rotating")),
        ("rotation_policy", obj(vec![("interval_days", n(30)), ("auto_rotate", JsonValue::Bool(true))])),
        ("expires_at", s("2026-05-23T11:00:00Z")),
        ("tags", arr(vec![s("t")])),
    ]);
    let c = parse_credential(&v);
    assert_eq!(c.id, "vault://cred-1");
    assert_eq!(c.display_name, "Name");
    assert_eq!(c.owner, "platform");
    assert_eq!(c.scope, vec!["agent-1".to_string()]);
    assert_eq!(c.risk_level, RiskLevel::Critical);
    assert_eq!(c.status, CredentialStatus::Rotating);
    let p = c.rotation_policy.unwrap();
    assert_eq!((p.interval_days, p.auto_rotate, p.notify_before_days), (30, true, None));
    assert_eq!(c.expires_at, Some(Timestamp { secs: 1_779_534_000, nanos: 0 }));
    assert_eq!(c.tags, vec!["t".to_string()]);
    let d = parse_credential(&obj(vec![("risk_level", s("unknown"))]));
    assert_eq!(d.id, "vault://");
    assert_eq!(d.risk_level, RiskLevel::Medium);
    assert_eq!(d.status, CredentialStatus::Active);
    assert_eq!(d.rotation_policy, None);
}

#[test]
fn platform_requests_and_answers() {
    let b = AdkPlatformBackend::new("https://p.example/".into(), "key".into(), "ws".into());
    assert_eq!(b.url("/credentials"), "https://p.example/api/v1/credentials");
    let h = b.request_headers();
    assert_eq!(h[0], ("Authorization".to_string(), "Bearer key".to_string()));
    assert_eq!(h[1], ("X-Workspace-Id".to_string(), "ws".to_string()));
    assert_eq!(AdkPlatformBackend::credential_path("vault://c", "/rotate"), "/credentials/c/rotate");
    let listing = obj(vec![("data", arr(vec![obj(vec![("id", s("a"))]), obj(vec![("id", s("b"))])]))]);
    assert_eq!(AdkPlatformBackend::credentials_from_listing(&listing).len(), 2);
    let bare = arr(vec![obj(vec![("id", s("a"))])]);
    assert_eq!(AdkPlatformBackend::credentials_from_listing(&bare)[0].id, "vault://a");
    let one = AdkPlatformBackend::credential_from_answer(&obj(vec![("data", obj(vec![("id", s("z"))]))]));
    assert_eq!(one.id, "vault://z");
    match AdkPlatformBackend::lookup_status("vault://z", &status(500, "500 Internal Server Error")) {
        Err(VaultError::Internal(m)) => assert_eq!(m, "status: 500 Internal Server Error"),
        _ => panic!(),
    }
    assert!(matches!(AdkPlatformBackend::health_outcome(&status(403, "403 Forbidden")), Err(VaultError::AuthFailed(_))));
    let q = AdkPlatformBackend::audit_query(Some("vault://c"), 10);
    assert_eq!(q, vec![
        ("resource_type".to_string(), "credentials".to_string()),
        ("limit".to_string(), "10".to_string()),
        ("resource_id".to_string(), "c".to_string()),
    ]);
    assert_eq!(AdkPlatformBackend::failure_detail_of(&status(400, "400 Bad Request"), "nope"), "status: 400 Bad Request body: nope");
}

#[test]
fn platform_handle_and_token_answers() {
    let body = obj(vec![("handle_id", s("h-1")), ("expires_at", s("2026-05-23T11:00:00Z"))]);
    let h = AdkPlatformBackend::runtime_handle_from_answer("vault://c", &vec![], 300, &body).unwrap();
    assert_eq!(h.handle_id, "h-1");
    assert_eq!(h.expires_at, Timestamp { secs: 1_779_534_000, nanos: 0 });
    let t = AdkPlatformBackend::workload_token_from_answer("vault://c", "aud", 60, &obj(vec![])).unwrap();
    assert_eq!(t.token_id, "");
    assert_eq!(t.token_type, "platform");
    match AdkPlatformBackend::runtime_handle_payload(&vec!["a".to_string()], 300) {
        JsonValue::Object(m) => {
            assert_eq!(m[0].0, "scope");
            assert_eq!(m[1].0, "ttl_seconds");
        }
        _ => panic!(),
    }
}

#[test]
fn platform_audit_events() {
    let body = obj(vec![(
        "data",
        arr(vec![
            obj(vec![
                ("id", s("e1")),
                ("resource_id", s("c")),
                ("action", s("delete")),
                ("outcome", s("denied")),
                ("created_at", s("2026-05-23T10:06:17Z")),
                ("reason", s("why")),
            ]),
            obj(vec![("action", s("read"))]),
        ]),
    )]);
    let events = AdkPlatformBackend::audit_events_from_answer(&body);
    assert_eq!(events.len(), 2);
    assert_eq!(events[0].credential_id, "vault://c");
    assert_eq!(events[0].action, AuditAction::Revoked);
    assert_eq!(events[0].outcome, AuditOutcome::Denied);
    assert_eq!(events[0].reason, Some("why".to_string()));
    assert_eq!(events[0].timestamp.secs, 1_779_530_777);
    assert_eq!(events[1].action, AuditAction::Access);
    assert_eq!(events[1].actor, "system");
    assert_eq!(events[1].outcome, AuditOutcome::Success);
}
