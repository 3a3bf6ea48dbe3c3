//! The ADK-Rust Enterprise platform API: its endpoints and requests, and the
//! records, handles, tokens and audit events made from what it answers.

use vstd::prelude::*;
use crate::backend::{status_detail, success_code, HttpStatus};
use crate::clock::{clock_reading, current_time, parse_utc, parsed_utc};
use crate::error::{VaultError, VaultErrorView};
use crate::json::{
    array_of_strings, number_from_u64, object_of_two, two_members, u64_number, json_as_array,
    json_as_bool, json_as_object, json_as_str, json_as_u64, json_get, json_index, member_value,
    str_at, str_member, str_or, string_array, string_elements, strings_of, JsonValue,
};
use crate::text::{
    decimal, decimal_string, strip_vault_prefix, strip_vault_scheme, trim_end_slashes,
    trim_trailing_slashes, vault_id, vault_scheme,
};
use crate::types::{
    after_seconds, copy_strings, AuditAction, AuditEvent, AuditEventView, AuditOutcome, BackendType,
    Credential, CredentialStatus, CredentialView, RiskLevel, RotationPolicy, RuntimeSecretHandle,
    RuntimeSecretHandleView, Timestamp, WorkloadToken, WorkloadTokenView,
};

verus! {

/// Backend that delegates to the ADK-Rust Enterprise platform API: base
/// address (without a trailing slash), API key and workspace.
pub struct AdkPlatformBackend {
    pub base_url: String,
    pub api_key: String,
    pub workspace_id: String,
}

/// `s`, or `default` when there is no text.
pub open spec fn text_or(s: Option<Seq<char>>, default: Seq<char>) -> Seq<char> {
    match s {
        Some(t) => t,
        None => default,
    }
}

/// The risk level a platform record names; `medium` for any other name.
pub open spec fn risk_named(name: Seq<char>) -> RiskLevel {
    if name == "low"@ {
        RiskLevel::Low
    } else if name == "high"@ {
        RiskLevel::High
    } else if name == "critical"@ {
        RiskLevel::Critical
    } else {
        RiskLevel::Medium
    }
}

/// The status a platform record names; `active` for any other name.
pub open spec fn status_named(name: Seq<char>) -> CredentialStatus {
    if name == "expired"@ {
        CredentialStatus::Expired
    } else if name == "revoked"@ {
        CredentialStatus::Revoked
    } else if name == "rotating"@ {
        CredentialStatus::Rotating
    } else {
        CredentialStatus::Active
    }
}

/// The member `key` of the members `m`, as an unsigned integer.
pub open spec fn u64_member(m: Seq<(String, JsonValue)>, key: Seq<char>) -> Option<u64> {
    match member_value(m, key) {
        Some(x) => json_as_u64(x),
        None => None,
    }
}

/// The rotation policy of a platform record: from its `rotation_policy`
/// object, every `interval_days` days (90 when unset), rotated automatically
/// when `auto_rotate` says so, notified `notify_before_days` days before;
/// counts are taken as 32-bit.
pub open spec fn platform_rotation(v: JsonValue) -> Option<RotationPolicy> {
    match json_as_object(json_index(v, "rotation_policy"@)) {
        Some(m) => Some(
            RotationPolicy {
                interval_days: match u64_member(m, "interval_days"@) {
                    Some(d) => d as u32,
                    None => 90,
                },
                auto_rotate: match member_value(m, "auto_rotate"@) {
                    Some(x) => match json_as_bool(x) {
                        Some(b) => b,
                        None => false,
                    },
                    None => false,
                },
                notify_before_days: match u64_member(m, "notify_before_days"@) {
                    Some(d) => Some(d as u32),
                    None => None,
                },
            },
        ),
        None => None,
    }
}

/// The instant a member holds as date-time text, if it does.
pub open spec fn instant_at(v: JsonValue, key: Seq<char>) -> Option<Timestamp> {
    match str_at(v, key) {
        Some(s) => parsed_utc(s),
        None => None,
    }
}

/// The strings of an array member, or none.
pub open spec fn strings_at(v: JsonValue, key: Seq<char>) -> Seq<Seq<char>> {
    match json_as_array(json_index(v, key)) {
        Some(items) => strings_of(items),
        None => Seq::empty(),
    }
}

/// The record a platform credential object describes.
pub open spec fn platform_record(v: JsonValue) -> CredentialView {
    CredentialView {
        id: vault_scheme() + text_or(str_at(v, "id"@), Seq::empty()),
        display_name: match str_at(v, "display_name"@) {
            Some(s) => s,
            None => text_or(str_at(v, "name"@), Seq::empty()),
        },
        owner: text_or(str_at(v, "owner"@), "platform"@),
        scope: strings_at(v, "scope"@),
        backend: BackendType::AdkVault,
        risk_level: risk_named(text_or(str_at(v, "risk_level"@), "medium"@)),
        rotation_policy: platform_rotation(v),
        expires_at: instant_at(v, "expires_at"@),
        last_rotated: instant_at(v, "last_rotated_at"@),
        last_accessed: instant_at(v, "last_accessed_at"@),
        status: status_named(text_or(str_at(v, "status"@), "active"@)),
        tags: strings_at(v, "tags"@),
    }
}

/// The list in an answer: its `data` array, else the answer itself when it
/// is an array, else nothing.
pub open spec fn answer_items(body: JsonValue) -> Seq<JsonValue> {
    match json_as_array(json_index(body, "data"@)) {
        Some(items) => items,
        None => match json_as_array(body) {
            Some(items) => items,
            None => Seq::empty(),
        },
    }
}

/// The object an answer about one credential describes: its `data` member
/// when it has one, else the answer itself.
pub open spec fn answer_object(body: JsonValue) -> JsonValue {
    match json_get(body, "data"@) {
        Some(d) => d,
        None => body,
    }
}

fn empty_text() -> (s: String)
    ensures
        s@ == Seq::<char>::empty(),
{
    String::new()
}

fn text_member(v: &JsonValue, key: &str, default: &str) -> (s: String)
    ensures
        s@ == text_or(str_at(*v, key@), default@),
{
    str_or(str_member(v, key), default)
}

fn text_member_or_empty(v: &JsonValue, key: &str) -> (s: String)
    ensures
        s@ == text_or(str_at(*v, key@), Seq::empty()),
{
    match str_member(v, key) {
        Some(s) => s,
        None => empty_text(),
    }
}

fn instant_member(v: &JsonValue, key: &str) -> (r: Option<Timestamp>)
    ensures
        r == instant_at(*v, key@),
{
    match str_member(v, key) {
        Some(s) => parse_utc(s.as_str()),
        None => None,
    }
}

fn strings_member(v: &JsonValue, key: &str) -> (r: Vec<String>)
    ensures
        r.deep_view() == strings_at(*v, key@),
{
    match v.at(key) {
        Some(a) => match a.as_array() {
            Some(items) => string_elements(items),
            None => {
                let r: Vec<String> = Vec::new();
                proof {
                    assert(r.deep_view() =~= Seq::<Seq<char>>::empty());
                }
                r
            },
        },
        None => {
            let r: Vec<String> = Vec::new();
            proof {
                assert(r.deep_view() =~= Seq::<Seq<char>>::empty());
            }
            r
        },
    }
}

fn same_text(s: &String, literal: &str) -> (b: bool)
    ensures
        b == (s@ == literal@),
{
    *s == String::from_str(literal)
}

fn risk_of(name: &String) -> (r: RiskLevel)
    ensures
        r == risk_named(name@),
{
    if same_text(name, "low") {
        RiskLevel::Low
    } else if same_text(name, "high") {
        RiskLevel::High
    } else if same_text(name, "critical") {
        RiskLevel::Critical
    } else {
        RiskLevel::Medium
    }
}

fn status_of(name: &String) -> (r: CredentialStatus)
    ensures
        r == status_named(name@),
{
    if same_text(name, "expired") {
        CredentialStatus::Expired
    } else if same_text(name, "revoked") {
        CredentialStatus::Revoked
    } else if same_text(name, "rotating") {
        CredentialStatus::Rotating
    } else {
        CredentialStatus::Active
    }
}

fn find_member<'a>(m: &'a Vec<(String, JsonValue)>, key: &str) -> (r: Option<&'a JsonValue>)
    ensures
        match r {
            Some(x) => member_value(m@, key@) == Some(*x),
            None => member_value(m@, key@) is None,
        },
{
    let k = String::from_str(key);
    let mut i: usize = 0;
    proof {
        assert(m@.subrange(0, m.len() as int) =~= m@);
    }
    while i < m.len()
        invariant
            k@ == key@,
            i <= m.len(),
            member_value(m@, key@) == member_value(m@.subrange(i as int, m.len() as int), key@),
        decreases m.len() - i,
    {
        let ghost rest = m@.subrange(i as int, m.len() as int);
        if m[i].0 == k {
            proof {
                assert(rest[0] == m@[i as int]);
            }
            return Some(&m[i].1);
        }
        proof {
            assert(rest.drop_first() =~= m@.subrange(i + 1, m.len() as int));
        }
        i = i + 1;
    }
    None
}

fn u64_of(m: &Vec<(String, JsonValue)>, key: &str) -> (r: Option<u64>)
    ensures
        r == u64_member(m@, key@),
{
    match find_member(m, key) {
        Some(x) => x.as_u64(),
        None => None,
    }
}

fn rotation_of(v: &JsonValue) -> (r: Option<RotationPolicy>)
    ensures
        r == platform_rotation(*v),
{
    match v.at("rotation_policy") {
        Some(p) => match p.as_object() {
            Some(m) => {
                let interval_days: u32 = match u64_of(m, "interval_days") {
                    Some(d) => #[verifier::truncate] (d as u32),
                    None => 90,
                };
                let auto_rotate = match find_member(m, "auto_rotate") {
                    Some(x) => match x.as_bool() {
                        Some(b) => b,
                        None => false,
                    },
                    None => false,
                };
                let notify_before_days = match u64_of(m, "notify_before_days") {
                    Some(d) => Some(#[verifier::truncate] (d as u32)),
                    None => None,
                };
                Some(RotationPolicy { interval_days, auto_rotate, notify_before_days })
            },
            None => None,
        },
        None => None,
    }
}

/// The record a platform credential object describes.
pub fn parse_credential(v: &JsonValue) -> (c: Credential)
    ensures
        c@ == platform_record(*v),
{
    let id = text_member_or_empty(v, "id");
    let display_name = match str_member(v, "display_name") {
        Some(s) => s,
        None => text_member_or_empty(v, "name"),
    };
    let risk = text_member(v, "risk_level", "medium");
    let status = text_member(v, "status", "active");
    Credential {
        id: vault_id(id.as_str()),
        display_name,
        owner: text_member(v, "owner", "platform"),
        scope: strings_member(v, "scope"),
        backend: BackendType::AdkVault,
        risk_level: risk_of(&risk),
        rotation_policy: rotation_of(v),
        expires_at: instant_member(v, "expires_at"),
        last_rotated: instant_member(v, "last_rotated_at"),
        last_accessed: instant_member(v, "last_accessed_at"),
        status: status_of(&status),
        tags: strings_member(v, "tags"),
    }
}

fn items_of(body: &JsonValue) -> (r: Option<&Vec<JsonValue>>)
    ensures
        match r {
            Some(items) => answer_items(*body) == items@,
            None => answer_items(*body) == Seq::<JsonValue>::empty(),
        },
{
    match body.at("data") {
        Some(d) => match d.as_array() {
            Some(items) => return Some(items),
            None => {},
        },
        None => {},
    }
    body.as_array()
}

/// The event an audit entry of the platform describes, given the instant
/// `now` that stands in for a missing or unreadable creation time.
pub open spec fn platform_event(e: JsonValue, now: Timestamp) -> AuditEventView {
    let action = text_or(str_at(e, "action"@), Seq::empty());
    let outcome = text_or(str_at(e, "outcome"@), "success"@);
    AuditEventView {
        event_id: text_or(str_at(e, "id"@), Seq::empty()),
        credential_id: vault_scheme() + text_or(str_at(e, "resource_id"@), Seq::empty()),
        action: if action == "access"@ || action == "read"@ {
            AuditAction::Access
        } else if action == "denied"@ {
            AuditAction::Denied
        } else if action == "rotated"@ || action == "rotate"@ {
            AuditAction::Rotated
        } else if action == "revoked"@ || action == "revoke"@ || action == "delete"@ {
            AuditAction::Revoked
        } else if action == "token_minted"@ {
            AuditAction::TokenMinted
        } else {
            AuditAction::ScopeValidated
        },
        actor: text_or(str_at(e, "actor"@), "system"@),
        timestamp: match instant_at(e, "created_at"@) {
            Some(t) => t,
            None => now,
        },
        outcome: if outcome == "denied"@ {
            AuditOutcome::Denied
        } else if outcome == "error"@ {
            AuditOutcome::Error
        } else {
            AuditOutcome::Success
        },
        reason: str_at(e, "reason"@),
    }
}

/// An event read from a platform audit entry reports what the entry says:
/// its `id`, the credential `vault://` and its `resource_id`, the `actor` it
/// names (`system` only where it names none), its `reason`, and the instant
/// of its `created_at` where that can be read, else a clock reading. A
/// `read` or `access` action is an access and a `denied` outcome a denial;
/// an entry that names no outcome is a success.
pub proof fn lemma_platform_event_reports_entry(r: AuditEventView, e: JsonValue)
    requires
        stamped_event(r, e),
    ensures
        str_at(e, "actor"@) matches Some(a) ==> r.actor == a,
        str_at(e, "actor"@) is None ==> r.actor == "system"@,
        str_at(e, "id"@) matches Some(i) ==> r.event_id == i,
        str_at(e, "resource_id"@) matches Some(x) ==> r.credential_id == vault_scheme() + x,
        r.reason == str_at(e, "reason"@),
        instant_at(e, "created_at"@) matches Some(t) ==> r.timestamp == t,
        instant_at(e, "created_at"@) is None ==> clock_reading(r.timestamp),
        str_at(e, "action"@) == Some("read"@) ==> r.action == AuditAction::Access,
        str_at(e, "action"@) == Some("access"@) ==> r.action == AuditAction::Access,
        str_at(e, "outcome"@) == Some("denied"@) ==> r.outcome == AuditOutcome::Denied,
        str_at(e, "outcome"@) is None ==> r.outcome == AuditOutcome::Success,
{
    let now = choose|now: Timestamp| clock_reading(now) && r == platform_event(e, now);
    assert(r == platform_event(e, now));
    reveal_strlit("denied");
    reveal_strlit("success");
    reveal_strlit("error");
    assert("success"@[0] != "denied"@[0]);
    assert("success"@[0] != "error"@[0]);
}

fn action_of(name: &String) -> (a: AuditAction)
    ensures
        a == (if name@ == "access"@ || name@ == "read"@ {
            AuditAction::Access
        } else if name@ == "denied"@ {
            AuditAction::Denied
        } else if name@ == "rotated"@ || name@ == "rotate"@ {
            AuditAction::Rotated
        } else if name@ == "revoked"@ || name@ == "revoke"@ || name@ == "delete"@ {
            AuditAction::Revoked
        } else if name@ == "token_minted"@ {
            AuditAction::TokenMinted
        } else {
            AuditAction::ScopeValidated
        }),
{
    if same_text(name, "access") || same_text(name, "read") {
        AuditAction::Access
    } else if same_text(name, "denied") {
        AuditAction::Denied
    } else if same_text(name, "rotated") || same_text(name, "rotate") {
        AuditAction::Rotated
    } else if same_text(name, "revoked") || same_text(name, "revoke") || same_text(name, "delete") {
        AuditAction::Revoked
    } else if same_text(name, "token_minted") {
        AuditAction::TokenMinted
    } else {
        AuditAction::ScopeValidated
    }
}

fn outcome_of(name: &String) -> (o: AuditOutcome)
    ensures
        o == (if name@ == "denied"@ {
            AuditOutcome::Denied
        } else if name@ == "error"@ {
            AuditOutcome::Error
        } else {
            AuditOutcome::Success
        }),
{
    if same_text(name, "denied") {
        AuditOutcome::Denied
    } else if same_text(name, "error") {
        AuditOutcome::Error
    } else {
        AuditOutcome::Success
    }
}

/// `r` is the event the audit entry `e` describes, stamped from a clock
/// reading where `e` has no readable creation time.
pub open spec fn stamped_event(r: AuditEventView, e: JsonValue) -> bool {
    exists|now: Timestamp| clock_reading(now) && r == platform_event(e, now)
}

/// The event an audit entry describes; a missing creation time is read from
/// the clock.
fn event_of(e: &JsonValue) -> (r: AuditEvent)
    ensures
        stamped_event(r@, *e),
{
    let action = text_member_or_empty(e, "action");
    let outcome = text_member(e, "outcome", "success");
    let resource = text_member_or_empty(e, "resource_id");
    let timestamp = match instant_member(e, "created_at") {
        Some(t) => t,
        None => current_time(),
    };
    let ghost now = if instant_at(*e, "created_at"@) is Some {
        crate::types::epoch()
    } else {
        timestamp
    };
    let r = AuditEvent {
        event_id: text_member_or_empty(e, "id"),
        credential_id: vault_id(resource.as_str()),
        action: action_of(&action),
        actor: text_member(e, "actor", "system"),
        timestamp,
        outcome: outcome_of(&outcome),
        reason: str_member(e, "reason"),
    };
    proof {
        assert(clock_reading(now) && r@ == platform_event(*e, now));
    }
    r
}

/// The failure detail of a request: `status: `, the status text, ` body: ` and
/// the answer's text.
pub open spec fn failure_detail(status_text: Seq<char>, body: Seq<char>) -> Seq<char> {
    "status: "@ + status_text + " body: "@ + body
}

/// The expiry that the platform's answer `body` gives, or else `ttl` seconds
/// after `now`; `None` where neither is there or can be represented.
pub open spec fn answer_expiry(body: JsonValue, ttl: nat, now: Timestamp) -> Option<Timestamp> {
    match instant_at(body, "expires_at"@) {
        Some(t) => Some(t),
        None => after_seconds(now, ttl as int),
    }
}

/// The runtime handle for `id` that the platform's answer `body` describes,
/// read at `now`: its `handle_id` (or empty), valid for `scope` until the
/// answer's expiry; the error of an expiry out of range where there is none.
pub open spec fn platform_handle_at(
    id: Seq<char>,
    scope: Seq<Seq<char>>,
    ttl: nat,
    body: JsonValue,
    now: Timestamp,
) -> Result<RuntimeSecretHandleView, VaultErrorView> {
    match answer_expiry(body, ttl, now) {
        Some(t) => Ok(
            RuntimeSecretHandleView {
                handle_id: text_or(str_at(body, "handle_id"@), Seq::empty()),
                credential_id: id,
                expires_at: t,
                scope,
            },
        ),
        None => Err(crate::backend::expiry_error()),
    }
}

/// The workload token for `id` and `audience` that the platform's answer
/// `body` describes, read at `now`: its `token_id` (or empty), its
/// `token_type` (or `platform`), valid until the answer's expiry; the error of
/// an expiry out of range where there is none.
pub open spec fn platform_token_at(
    id: Seq<char>,
    audience: Seq<char>,
    ttl: nat,
    body: JsonValue,
    now: Timestamp,
) -> Result<WorkloadTokenView, VaultErrorView> {
    match answer_expiry(body, ttl, now) {
        Some(t) => Ok(
            WorkloadTokenView {
                token_id: text_or(str_at(body, "token_id"@), Seq::empty()),
                credential_id: id,
                token_type: text_or(str_at(body, "token_type"@), "platform"@),
                expires_at: t,
                audience,
            },
        ),
        None => Err(crate::backend::expiry_error()),
    }
}

/// `r` is the runtime handle that the platform's answer `body` describes,
/// read at some clock reading: the error of an expiry out of range comes only
/// where the answer has no expiry and that reading plus `ttl` seconds cannot
/// be represented.
pub open spec fn platform_handle(
    r: Result<RuntimeSecretHandle, VaultError>,
    id: Seq<char>,
    scope: Seq<Seq<char>>,
    ttl: nat,
    body: JsonValue,
) -> bool {
    exists|now: Timestamp|
        clock_reading(now) && match r {
            Ok(h) => platform_handle_at(id, scope, ttl, body, now) == Ok::<
                RuntimeSecretHandleView,
                VaultErrorView,
            >(h@),
            Err(e) => platform_handle_at(id, scope, ttl, body, now) == Err::<
                RuntimeSecretHandleView,
                VaultErrorView,
            >(e@),
        }
}

/// `r` is the workload token that the platform's answer `body` describes,
/// read at some clock reading: the error of an expiry out of range comes only
/// where the answer has no expiry and that reading plus `ttl` seconds cannot
/// be represented.
pub open spec fn platform_token(
    r: Result<WorkloadToken, VaultError>,
    id: Seq<char>,
    audience: Seq<char>,
    ttl: nat,
    body: JsonValue,
) -> bool {
    exists|now: Timestamp|
        clock_reading(now) && match r {
            Ok(t) => platform_token_at(id, audience, ttl, body, now) == Ok::<
                WorkloadTokenView,
                VaultErrorView,
            >(t@),
            Err(e) => platform_token_at(id, audience, ttl, body, now) == Err::<
                WorkloadTokenView,
                VaultErrorView,
            >(e@),
        }
}

/// A handle read from a platform answer names the credential and carries
/// the scope asked for and the answer's `handle_id`; it expires at the
/// answer's `expires_at` where that can be read, and else exactly `ttl`
/// seconds after the instant `now` it was read at.
pub proof fn lemma_platform_handle_expiry(
    id: Seq<char>,
    scope: Seq<Seq<char>>,
    ttl: nat,
    body: JsonValue,
    now: Timestamp,
)
    ensures
        platform_handle_at(id, scope, ttl, body, now) matches Ok(h) ==> h.credential_id == id
            && h.scope == scope && (str_at(body, "handle_id"@) matches Some(x) ==> h.handle_id
            == x),
        instant_at(body, "expires_at"@) matches Some(t) ==> (platform_handle_at(
            id,
            scope,
            ttl,
            body,
            now,
        ) matches Ok(h) && h.expires_at == t),
        instant_at(body, "expires_at"@) is None && after_seconds(now, ttl as int) is Some
            ==> (platform_handle_at(id, scope, ttl, body, now) matches Ok(h) && h.expires_at.secs
            == now.secs + ttl && h.expires_at.nanos == now.nanos),
{
}

/// A token read from a platform answer names the credential and the
/// audience asked for, the answer's `token_id` and `token_type` (`platform`
/// where it names none); it expires at the answer's `expires_at` where that
/// can be read, and else exactly `ttl` seconds after the instant `now`.
pub proof fn lemma_platform_token_expiry(
    id: Seq<char>,
    audience: Seq<char>,
    ttl: nat,
    body: JsonValue,
    now: Timestamp,
)
    ensures
        platform_token_at(id, audience, ttl, body, now) matches Ok(t) ==> t.credential_id == id
            && t.audience == audience && (str_at(body, "token_id"@) matches Some(x)
            ==> t.token_id == x) && (str_at(body, "token_type"@) matches Some(x) ==> t.token_type
            == x) && (str_at(body, "token_type"@) is None ==> t.token_type == "platform"@),
        instant_at(body, "expires_at"@) matches Some(x) ==> (platform_token_at(
            id,
            audience,
            ttl,
            body,
            now,
        ) matches Ok(t) && t.expires_at == x),
        instant_at(body, "expires_at"@) is None && after_seconds(now, ttl as int) is Some
            ==> (platform_token_at(id, audience, ttl, body, now) matches Ok(t) && t.expires_at.secs
            == now.secs + ttl && t.expires_at.nanos == now.nanos),
{
}

fn expiry_from(body: &JsonValue, ttl_seconds: u64, now: Timestamp) -> (r: Result<
    Timestamp,
    VaultError,
>)
    ensures
        match r {
            Ok(t) => answer_expiry(*body, ttl_seconds as nat, now) == Some(t),
            Err(e) => answer_expiry(*body, ttl_seconds as nat, now) is None && e@
                == crate::backend::expiry_error(),
        },
{
    match instant_member(body, "expires_at") {
        Some(t) => Ok(t),
        None => match now.plus_seconds(ttl_seconds) {
            Some(t) => Ok(t),
            None => Err(VaultError::Internal(String::from_str("expiry out of range"))),
        },
    }
}

/// The request payload that asks for a runtime handle: `scope` and
/// `ttl_seconds`.
pub open spec fn handle_request(p: JsonValue, scope: Seq<Seq<char>>, ttl: u64) -> bool {
    two_members(p, "scope"@, "ttl_seconds"@) matches Some((s, t)) && string_array(s, scope)
        && u64_number(t, ttl)
}

/// The request payload that asks for a workload token: `audience` and
/// `ttl_seconds`.
pub open spec fn token_request(p: JsonValue, audience: Seq<char>, ttl: u64) -> bool {
    two_members(p, "audience"@, "ttl_seconds"@) matches Some((a, t)) && json_as_str(a) == Some(
        audience,
    ) && u64_number(t, ttl)
}

/// The query of an audit request: credentials, the limit, and the credential's
/// name when one is asked for.
pub open spec fn audit_query_of(credential_id: Option<Seq<char>>, limit: usize) -> Seq<
    (Seq<char>, Seq<char>),
> {
    let base = seq![("resource_type"@, "credentials"@), ("limit"@, decimal(limit as nat))];
    match credential_id {
        Some(id) => base.push(("resource_id"@, strip_vault_scheme(id))),
        None => base,
    }
}

impl AdkPlatformBackend {
    /// A backend for the platform at `base_url` (trailing slashes removed).
    pub fn new(base_url: String, api_key: String, workspace_id: String) -> (b: AdkPlatformBackend)
        ensures
            b.base_url@ == trim_trailing_slashes(base_url@),
            b.api_key@ == api_key@,
            b.workspace_id@ == workspace_id@,
    {
        AdkPlatformBackend { base_url: trim_end_slashes(base_url.as_str()), api_key, workspace_id }
    }

    /// The kind of this backend.
    pub fn backend_type(&self) -> (b: BackendType)
        ensures
            b == BackendType::AdkVault,
    {
        BackendType::AdkVault
    }

    /// The endpoint of the API path `path`.
    pub fn url(&self, path: &str) -> (u: String)
        ensures
            u@ == self.base_url@ + "/api/v1"@ + path@,
    {
        self.base_url.clone().concat("/api/v1").concat(path)
    }

    /// The headers of every request: the API key as a bearer token, and the
    /// workspace.
    pub fn request_headers(&self) -> (h: Vec<(String, String)>)
        ensures
            h@.len() == 2,
            h@[0].0@ == "Authorization"@,
            h@[0].1@ == "Bearer "@ + self.api_key@,
            h@[1].0@ == "X-Workspace-Id"@,
            h@[1].1@ == self.workspace_id@,
    {
        let mut h: Vec<(String, String)> = Vec::new();
        h.push(
            (
                String::from_str("Authorization"),
                String::from_str("Bearer ").concat(self.api_key.as_str()),
            ),
        );
        h.push((String::from_str("X-Workspace-Id"), self.workspace_id.clone()));
        h
    }

    /// The API path of the credential `credential_id`, followed by `suffix`.
    pub fn credential_path(credential_id: &str, suffix: &str) -> (p: String)
        ensures
            p@ == "/credentials/"@ + strip_vault_scheme(credential_id@) + suffix@,
    {
        let name = strip_vault_prefix(credential_id);
        String::from_str("/credentials/").concat(name.as_str()).concat(suffix)
    }

    /// The platform is healthy when a listing succeeds; 401 or 403 mean the
    /// key or workspace is invalid; anything else means it is unavailable.
    pub fn health_outcome(status: &HttpStatus) -> (r: Result<(), VaultError>)
        ensures
            match r {
                Ok(_) => success_code(status.code),
                Err(e) => !success_code(status.code) && (if status.code == 401 || status.code
                    == 403 {
                    e@ == VaultErrorView::AuthFailed("invalid API key or workspace"@)
                } else {
                    e@ == VaultErrorView::Unavailable(status_detail(status.text@))
                }),
            },
    {
        if status.is_success() {
            Ok(())
        } else if status.code == 401 || status.code == 403 {
            Err(VaultError::AuthFailed(String::from_str("invalid API key or workspace")))
        } else {
            Err(VaultError::Unavailable(crate::backend::status_detail_of(status)))
        }
    }

    /// A listing is read when it succeeded; otherwise the platform is
    /// unavailable.
    pub fn listing_status(status: &HttpStatus) -> (r: Result<(), VaultError>)
        ensures
            match r {
                Ok(_) => success_code(status.code),
                Err(e) => !success_code(status.code) && e@ == VaultErrorView::Unavailable(
                    status_detail(status.text@),
                ),
            },
    {
        if status.is_success() {
            Ok(())
        } else {
            Err(VaultError::Unavailable(crate::backend::status_detail_of(status)))
        }
    }

    /// The records of a listing answer: one per element of its list.
    pub fn credentials_from_listing(body: &JsonValue) -> (r: Vec<Credential>)
        ensures
            r.deep_view() == answer_items(*body).map_values(|v: JsonValue| platform_record(v)),
    {
        let mut out: Vec<Credential> = Vec::new();
        match items_of(body) {
            Some(items) => {
                for i in 0..items.len()
                    invariant
                        answer_items(*body) == items@,
                        out@.len() == i,
                        forall|j: int| 0 <= j < i ==> #[trigger] out@[j]@ == platform_record(items@[j]),
                {
                    out.push(parse_credential(&items[i]));
                }
            },
            None => {},
        }
        proof {
            assert(out.deep_view() =~= answer_items(*body).map_values(
                |v: JsonValue| platform_record(v),
            ));
        }
        out
    }

    /// A credential answer is read when it succeeded; a 404 means the
    /// credential `id` is unknown; anything else is an internal error.
    pub fn lookup_status(id: &str, status: &HttpStatus) -> (r: Result<(), VaultError>)
        ensures
            match r {
                Ok(_) => success_code(status.code),
                Err(e) => !success_code(status.code) && (if status.code == 404 {
                    e@ == VaultErrorView::NotFound(id@)
                } else {
                    e@ == VaultErrorView::Internal(status_detail(status.text@))
                }),
            },
    {
        if status.code == 404 {
            Err(VaultError::NotFound(String::from_str(id)))
        } else if !status.is_success() {
            Err(VaultError::Internal(crate::backend::status_detail_of(status)))
        } else {
            Ok(())
        }
    }

    /// The record a credential answer describes.
    pub fn credential_from_answer(body: &JsonValue) -> (c: Credential)
        ensures
            c@ == platform_record(answer_object(*body)),
    {
        match body.at("data") {
            Some(d) => parse_credential(d),
            None => parse_credential(body),
        }
    }

    /// The payload that asks for a runtime handle.
    pub fn runtime_handle_payload(scope: &Vec<String>, ttl_seconds: u64) -> (p: JsonValue)
        ensures
            handle_request(p, scope.deep_view(), ttl_seconds),
    {
        object_of_two(
            "scope",
            array_of_strings(scope),
            "ttl_seconds",
            number_from_u64(ttl_seconds),
        )
    }

    /// The payload that asks for a workload token.
    pub fn workload_token_payload(audience: &str, ttl_seconds: u64) -> (p: JsonValue)
        ensures
            token_request(p, audience@, ttl_seconds),
    {
        object_of_two(
            "audience",
            JsonValue::Str(String::from_str(audience)),
            "ttl_seconds",
            number_from_u64(ttl_seconds),
        )
    }

    /// The detail of a failed request.
    pub fn failure_detail_of(status: &HttpStatus, body: &str) -> (d: String)
        ensures
            d@ == failure_detail(status.text@, body@),
    {
        String::from_str("status: ").concat(status.text.as_str()).concat(" body: ").concat(body)
    }

    /// The runtime handle that a successful answer describes, read at `now`.
    pub fn runtime_handle_from_answer_at(
        credential_id: &str,
        scope: &Vec<String>,
        ttl_seconds: u64,
        body: &JsonValue,
        now: Timestamp,
    ) -> (r: Result<RuntimeSecretHandle, VaultError>)
        ensures
            match r {
                Ok(h) => platform_handle_at(
                    credential_id@,
                    scope.deep_view(),
                    ttl_seconds as nat,
                    *body,
                    now,
                ) == Ok::<RuntimeSecretHandleView, VaultErrorView>(h@),
                Err(e) => platform_handle_at(
                    credential_id@,
                    scope.deep_view(),
                    ttl_seconds as nat,
                    *body,
                    now,
                ) == Err::<RuntimeSecretHandleView, VaultErrorView>(e@),
            },
    {
        let handle_id = text_member_or_empty(body, "handle_id");
        match expiry_from(body, ttl_seconds, now) {
            Ok(expires_at) => Ok(
                RuntimeSecretHandle {
                    handle_id,
                    credential_id: String::from_str(credential_id),
                    expires_at,
                    scope: copy_strings(scope),
                },
            ),
            Err(e) => Err(e),
        }
    }

    /// The runtime handle that a successful answer describes; where the
    /// answer gives no expiry, it runs `ttl_seconds` from the current time.
    pub fn runtime_handle_from_answer(
        credential_id: &str,
        scope: &Vec<String>,
        ttl_seconds: u64,
        body: &JsonValue,
    ) -> (r: Result<RuntimeSecretHandle, VaultError>)
        ensures
            platform_handle(r, credential_id@, scope.deep_view(), ttl_seconds as nat, *body),
    {
        let now = current_time();
        let r = Self::runtime_handle_from_answer_at(credential_id, scope, ttl_seconds, body, now);
        proof {
            assert(clock_reading(now));
        }
        r
    }

    /// The workload token that a successful answer describes, read at `now`.
    pub fn workload_token_from_answer_at(
        credential_id: &str,
        audience: &str,
        ttl_seconds: u64,
        body: &JsonValue,
        now: Timestamp,
    ) -> (r: Result<WorkloadToken, VaultError>)
        ensures
            match r {
                Ok(t) => platform_token_at(
                    credential_id@,
                    audience@,
                    ttl_seconds as nat,
                    *body,
                    now,
                ) == Ok::<WorkloadTokenView, VaultErrorView>(t@),
                Err(e) => platform_token_at(
                    credential_id@,
                    audience@,
                    ttl_seconds as nat,
                    *body,
                    now,
                ) == Err::<WorkloadTokenView, VaultErrorView>(e@),
            },
    {
        let token_id = text_member_or_empty(body, "token_id");
        let token_type = text_member(body, "token_type", "platform");
        match expiry_from(body, ttl_seconds, now) {
            Ok(expires_at) => Ok(
                WorkloadToken {
                    token_id,
                    credential_id: String::from_str(credential_id),
                    token_type,
                    expires_at,
                    audience: String::from_str(audience),
                },
            ),
            Err(e) => Err(e),
        }
    }

    /// The workload token that a successful answer describes; where the
    /// answer gives no expiry, it runs `ttl_seconds` from the current time.
    pub fn workload_token_from_answer(
        credential_id: &str,
        audience: &str,
        ttl_seconds: u64,
        body: &JsonValue,
    ) -> (r: Result<WorkloadToken, VaultError>)
        ensures
            platform_token(r, credential_id@, audience@, ttl_seconds as nat, *body),
    {
        let now = current_time();
        let r = Self::workload_token_from_answer_at(credential_id, audience, ttl_seconds, body, now);
        proof {
            assert(clock_reading(now));
        }
        r
    }

    /// A rotation succeeded, or failed with the answer's text.
    pub fn rotation_outcome(status: &HttpStatus, body: &str) -> (r: Result<(), VaultError>)
        ensures
            match r {
                Ok(_) => success_code(status.code),
                Err(e) => !success_code(status.code) && e@ == VaultErrorView::RotationFailed(body@),
            },
    {
        if status.is_success() {
            Ok(())
        } else {
            Err(VaultError::RotationFailed(String::from_str(body)))
        }
    }

    /// A deletion succeeded or found nothing to delete; otherwise it is an
    /// internal error with the answer's text.
    pub fn revoke_outcome(status: &HttpStatus, body: &str) -> (r: Result<(), VaultError>)
        ensures
            match r {
                Ok(_) => success_code(status.code) || status.code == 404,
                Err(e) => !(success_code(status.code) || status.code == 404) && e@
                    == VaultErrorView::Internal(body@),
            },
    {
        if status.is_success() || status.code == 404 {
            Ok(())
        } else {
            Err(VaultError::Internal(String::from_str(body)))
        }
    }

    /// The query of an audit request.
    pub fn audit_query(credential_id: Option<&str>, limit: usize) -> (q: Vec<(String, String)>)
        ensures
            q@.len() == audit_query_of(
                match credential_id {
                    Some(id) => Some(id@),
                    None => None,
                },
                limit,
            ).len(),
            forall|i: int|
                0 <= i < q@.len() ==> (#[trigger] q@[i]).0@ == audit_query_of(
                    match credential_id {
                        Some(id) => Some(id@),
                        None => None,
                    },
                    limit,
                )[i].0 && q@[i].1@ == audit_query_of(
                    match credential_id {
                        Some(id) => Some(id@),
                        None => None,
                    },
                    limit,
                )[i].1,
    {
        let mut q: Vec<(String, String)> = Vec::new();
        q.push((String::from_str("resource_type"), String::from_str("credentials")));
        q.push((String::from_str("limit"), decimal_string(limit as u64)));
        match credential_id {
            Some(id) => {
                q.push((String::from_str("resource_id"), strip_vault_prefix(id)));
            },
            None => {},
        }
        q
    }

    /// The events of an audit answer with status `status`: those of its body
    /// where the request succeeded, none where it failed.
    pub fn audit_events_for_status(status: &HttpStatus, body: &JsonValue) -> (r: Vec<AuditEvent>)
        ensures
            !success_code(status.code) ==> r@.len() == 0,
            success_code(status.code) ==> r@.len() == answer_items(*body).len(),
            success_code(status.code) ==> forall|i: int|
                0 <= i < r@.len() ==> stamped_event(#[trigger] r@[i]@, answer_items(*body)[i]),
    {
        if status.is_success() {
            Self::audit_events_from_answer(body)
        } else {
            Vec::new()
        }
    }

    /// The events of a successful audit answer, one per element of its list;
    /// an entry without a readable creation time is stamped from the clock.
    pub fn audit_events_from_answer(body: &JsonValue) -> (r: Vec<AuditEvent>)
        ensures
            r@.len() == answer_items(*body).len(),
            forall|i: int|
                0 <= i < r@.len() ==> stamped_event(#[trigger] r@[i]@, answer_items(*body)[i]),
    {
        let mut out: Vec<AuditEvent> = Vec::new();
        match items_of(body) {
            Some(items) => {
                for i in 0..items.len()
                    invariant
                        answer_items(*body) == items@,
                        out@.len() == i,
                        forall|j: int|
                            0 <= j < i ==> stamped_event(#[trigger] out@[j]@, items@[j]),
                {
                    out.push(event_of(&items[i]));
                }
            },
            None => {},
        }
        out
    }
}

} // verus!
