//! GCP Secret Manager: its endpoints, and the records, payloads and outcomes
//! made from what it answers.

use vstd::prelude::*;
use crate::backend::{
    join_pages, joined, issue_remote_handle, mint_remote_token, plain_credential, plain_record, remote_handle_issued,
    remote_token_minted, status_detail, status_detail_of, success_code, HttpStatus,
};
use crate::clock::fresh_id;
use crate::error::{VaultError, VaultErrorView};
use crate::json::{
    json_as_array, json_as_object, json_index, json_text, json_text_of, object_of, sole_member,
    str_at, str_member, str_or, JsonValue,
};
use crate::text::{last_segment, last_segment_of, strip_vault_prefix, strip_vault_scheme};
use crate::types::{
    AuditEvent, BackendType, Credential, CredentialView, RuntimeSecretHandle, WorkloadToken,
};

verus! {

/// The character of the standard base64 alphabet for the six bits `v`:
/// `A`-`Z`, `a`-`z`, `0`-`9`, `+` and `/`.
pub open spec fn base64_char(v: int) -> char {
    if v < 26 {
        ('A' as int + v) as char
    } else if v < 52 {
        ('a' as int + (v - 26)) as char
    } else if v < 62 {
        ('0' as int + (v - 52)) as char
    } else if v == 62 {
        '+'
    } else {
        '/'
    }
}

/// The standard base64 encoding of `bytes`: each group of three bytes gives
/// four characters of six bits each, high bits first; a last group of one or
/// two bytes is filled with zero bits and padded with `=` to four characters.
pub open spec fn base64_standard(bytes: Seq<u8>) -> Seq<char>
    decreases bytes.len(),
{
    if bytes.len() == 0 {
        Seq::empty()
    } else if bytes.len() == 1 {
        seq![base64_char((bytes[0] as int) / 4), base64_char(((bytes[0] as int) % 4) * 16), '=', '=']
    } else if bytes.len() == 2 {
        seq![
            base64_char((bytes[0] as int) / 4),
            base64_char(((bytes[0] as int) % 4) * 16 + (bytes[1] as int) / 16),
            base64_char(((bytes[1] as int) % 16) * 4),
            '=',
        ]
    } else {
        seq![
            base64_char((bytes[0] as int) / 4),
            base64_char(((bytes[0] as int) % 4) * 16 + (bytes[1] as int) / 16),
            base64_char(((bytes[1] as int) % 16) * 4 + (bytes[2] as int) / 64),
            base64_char((bytes[2] as int) % 64),
        ] + base64_standard(bytes.subrange(3, bytes.len() as int))
    }
}

/// `base64::Engine::encode` with the standard engine of
/// `base64::engine::general_purpose`: the standard alphabet, with padding.
#[verifier::external_body]
fn base64_encode(bytes: &[u8]) -> (s: String)
    ensures
        s@ == base64_standard(bytes@),
{
    base64::Engine::encode(&base64::engine::general_purpose::STANDARD, bytes)
}

/// GCP Secret Manager backend for one project.
pub struct GcpBackend {
    pub project_id: String,
}

/// The labels of a secret: `key=value` for each member of its `labels`
/// object, the value as its JSON text.
pub open spec fn gcp_labels(item: JsonValue) -> Seq<Seq<char>> {
    match json_as_object(json_index(item, "labels"@)) {
        Some(members) => members.map_values(
            |m: (String, JsonValue)| m.0@ + "="@ + json_text(m.1),
        ),
        None => Seq::empty(),
    }
}

/// The record of the secret `name` described by `item`: owned by `gcp`,
/// tagged with its labels.
pub open spec fn gcp_record(name: Seq<char>, item: JsonValue) -> CredentialView {
    CredentialView { tags: gcp_labels(item), ..plain_record(name, name, "gcp"@, BackendType::Gcp) }
}

/// The short name of a listed secret: the last segment of its resource name.
pub open spec fn gcp_item_name(item: JsonValue) -> Seq<char> {
    last_segment_of(
        match str_at(item, "name"@) {
            Some(s) => s,
            None => Seq::empty(),
        },
    )
}

/// The records of a listing: one per element of `secrets`.
pub open spec fn gcp_listing(body: JsonValue) -> Seq<CredentialView> {
    match json_as_array(json_index(body, "secrets"@)) {
        Some(items) => items.map_values(|item: JsonValue| gcp_record(gcp_item_name(item), item)),
        None => Seq::empty(),
    }
}

fn labels_of(item: &JsonValue) -> (r: Vec<String>)
    ensures
        r.deep_view() == gcp_labels(*item),
{
    let mut out: Vec<String> = Vec::new();
    match item.at("labels") {
        Some(t) => match t.as_object() {
            Some(members) => {
                for i in 0..members.len()
                    invariant
                        out@.len() == i,
                        json_as_object(json_index(*item, "labels"@)) == Some(members@),
                        forall|j: int|
                            0 <= j < i ==> #[trigger] out@[j]@ == members@[j].0@ + "="@ + json_text(
                                members@[j].1,
                            ),
                {
                    let value = json_text_of(&members[i].1);
                    out.push(members[i].0.clone().concat("=").concat(value.as_str()));
                }
                proof {
                    assert(out.deep_view() =~= gcp_labels(*item));
                }
            },
            None => {
                proof {
                    assert(out.deep_view() =~= gcp_labels(*item));
                }
            },
        },
        None => {
            proof {
                assert(out.deep_view() =~= gcp_labels(*item));
            }
        },
    }
    out
}

fn record_of(name: &str, item: &JsonValue) -> (c: Credential)
    ensures
        c@ == gcp_record(name@, *item),
{
    let mut c = plain_credential(name, name, "gcp", BackendType::Gcp);
    c.tags = labels_of(item);
    c
}

/// The payload that adds the version `value`:
/// `{"payload": {"data": base64(value)}}`.
pub open spec fn version_payload(p: JsonValue, value: Seq<char>) -> bool {
    sole_member(p, "payload"@) matches Some(d) && sole_member(d, "data"@) matches Some(
        JsonValue::Str(encoded),
    ) && encoded@ == base64_standard(vstd::utf8::encode_utf8(value))
}

impl GcpBackend {
    /// A backend for the project `project_id`.
    pub fn new(project_id: String) -> (b: GcpBackend)
        ensures
            b.project_id@ == project_id@,
    {
        GcpBackend { project_id }
    }

    /// The kind of this backend.
    pub fn backend_type(&self) -> (b: BackendType)
        ensures
            b == BackendType::Gcp,
    {
        BackendType::Gcp
    }

    /// The project's Secret Manager endpoint.
    pub fn base_url(&self) -> (u: String)
        ensures
            u@ == "https://secretmanager.googleapis.com/v1/projects/"@ + self.project_id@,
    {
        String::from_str("https://secretmanager.googleapis.com/v1/projects/").concat(
            self.project_id.as_str(),
        )
    }

    /// The endpoint that a health check lists one secret from.
    pub fn health_url(&self) -> (u: String)
        ensures
            u@ == "https://secretmanager.googleapis.com/v1/projects/"@ + self.project_id@
                + "/secrets?pageSize=1"@,
    {
        self.base_url().concat("/secrets?pageSize=1")
    }

    /// The endpoint that lists secrets.
    pub fn secrets_url(&self) -> (u: String)
        ensures
            u@ == "https://secretmanager.googleapis.com/v1/projects/"@ + self.project_id@
                + "/secrets"@,
    {
        self.base_url().concat("/secrets")
    }

    /// The address of the next page of a listing: the listing endpoint with
    /// the answer's `nextPageToken` as `pageToken`, where the answer has a
    /// token that is not empty.
    pub fn next_page_url(&self, body: &JsonValue) -> (u: Option<String>)
        ensures
            u.deep_view() == (match str_at(*body, "nextPageToken"@) {
                Some(t) => if t.len() > 0 {
                    Some(
                        "https://secretmanager.googleapis.com/v1/projects/"@ + self.project_id@
                            + "/secrets"@ + "?pageToken="@ + t,
                    )
                } else {
                    None
                },
                None => None,
            }),
    {
        let token = str_member(body, "nextPageToken");
        match token {
            Some(t) => {
                assert(str_at(*body, "nextPageToken"@) == Some(t@));
                if !t.as_str().is_empty() {
                    let u = self.secrets_url().concat("?pageToken=").concat(t.as_str());
                    assert(u@ =~= "https://secretmanager.googleapis.com/v1/projects/"@
                        + self.project_id@ + "/secrets"@ + "?pageToken="@ + t@);
                    Some(u)
                } else {
                    None
                }
            },
            None => None,
        }
    }

    /// The endpoint of the secret `name`.
    pub fn secret_url(&self, name: &str) -> (u: String)
        ensures
            u@ == "https://secretmanager.googleapis.com/v1/projects/"@ + self.project_id@
                + "/secrets/"@ + name@,
    {
        self.base_url().concat("/secrets/").concat(name)
    }

    /// The project is healthy when listing succeeds, else unavailable.
    pub fn health_outcome(status: &HttpStatus) -> (r: Result<(), VaultError>)
        ensures
            match r {
                Ok(_) => success_code(status.code),
                Err(e) => !success_code(status.code) && e@ == VaultErrorView::Unavailable(
                    status_detail(status.text@),
                ),
            },
    {
        if status.is_success() {
            Ok(())
        } else {
            Err(VaultError::Unavailable(status_detail_of(status)))
        }
    }

    /// The records of a listing that came in pages: those of each answer,
    /// one answer after another.
    pub fn credentials_from_pages(pages: &Vec<JsonValue>) -> (r: Vec<Credential>)
        ensures
            r.deep_view() == joined(pages@.map_values(|b: JsonValue| gcp_listing(b))),
    {
        let mut per: Vec<Vec<Credential>> = Vec::new();
        for i in 0..pages.len()
            invariant
                per@.len() == i,
                forall|j: int| 0 <= j < i ==> #[trigger] per@[j].deep_view() == gcp_listing(pages@[j]),
        {
            per.push(Self::credentials_from_listing(&pages[i]));
        }
        proof {
            assert(per@.map_values(|p: Vec<Credential>| p.deep_view()) =~= pages@.map_values(
                |b: JsonValue| gcp_listing(b),
            ));
        }
        join_pages(per)
    }

    /// The records of a listing answer.
    pub fn credentials_from_listing(body: &JsonValue) -> (r: Vec<Credential>)
        ensures
            r.deep_view() == gcp_listing(*body),
    {
        let mut out: Vec<Credential> = Vec::new();
        match body.at("secrets") {
            Some(v) => match v.as_array() {
                Some(items) => {
                    for i in 0..items.len()
                        invariant
                            out@.len() == i,
                            json_as_array(json_index(*body, "secrets"@)) == Some(items@),
                            forall|j: int|
                                0 <= j < i ==> #[trigger] out@[j]@ == gcp_record(
                                    gcp_item_name(items@[j]),
                                    items@[j],
                                ),
                    {
                        let full = str_or(str_member(&items[i], "name"), "");
                        let name = last_segment(full.as_str());
                        proof {
                            reveal_strlit("");
                            assert(""@ =~= Seq::<char>::empty());
                            assert(full@ == match str_at(items@[i as int], "name"@) {
                                Some(s) => s,
                                None => Seq::empty(),
                            });
                        }
                        out.push(record_of(name.as_str(), &items[i]));
                    }
                    proof {
                        assert(out.deep_view() =~= gcp_listing(*body));
                    }
                },
                None => {
                    proof {
                        assert(out.deep_view() =~= gcp_listing(*body));
                    }
                },
            },
            None => {
                proof {
                    assert(out.deep_view() =~= gcp_listing(*body));
                }
            },
        }
        out
    }

    /// The record of the secret `name` from its description.
    pub fn credential_from_secret(name: &str, body: &JsonValue) -> (c: Credential)
        ensures
            c@ == gcp_record(name@, *body),
    {
        record_of(name, body)
    }

    /// The payload that adds `value` as a new version of a secret.
    pub fn version_payload(value: &str) -> (p: JsonValue)
        ensures
            version_payload(p, value@),
    {
        let encoded = base64_encode(value.as_bytes());
        object_of("payload", object_of("data", JsonValue::Str(encoded)))
    }

    /// The request that rotates the credential `credential_id`: the endpoint
    /// that adds a version, and the payload of a fresh random identifier.
    pub fn rotation_request(&self, credential_id: &str) -> (r: (String, JsonValue))
        ensures
            r.0@ == "https://secretmanager.googleapis.com/v1/projects/"@ + self.project_id@
                + "/secrets/"@ + strip_vault_scheme(credential_id@) + ":addVersion"@,
            exists|value: Seq<char>| value.len() == 36 && version_payload(r.1, value),
    {
        let name = strip_vault_prefix(credential_id);
        let value = fresh_id();
        let payload = Self::version_payload(value.as_str());
        (self.secret_url(name.as_str()).concat(":addVersion"), payload)
    }

    /// Adding a version succeeded, or the rotation failed with the status.
    pub fn rotation_outcome(status: &HttpStatus) -> (r: Result<(), VaultError>)
        ensures
            match r {
                Ok(_) => success_code(status.code),
                Err(e) => !success_code(status.code) && e@ == VaultErrorView::RotationFailed(
                    status_detail(status.text@),
                ),
            },
    {
        if status.is_success() {
            Ok(())
        } else {
            Err(VaultError::RotationFailed(status_detail_of(status)))
        }
    }

    /// Deleting succeeded or the secret was already gone; otherwise it is an
    /// internal error with the status.
    pub fn revoke_outcome(status: &HttpStatus) -> (r: Result<(), VaultError>)
        ensures
            match r {
                Ok(_) => success_code(status.code) || status.code == 404,
                Err(e) => !(success_code(status.code) || status.code == 404) && e@
                    == VaultErrorView::Internal(status_detail(status.text@)),
            },
    {
        if status.is_success() || status.code == 404 {
            Ok(())
        } else {
            Err(VaultError::Internal(status_detail_of(status)))
        }
    }

    /// A runtime handle for a credential the project holds.
    pub fn issue_runtime_handle(credential_id: &str, scope: &Vec<String>, ttl_seconds: u64) -> (r:
        Result<RuntimeSecretHandle, VaultError>)
        ensures
            remote_handle_issued(r, credential_id@, scope.deep_view(), ttl_seconds as nat),
    {
        issue_remote_handle(credential_id, scope, ttl_seconds)
    }

    /// A `gcp-identity` workload token for a credential the project holds.
    pub fn mint_workload_token(credential_id: &str, audience: &str, ttl_seconds: u64) -> (r: Result<
        WorkloadToken,
        VaultError,
    >)
        ensures
            remote_token_minted(r, credential_id@, "gcp-identity"@, audience@, ttl_seconds as nat),
    {
        mint_remote_token(credential_id, audience, ttl_seconds, "gcp-identity")
    }

    /// The project's audit trail lives in Cloud Audit Logs, not queried here:
    /// the answer is empty.
    pub fn audit_log() -> (r: Vec<AuditEvent>)
        ensures
            r@.len() == 0,
    {
        Vec::new()
    }
}

} // verus!
