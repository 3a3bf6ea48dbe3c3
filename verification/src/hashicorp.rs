//! HashiCorp Vault (KV version 2): its endpoints, and the records, payloads
//! and outcomes made from what it answers.

use vstd::prelude::*;
use crate::backend::{
    issue_remote_handle, mint_remote_token, plain_credential, plain_credentials, plain_record,
    plain_records, remote_handle_issued, remote_token_minted, status_detail, status_detail_of,
    success_code, HttpStatus,
};
use crate::clock::{parse_utc, parsed_utc, fresh_id};
use crate::error::{VaultError, VaultErrorView};
use crate::json::{
    json_as_array, json_index, object_of, sole_member, str_at, str_member, string_elements,
    strings_of, JsonValue,
};
use crate::text::{strip_vault_prefix, strip_vault_scheme};
use crate::types::{
    AuditEvent, BackendType, Credential, CredentialView, RuntimeSecretHandle, Timestamp,
    WorkloadToken,
};

verus! {

/// A revocation answered with `code` succeeded: the deletion of every
/// version did, or the secret was already gone (`404`).
pub open spec fn revocation_accepted(code: u16) -> bool {
    success_code(code) || code == 404
}

/// Revoking twice is harmless: once a secret's metadata is deleted, a second
/// deletion is answered `404`, and that revocation succeeds as well.
pub proof fn lemma_revoke_idempotent(first: u16, second: u16)
    requires
        revocation_accepted(first),
        second == 404,
    ensures
        revocation_accepted(second),
{
}

/// HashiCorp Vault KV version 2 backend: server address, token and mount.
pub struct HashicorpBackend {
    pub addr: String,
    pub token: String,
    pub mount: String,
}

/// The names of the secrets in a metadata listing: the string elements of
/// `data.keys`.
pub open spec fn listed_keys(body: JsonValue) -> Seq<Seq<char>> {
    match json_as_array(json_index(json_index(body, "data"@), "keys"@)) {
        Some(items) => strings_of(items),
        None => Seq::empty(),
    }
}

/// The record of the secret at `path`, from its metadata: last rotated when
/// it was last updated, last accessed when it was created.
pub open spec fn metadata_record(path: Seq<char>, body: JsonValue) -> CredentialView {
    let data = json_index(body, "data"@);
    CredentialView {
        last_rotated: match str_at(data, "updated_time"@) {
            Some(t) => parsed_utc(t),
            None => None,
        },
        last_accessed: match str_at(data, "created_time"@) {
            Some(t) => parsed_utc(t),
            None => None,
        },
        ..plain_record(path, path, "hashicorp"@, BackendType::Hashicorp)
    }
}

fn parsed_opt(s: Option<String>) -> (r: Option<Timestamp>)
    ensures
        r == match s.deep_view() {
            Some(t) => parsed_utc(t),
            None => None,
        },
{
    match s {
        Some(t) => parse_utc(t.as_str()),
        None => None,
    }
}

impl HashicorpBackend {
    /// A backend for the server at `addr`; the mount defaults to `secret`.
    pub fn new(addr: String, token: String, mount: Option<String>) -> (b: HashicorpBackend)
        ensures
            b.addr@ == addr@,
            b.token@ == token@,
            b.mount@ == match mount {
                Some(m) => m@,
                None => "secret"@,
            },
    {
        let mount = match mount {
            Some(m) => m,
            None => String::from_str("secret"),
        };
        HashicorpBackend { addr, token, mount }
    }

    /// The kind of this backend.
    pub fn backend_type(&self) -> (b: BackendType)
        ensures
            b == BackendType::Hashicorp,
    {
        BackendType::Hashicorp
    }

    /// The data endpoint of the secret at `path`.
    pub fn url(&self, path: &str) -> (u: String)
        ensures
            u@ == self.addr@ + "/v1/"@ + self.mount@ + "/data/"@ + path@,
    {
        self.addr.clone().concat("/v1/").concat(self.mount.as_str()).concat("/data/").concat(path)
    }

    /// The metadata endpoint of the secret at `path`.
    pub fn metadata_url(&self, path: &str) -> (u: String)
        ensures
            u@ == self.addr@ + "/v1/"@ + self.mount@ + "/metadata/"@ + path@,
    {
        self.addr.clone().concat("/v1/").concat(self.mount.as_str()).concat("/metadata/").concat(
            path,
        )
    }

    /// The health endpoint of the server.
    pub fn health_url(&self) -> (u: String)
        ensures
            u@ == self.addr@ + "/v1/sys/health"@,
    {
        self.addr.clone().concat("/v1/sys/health")
    }

    /// The server is healthy when it answers with success, or with 429 (a
    /// standby node); otherwise it is unavailable.
    pub fn health_outcome(status: &HttpStatus) -> (r: Result<(), VaultError>)
        ensures
            match r {
                Ok(_) => success_code(status.code) || status.code == 429,
                Err(e) => !(success_code(status.code) || status.code == 429) && e@
                    == VaultErrorView::Unavailable(status_detail(status.text@)),
            },
    {
        if status.is_success() || status.code == 429 {
            Ok(())
        } else {
            Err(VaultError::Unavailable(status_detail_of(status)))
        }
    }

    /// A listing answered 404 is empty.
    pub fn listing_is_empty(status: &HttpStatus) -> (b: bool)
        ensures
            b == (status.code == 404),
    {
        status.code == 404
    }

    /// The records of a metadata listing: one per key of `data.keys`, named
    /// by it, owned by `hashicorp`.
    pub fn credentials_from_listing(body: &JsonValue) -> (r: Vec<Credential>)
        ensures
            r.deep_view() == plain_records(listed_keys(*body), "hashicorp"@, BackendType::Hashicorp),
    {
        let keys: Vec<String> = match body.at("data") {
            Some(data) => match data.at("keys") {
                Some(keys) => match keys.as_array() {
                    Some(items) => string_elements(items),
                    None => Vec::new(),
                },
                None => Vec::new(),
            },
            None => Vec::new(),
        };
        proof {
            assert(keys.deep_view() =~= listed_keys(*body));
        }
        plain_credentials(&keys, "hashicorp", BackendType::Hashicorp)
    }

    /// The record of the secret at `path`, from its metadata.
    pub fn credential_from_metadata(path: &str, body: &JsonValue) -> (c: Credential)
        ensures
            c@ == metadata_record(path@, *body),
    {
        let (updated, created) = match body.at("data") {
            Some(data) => (str_member(data, "updated_time"), str_member(data, "created_time")),
            None => (None, None),
        };
        let mut c = plain_credential(path, path, "hashicorp", BackendType::Hashicorp);
        c.last_rotated = parsed_opt(updated);
        c.last_accessed = parsed_opt(created);
        c
    }

    /// The payload that writes `value` as a new version of a secret:
    /// `{"data": {"value": value}}`.
    pub fn rotation_payload(value: String) -> (p: JsonValue)
        ensures
            sole_member(p, "data"@) matches Some(d) && sole_member(d, "value"@) == Some(
                JsonValue::Str(value),
            ),
    {
        object_of("data", object_of("value", JsonValue::Str(value)))
    }

    /// The request that rotates the credential `credential_id`: its data
    /// endpoint, and a payload whose value is a fresh random identifier.
    pub fn rotation_request(&self, credential_id: &str) -> (r: (String, JsonValue))
        ensures
            r.0@ == self.addr@ + "/v1/"@ + self.mount@ + "/data/"@ + strip_vault_scheme(credential_id@),
            sole_member(r.1, "data"@) matches Some(d) && sole_member(d, "value"@) matches Some(
                JsonValue::Str(v),
            ) && v@.len() == 36,
    {
        let path = strip_vault_prefix(credential_id);
        let value = fresh_id();
        (self.url(path.as_str()), Self::rotation_payload(value))
    }

    /// A rotation succeeded when the write did; otherwise it failed with the
    /// status.
    pub fn rotation_outcome(status: &HttpStatus) -> (r: Result<(), VaultError>)
        ensures
            match r {
                Ok(_) => success_code(status.code),
                Err(e) => !success_code(status.code) && e@ == VaultErrorView::RotationFailed(
                    status_detail(status.text@),
                ),
            },
    {
        if status.is_success() {
            Ok(())
        } else {
            Err(VaultError::RotationFailed(status_detail_of(status)))
        }
    }

    /// A revocation (deleting every version) succeeded when the deletion did or
    /// the secret was already gone; otherwise it is an internal error.
    pub fn revoke_outcome(status: &HttpStatus) -> (r: Result<(), VaultError>)
        ensures
            match r {
                Ok(_) => revocation_accepted(status.code),
                Err(e) => !revocation_accepted(status.code) && e@ == VaultErrorView::Internal(
                    status_detail(status.text@),
                ),
            },
    {
        if status.is_success() || status.code == 404 {
            Ok(())
        } else {
            Err(VaultError::Internal(status_detail_of(status)))
        }
    }

    /// A runtime handle for a credential the server holds.
    pub fn issue_runtime_handle(credential_id: &str, scope: &Vec<String>, ttl_seconds: u64) -> (r:
        Result<RuntimeSecretHandle, VaultError>)
        ensures
            remote_handle_issued(r, credential_id@, scope.deep_view(), ttl_seconds as nat),
    {
        issue_remote_handle(credential_id, scope, ttl_seconds)
    }

    /// A `vault-token` workload token for a credential the server holds.
    pub fn mint_workload_token(credential_id: &str, audience: &str, ttl_seconds: u64) -> (r: Result<
        WorkloadToken,
        VaultError,
    >)
        ensures
            remote_token_minted(r, credential_id@, "vault-token"@, audience@, ttl_seconds as nat),
    {
        mint_remote_token(credential_id, audience, ttl_seconds, "vault-token")
    }

    /// Audit logs of the server are kept by its audit devices, not queried
    /// here: the answer is empty.
    pub fn audit_log() -> (r: Vec<AuditEvent>)
        ensures
            r@.len() == 0,
    {
        Vec::new()
    }
}

} // verus!
