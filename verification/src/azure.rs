//! Azure Key Vault: its endpoints, and the records, payloads and outcomes
//! made from what it answers.

use vstd::prelude::*;
use crate::backend::{
    join_pages, joined, issue_remote_handle, mint_remote_token, plain_credential, plain_record, remote_handle_issued,
    remote_token_minted, status_detail, status_detail_of, success_code, HttpStatus,
};
use crate::clock::{fresh_id, utc_from_timestamp, utc_from_unix};
use crate::error::{VaultError, VaultErrorView};
use crate::json::{
    json_as_array, json_as_bool, json_as_i64, json_as_object, json_as_str, json_index, object_of,
    sole_member, str_at, str_member, str_or, JsonValue,
};
use crate::text::{
    last_segment, last_segment_of, strip_vault_prefix, strip_vault_scheme, trim_end_slashes,
    trim_trailing_slashes,
};
use crate::types::{
    AuditEvent, BackendType, Credential, CredentialStatus, CredentialView, RuntimeSecretHandle,
    Timestamp, WorkloadToken,
};

verus! {

/// Azure Key Vault backend: vault address (without a trailing slash) and
/// access token.
pub struct AzureBackend {
    pub vault_url: String,
    pub access_token: String,
}

/// The instant of the Unix time in `v[key]`, when it is an integer that a UTC
/// instant can hold.
pub open spec fn unix_time_at(v: JsonValue, key: Seq<char>) -> Option<Timestamp> {
    match json_as_i64(json_index(v, key)) {
        Some(ts) => utc_from_unix(ts, 0),
        None => None,
    }
}

/// The tags of a secret: `key=value` for each member of its `tags` object, a
/// value that is no string counting as empty.
pub open spec fn azure_tags(item: JsonValue) -> Seq<Seq<char>> {
    match json_as_object(json_index(item, "tags"@)) {
        Some(members) => members.map_values(
            |m: (String, JsonValue)|
                m.0@ + "="@ + match json_as_str(m.1) {
                    Some(s) => s,
                    None => Seq::empty(),
                },
        ),
        None => Seq::empty(),
    }
}

/// The record of the secret `name` from its description `item`: expiring and
/// last rotated at the Unix times of `attributes.exp` and `attributes.updated`,
/// revoked when `attributes.enabled` is false, tagged when `with_tags`.
pub open spec fn azure_record(name: Seq<char>, item: JsonValue, with_tags: bool) -> CredentialView {
    let attrs = json_index(item, "attributes"@);
    let enabled = match json_as_bool(json_index(attrs, "enabled"@)) {
        Some(b) => b,
        None => true,
    };
    CredentialView {
        expires_at: unix_time_at(attrs, "exp"@),
        last_rotated: unix_time_at(attrs, "updated"@),
        status: if enabled {
            CredentialStatus::Active
        } else {
            CredentialStatus::Revoked
        },
        tags: if with_tags {
            azure_tags(item)
        } else {
            Seq::empty()
        },
        ..plain_record(name, name, "azure"@, BackendType::Azure)
    }
}

/// The name of a listed secret: the last segment of its `id` address.
pub open spec fn azure_item_name(item: JsonValue) -> Seq<char> {
    last_segment_of(
        match str_at(item, "id"@) {
            Some(s) => s,
            None => Seq::empty(),
        },
    )
}

/// The records of a listing: one per element of `value`.
pub open spec fn azure_listing(body: JsonValue) -> Seq<CredentialView> {
    match json_as_array(json_index(body, "value"@)) {
        Some(items) => items.map_values(
            |item: JsonValue| azure_record(azure_item_name(item), item, true),
        ),
        None => Seq::empty(),
    }
}

fn unix_time_member(v: Option<&JsonValue>, key: &str) -> (r: Option<Timestamp>)
    ensures
        r == unix_time_at(
            match v {
                Some(x) => *x,
                None => JsonValue::Null,
            },
            key@,
        ),
{
    match v {
        Some(x) => match x.at(key) {
            Some(y) => match y.as_i64() {
                Some(ts) => utc_from_timestamp(ts, 0),
                None => None,
            },
            None => None,
        },
        None => None,
    }
}

fn tags_of(item: &JsonValue) -> (r: Vec<String>)
    ensures
        r.deep_view() == azure_tags(*item),
{
    let mut out: Vec<String> = Vec::new();
    match item.at("tags") {
        Some(t) => match t.as_object() {
            Some(members) => {
                for i in 0..members.len()
                    invariant
                        out@.len() == i,
                        json_as_object(json_index(*item, "tags"@)) == Some(members@),
                        forall|j: int|
                            0 <= j < i ==> #[trigger] out@[j]@ == members@[j].0@ + "="@ + match json_as_str(
                                members@[j].1,
                            ) {
                                Some(s) => s,
                                None => Seq::empty(),
                            },
                {
                    let value = match members[i].1.as_str() {
                        Some(s) => s.clone(),
                        None => String::new(),
                    };
                    out.push(members[i].0.clone().concat("=").concat(value.as_str()));
                }
                proof {
                    assert(out.deep_view() =~= azure_tags(*item));
                }
            },
            None => {
                proof {
                    assert(out.deep_view() =~= azure_tags(*item));
                }
            },
        },
        None => {
            proof {
                assert(out.deep_view() =~= azure_tags(*item));
            }
        },
    }
    out
}

fn record_of(name: &str, item: &JsonValue, with_tags: bool) -> (c: Credential)
    ensures
        c@ == azure_record(name@, *item, with_tags),
{
    let attrs = item.at("attributes");
    let enabled = match attrs {
        Some(a) => match a.at("enabled") {
            Some(e) => match e.as_bool() {
                Some(b) => b,
                None => true,
            },
            None => true,
        },
        None => true,
    };
    let mut c = plain_credential(name, name, "azure", BackendType::Azure);
    c.expires_at = unix_time_member(attrs, "exp");
    c.last_rotated = unix_time_member(attrs, "updated");
    if !enabled {
        c.status = CredentialStatus::Revoked;
    }
    if with_tags {
        c.tags = tags_of(item);
    }
    c
}

impl AzureBackend {
    /// A backend for the vault at `vault_url`, trailing slashes removed.
    pub fn new(vault_url: String, access_token: String) -> (b: AzureBackend)
        ensures
            b.vault_url@ == trim_trailing_slashes(vault_url@),
            b.access_token@ == access_token@,
    {
        AzureBackend { vault_url: trim_end_slashes(vault_url.as_str()), access_token }
    }

    /// The kind of this backend.
    pub fn backend_type(&self) -> (b: BackendType)
        ensures
            b == BackendType::Azure,
    {
        BackendType::Azure
    }

    /// The endpoint that lists secrets.
    pub fn secrets_url(&self) -> (u: String)
        ensures
            u@ == self.vault_url@ + "/secrets?api-version=7.4"@,
    {
        self.vault_url.clone().concat("/secrets?api-version=7.4")
    }

    /// The address of the next page of a listing: the answer's `nextLink`,
    /// where it has one.
    pub fn next_page_url(body: &JsonValue) -> (u: Option<String>)
        ensures
            u.deep_view() == str_at(*body, "nextLink"@),
    {
        str_member(body, "nextLink")
    }

    /// The endpoint of the secret `name`.
    pub fn secret_url(&self, name: &str) -> (u: String)
        ensures
            u@ == self.vault_url@ + "/secrets/"@ + name@ + "?api-version=7.4"@,
    {
        self.vault_url.clone().concat("/secrets/").concat(name).concat("?api-version=7.4")
    }

    /// The vault is healthy when a listing succeeds; a 401 means the token
    /// expired or is invalid; anything else means it is unavailable.
    pub fn health_outcome(status: &HttpStatus) -> (r: Result<(), VaultError>)
        ensures
            match r {
                Ok(_) => success_code(status.code),
                Err(e) => !success_code(status.code) && (if status.code == 401 {
                    e@ == VaultErrorView::AuthFailed("token expired or invalid"@)
                } else {
                    e@ == VaultErrorView::Unavailable(status_detail(status.text@))
                }),
            },
    {
        if status.is_success() {
            Ok(())
        } else if status.code == 401 {
            Err(VaultError::AuthFailed(String::from_str("token expired or invalid")))
        } else {
            Err(VaultError::Unavailable(status_detail_of(status)))
        }
    }

    /// The records of a listing that came in pages: those of each answer,
    /// one answer after another.
    pub fn credentials_from_pages(pages: &Vec<JsonValue>) -> (r: Vec<Credential>)
        ensures
            r.deep_view() == joined(pages@.map_values(|b: JsonValue| azure_listing(b))),
    {
        let mut per: Vec<Vec<Credential>> = Vec::new();
        for i in 0..pages.len()
            invariant
                per@.len() == i,
                forall|j: int| 0 <= j < i ==> #[trigger] per@[j].deep_view() == azure_listing(pages@[j]),
        {
            per.push(Self::credentials_from_listing(&pages[i]));
        }
        proof {
            assert(per@.map_values(|p: Vec<Credential>| p.deep_view()) =~= pages@.map_values(
                |b: JsonValue| azure_listing(b),
            ));
        }
        join_pages(per)
    }

    /// The records of a listing answer.
    pub fn credentials_from_listing(body: &JsonValue) -> (r: Vec<Credential>)
        ensures
            r.deep_view() == azure_listing(*body),
    {
        let mut out: Vec<Credential> = Vec::new();
        match body.at("value") {
            Some(v) => match v.as_array() {
                Some(items) => {
                    for i in 0..items.len()
                        invariant
                            out@.len() == i,
                            json_as_array(json_index(*body, "value"@)) == Some(items@),
                            forall|j: int|
                                0 <= j < i ==> #[trigger] out@[j]@ == azure_record(
                                    azure_item_name(items@[j]),
                                    items@[j],
                                    true,
                                ),
                    {
                        let id_url = str_or(str_member(&items[i], "id"), "");
                        let name = last_segment(id_url.as_str());
                        proof {
                            reveal_strlit("");
                            assert(""@ =~= Seq::<char>::empty());
                            assert(id_url@ == match str_at(items@[i as int], "id"@) {
                                Some(s) => s,
                                None => Seq::empty(),
                            });
                        }
                        out.push(record_of(name.as_str(), &items[i], true));
                    }
                    proof {
                        assert(out.deep_view() =~= azure_listing(*body));
                    }
                },
                None => {
                    proof {
                        assert(out.deep_view() =~= azure_listing(*body));
                    }
                },
            },
            None => {
                proof {
                    assert(out.deep_view() =~= azure_listing(*body));
                }
            },
        }
        out
    }

    /// The record of the secret `name` from its description (without tags).
    pub fn credential_from_secret(name: &str, body: &JsonValue) -> (c: Credential)
        ensures
            c@ == azure_record(name@, *body, false),
    {
        record_of(name, body, false)
    }

    /// The request that rotates the credential `credential_id`: the secret's
    /// endpoint and a payload `{"value": v}` with a fresh random identifier.
    pub fn rotation_request(&self, credential_id: &str) -> (r: (String, JsonValue))
        ensures
            r.0@ == self.vault_url@ + "/secrets/"@ + strip_vault_scheme(credential_id@)
                + "?api-version=7.4"@,
            sole_member(r.1, "value"@) matches Some(JsonValue::Str(v)) && v@.len() == 36,
    {
        let name = strip_vault_prefix(credential_id);
        let value = fresh_id();
        (self.secret_url(name.as_str()), object_of("value", JsonValue::Str(value)))
    }

    /// The request that revokes the credential `credential_id` by disabling
    /// it: the secret's endpoint and `{"attributes": {"enabled": false}}`.
    pub fn revoke_request(&self, credential_id: &str) -> (r: (String, JsonValue))
        ensures
            r.0@ == self.vault_url@ + "/secrets/"@ + strip_vault_scheme(credential_id@)
                + "?api-version=7.4"@,
            sole_member(r.1, "attributes"@) matches Some(a) && sole_member(a, "enabled"@) == Some(
                JsonValue::Bool(false),
            ),
    {
        let name = strip_vault_prefix(credential_id);
        (
            self.secret_url(name.as_str()),
            object_of("attributes", object_of("enabled", JsonValue::Bool(false))),
        )
    }

    /// A write of a new version succeeded, or failed with the status.
    pub fn rotation_outcome(status: &HttpStatus) -> (r: Result<(), VaultError>)
        ensures
            match r {
                Ok(_) => success_code(status.code),
                Err(e) => !success_code(status.code) && e@ == VaultErrorView::RotationFailed(
                    status_detail(status.text@),
                ),
            },
    {
        if status.is_success() {
            Ok(())
        } else {
            Err(VaultError::RotationFailed(status_detail_of(status)))
        }
    }

    /// Disabling succeeded, or is an internal error with the status.
    pub fn revoke_outcome(status: &HttpStatus) -> (r: Result<(), VaultError>)
        ensures
            match r {
                Ok(_) => success_code(status.code),
                Err(e) => !success_code(status.code) && e@ == VaultErrorView::Internal(
                    status_detail(status.text@),
                ),
            },
    {
        if status.is_success() {
            Ok(())
        } else {
            Err(VaultError::Internal(status_detail_of(status)))
        }
    }

    /// A runtime handle for a credential the vault holds.
    pub fn issue_runtime_handle(credential_id: &str, scope: &Vec<String>, ttl_seconds: u64) -> (r:
        Result<RuntimeSecretHandle, VaultError>)
        ensures
            remote_handle_issued(r, credential_id@, scope.deep_view(), ttl_seconds as nat),
    {
        issue_remote_handle(credential_id, scope, ttl_seconds)
    }

    /// An `azure-ad` workload token for a credential the vault holds.
    pub fn mint_workload_token(credential_id: &str, audience: &str, ttl_seconds: u64) -> (r: Result<
        WorkloadToken,
        VaultError,
    >)
        ensures
            remote_token_minted(r, credential_id@, "azure-ad"@, audience@, ttl_seconds as nat),
    {
        mint_remote_token(credential_id, audience, ttl_seconds, "azure-ad")
    }

    /// The vault's audit trail lives in Azure Monitor, not queried here: the
    /// answer is empty.
    pub fn audit_log() -> (r: Vec<AuditEvent>)
        ensures
            r@.len() == 0,
    {
        Vec::new()
    }
}

} // verus!
