//! AWS Secrets Manager: the records made from the secret descriptions that
//! its SDK answers with.

use vstd::prelude::*;
use crate::backend::{
    join_pages, joined, issue_remote_handle, mint_remote_token, plain_credential, plain_record, remote_handle_issued,
    remote_token_minted,
};
use crate::clock::{utc_from_timestamp, utc_from_unix};
use crate::error::VaultError;
use crate::text::{strip_vault_prefix, strip_vault_scheme};
use crate::types::{
    epoch, AuditEvent, BackendType, Credential, CredentialStatus, CredentialView, RotationPolicy,
    RuntimeSecretHandle, Timestamp, WorkloadToken,
};

verus! {

/// What the logic reads of a secret's description or listing entry: its name,
/// rotation settings, dates (seconds and nanoseconds since the epoch) and tags
/// (key and value, each where present).
pub struct AwsSecretEntry {
    pub name: Option<String>,
    pub rotation_enabled: Option<bool>,
    pub rotation_after_days: Option<i64>,
    pub last_rotated: Option<(i64, u32)>,
    pub last_accessed: Option<(i64, u32)>,
    pub deleted_at: Option<(i64, u32)>,
    pub tags: Vec<(Option<String>, Option<String>)>,
}

/// AWS Secrets Manager backend.
pub struct AwsBackend {}

/// The rotation policy of a secret with rotation enabled: every
/// `rotation_after_days` days (90 when unset, as a 32-bit count), rotated
/// automatically, notified seven days before.
pub open spec fn aws_rotation(enabled: Option<bool>, after_days: Option<i64>) -> Option<
    RotationPolicy,
> {
    if enabled == Some(true) {
        Some(
            RotationPolicy {
                interval_days: match after_days {
                    Some(d) => d as u32,
                    None => 90,
                },
                auto_rotate: true,
                notify_before_days: Some(7),
            },
        )
    } else {
        None
    }
}

/// A date of the SDK as an instant; one out of range counts as the epoch.
pub open spec fn aws_instant(d: Option<(i64, u32)>) -> Option<Timestamp> {
    match d {
        Some(p) => Some(
            match utc_from_unix(p.0, p.1) {
                Some(t) => t,
                None => epoch(),
            },
        ),
        None => None,
    }
}

/// The tags `key=value` of the tags that have both a key and a value.
pub open spec fn aws_tags(tags: Seq<(Option<String>, Option<String>)>) -> Seq<Seq<char>>
    decreases tags.len(),
{
    if tags.len() == 0 {
        Seq::empty()
    } else {
        let before = aws_tags(tags.drop_last());
        match tags.last() {
            (Some(k), Some(v)) => before.push(k@ + "="@ + v@),
            _ => before,
        }
    }
}

/// The record of the secret `name`, displayed as `display_name`, described by
/// `e`: revoked when it is scheduled for deletion.
pub open spec fn aws_record(name: Seq<char>, display_name: Seq<char>, e: AwsSecretEntry) -> CredentialView {
    CredentialView {
        rotation_policy: aws_rotation(e.rotation_enabled, e.rotation_after_days),
        last_rotated: aws_instant(e.last_rotated),
        last_accessed: aws_instant(e.last_accessed),
        status: if e.deleted_at is Some {
            CredentialStatus::Revoked
        } else {
            CredentialStatus::Active
        },
        tags: aws_tags(e.tags@),
        ..plain_record(name, display_name, "aws"@, BackendType::Aws)
    }
}

/// The name of a listed secret, `unknown` when it has none.
pub open spec fn aws_entry_name(e: AwsSecretEntry) -> Seq<char> {
    match e.name {
        Some(n) => n@,
        None => "unknown"@,
    }
}

fn instant_of(d: Option<(i64, u32)>) -> (r: Option<Timestamp>)
    ensures
        r == aws_instant(d),
{
    match d {
        Some((secs, nanos)) => Some(
            match utc_from_timestamp(secs, nanos) {
                Some(t) => t,
                None => Timestamp::epoch(),
            },
        ),
        None => None,
    }
}

fn rotation_of(enabled: Option<bool>, after_days: Option<i64>) -> (r: Option<RotationPolicy>)
    ensures
        r == aws_rotation(enabled, after_days),
{
    if enabled == Some(true) {
        let interval_days: u32 = match after_days {
            Some(d) => #[verifier::truncate] (d as u32),
            None => 90,
        };
        Some(RotationPolicy { interval_days, auto_rotate: true, notify_before_days: Some(7) })
    } else {
        None
    }
}

fn tags_of(tags: &Vec<(Option<String>, Option<String>)>) -> (r: Vec<String>)
    ensures
        r.deep_view() == aws_tags(tags@),
{
    let mut out: Vec<String> = Vec::new();
    for i in 0..tags.len()
        invariant
            out.deep_view() == aws_tags(tags@.take(i as int)),
    {
        proof {
            assert(tags@.take(i + 1).drop_last() =~= tags@.take(i as int));
        }
        match &tags[i] {
            (Some(k), Some(v)) => {
                let ghost before = out.deep_view();
                out.push(k.clone().concat("=").concat(v.as_str()));
                proof {
                    assert(out.deep_view() =~= before.push(k@ + "="@ + v@));
                }
            },
            _ => {},
        }
    }
    proof {
        assert(tags@.take(tags.len() as int) =~= tags@);
    }
    out
}

fn record_of(name: &str, display_name: &str, e: &AwsSecretEntry) -> (c: Credential)
    ensures
        c@ == aws_record(name@, display_name@, *e),
{
    let mut c = plain_credential(name, display_name, "aws", BackendType::Aws);
    c.rotation_policy = rotation_of(e.rotation_enabled, e.rotation_after_days);
    c.last_rotated = instant_of(e.last_rotated);
    c.last_accessed = instant_of(e.last_accessed);
    if e.deleted_at.is_some() {
        c.status = CredentialStatus::Revoked;
    }
    c.tags = tags_of(&e.tags);
    c
}

impl AwsBackend {
    /// The kind of this backend.
    pub fn backend_type(&self) -> (b: BackendType)
        ensures
            b == BackendType::Aws,
    {
        BackendType::Aws
    }

    /// The secret name of a credential: its identifier without `vault://`.
    pub fn secret_name(credential_id: &str) -> (n: String)
        ensures
            n@ == strip_vault_scheme(credential_id@),
    {
        strip_vault_prefix(credential_id)
    }

    /// The records of a listing, one per entry, each named by its entry.
    pub fn credentials_from_listing(entries: &Vec<AwsSecretEntry>) -> (r: Vec<Credential>)
        ensures
            r.deep_view() == entries@.map_values(
                |e: AwsSecretEntry| aws_record(aws_entry_name(e), aws_entry_name(e), e),
            ),
    {
        let mut out: Vec<Credential> = Vec::new();
        for i in 0..entries.len()
            invariant
                out@.len() == i,
                forall|j: int|
                    0 <= j < i ==> #[trigger] out@[j]@ == aws_record(
                        aws_entry_name(entries@[j]),
                        aws_entry_name(entries@[j]),
                        entries@[j],
                    ),
        {
            let name = match &entries[i].name {
                Some(n) => n.clone(),
                None => String::from_str("unknown"),
            };
            out.push(record_of(name.as_str(), name.as_str(), &entries[i]));
        }
        proof {
            assert(out.deep_view() =~= entries@.map_values(
                |e: AwsSecretEntry| aws_record(aws_entry_name(e), aws_entry_name(e), e),
            ));
        }
        out
    }

    /// The records of a listing that came in pages: those of each page, one
    /// page after another.
    pub fn credentials_from_pages(pages: &Vec<Vec<AwsSecretEntry>>) -> (r: Vec<Credential>)
        ensures
            r.deep_view() == joined(
                pages@.map_values(
                    |p: Vec<AwsSecretEntry>|
                        p@.map_values(
                            |e: AwsSecretEntry| aws_record(aws_entry_name(e), aws_entry_name(e), e),
                        ),
                ),
            ),
    {
        let mut per: Vec<Vec<Credential>> = Vec::new();
        for i in 0..pages.len()
            invariant
                per@.len() == i,
                forall|j: int|
                    0 <= j < i ==> #[trigger] per@[j].deep_view() == pages@[j]@.map_values(
                        |e: AwsSecretEntry| aws_record(aws_entry_name(e), aws_entry_name(e), e),
                    ),
        {
            per.push(Self::credentials_from_listing(&pages[i]));
        }
        proof {
            assert(per@.map_values(|p: Vec<Credential>| p.deep_view()) =~= pages@.map_values(
                |p: Vec<AwsSecretEntry>|
                    p@.map_values(
                        |e: AwsSecretEntry| aws_record(aws_entry_name(e), aws_entry_name(e), e),
                    ),
            ));
        }
        join_pages(per)
    }

    /// The record of the secret `name` from its description: identified by the
    /// name asked for, displayed by the name described (or the one asked for).
    pub fn credential_from_description(name: &str, e: &AwsSecretEntry) -> (c: Credential)
        ensures
            c@ == aws_record(
                name@,
                match e.name {
                    Some(n) => n@,
                    None => name@,
                },
                *e,
            ),
    {
        let display = match &e.name {
            Some(n) => n.clone(),
            None => String::from_str(name),
        };
        record_of(name, display.as_str(), e)
    }

    /// A runtime handle for a credential the account holds.
    pub fn issue_runtime_handle(credential_id: &str, scope: &Vec<String>, ttl_seconds: u64) -> (r:
        Result<RuntimeSecretHandle, VaultError>)
        ensures
            remote_handle_issued(r, credential_id@, scope.deep_view(), ttl_seconds as nat),
    {
        issue_remote_handle(credential_id, scope, ttl_seconds)
    }

    /// An `aws-session` workload token for a credential the account holds.
    pub fn mint_workload_token(credential_id: &str, audience: &str, ttl_seconds: u64) -> (r: Result<
        WorkloadToken,
        VaultError,
    >)
        ensures
            remote_token_minted(r, credential_id@, "aws-session"@, audience@, ttl_seconds as nat),
    {
        mint_remote_token(credential_id, audience, ttl_seconds, "aws-session")
    }

    /// The account's audit trail lives in CloudTrail, not queried here: the
    /// answer is empty.
    pub fn audit_log() -> (r: Vec<AuditEvent>)
        ensures
            r@.len() == 0,
    {
        Vec::new()
    }
}

} // verus!
