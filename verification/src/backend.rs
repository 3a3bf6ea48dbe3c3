//! What the remote backends share: HTTP statuses, the records they build
//! from a secret's name, and the handles and tokens they issue.

use vstd::prelude::*;
use crate::clock::{clock_reading, current_time, fresh_id};
use crate::error::{VaultError, VaultErrorView};
use crate::text::{vault_id, vault_scheme};
use crate::types::{
    after_seconds, copy_strings, lemma_minted_token_expiry, lemma_runtime_handle_expiry,
    minted_token, runtime_handle, BackendType, Credential,
    CredentialStatus, CredentialView, RiskLevel, RuntimeSecretHandle, Timestamp, WorkloadToken,
};

verus! {

/// The status of an HTTP response: its code, and its text as HTTP writes it
/// (the code and the reason phrase, such as `404 Not Found`).
pub struct HttpStatus {
    pub code: u16,
    pub text: String,
}

/// A 2xx status.
pub open spec fn success_code(code: u16) -> bool {
    200 <= code <= 299
}

impl HttpStatus {
    /// Whether the request succeeded (a 2xx status).
    pub fn is_success(&self) -> (b: bool)
        ensures
            b == success_code(self.code),
    {
        200 <= self.code && self.code <= 299
    }
}

/// The detail of an error caused by a status: `status: ` and its text.
pub open spec fn status_detail(text: Seq<char>) -> Seq<char> {
    "status: "@ + text
}

/// The detail of an error caused by `status`.
pub fn status_detail_of(status: &HttpStatus) -> (d: String)
    ensures
        d@ == status_detail(status.text@),
{
    String::from_str("status: ").concat(status.text.as_str())
}

/// The record a remote backend reports for the secret `name`: identifier
/// `vault://name`, the given display name and owner, an empty scope, medium
/// risk, no rotation policy, no dates, active, no tags.
pub open spec fn plain_record(
    name: Seq<char>,
    display_name: Seq<char>,
    owner: Seq<char>,
    backend: BackendType,
) -> CredentialView {
    CredentialView {
        id: vault_scheme() + name,
        display_name,
        owner,
        scope: Seq::empty(),
        backend,
        risk_level: RiskLevel::Medium,
        rotation_policy: None,
        expires_at: None,
        last_rotated: None,
        last_accessed: None,
        status: CredentialStatus::Active,
        tags: Seq::empty(),
    }
}

/// The record a remote backend reports for the secret `name`.
pub fn plain_credential(name: &str, display_name: &str, owner: &str, backend: BackendType) -> (c:
    Credential)
    ensures
        c@ == plain_record(name@, display_name@, owner@, backend),
{
    let c = Credential {
        id: vault_id(name),
        display_name: String::from_str(display_name),
        owner: String::from_str(owner),
        scope: Vec::new(),
        backend,
        risk_level: RiskLevel::Medium,
        rotation_policy: None,
        expires_at: None,
        last_rotated: None,
        last_accessed: None,
        status: CredentialStatus::Active,
        tags: Vec::new(),
    };
    proof {
        assert(c.scope.deep_view() =~= Seq::<Seq<char>>::empty());
        assert(c.tags.deep_view() =~= Seq::<Seq<char>>::empty());
    }
    c
}

/// The error a remote backend gives when an expiry would lie past the last
/// representable instant.
pub open spec fn expiry_error() -> VaultErrorView {
    VaultErrorView::Internal("expiry out of range"@)
}

/// `r` is a runtime handle for `id` under a fresh identifier, valid for
/// `scope` until `ttl` seconds after a clock reading, or the error of an expiry
/// out of range, which comes only where that reading plus `ttl` seconds lies
/// past the last representable instant.
pub open spec fn remote_handle_issued(
    r: Result<RuntimeSecretHandle, VaultError>,
    id: Seq<char>,
    scope: Seq<Seq<char>>,
    ttl: nat,
) -> bool {
    match r {
        Ok(h) => exists|handle_id: Seq<char>, now: Timestamp|
            clock_reading(now) && handle_id.len() == 36 && after_seconds(now, ttl as int) is Some
                && h@ == runtime_handle(handle_id, id, scope, ttl, now),
        Err(e) => e@ == expiry_error() && exists|now: Timestamp|
            clock_reading(now) && after_seconds(now, ttl as int) is None,
    }
}

/// `r` is a workload token of type `token_type` for `id` and `audience` under
/// a fresh identifier, valid until `ttl` seconds after a clock reading, or the
/// error of an expiry out of range, which comes only where that reading plus
/// `ttl` seconds lies past the last representable instant.
pub open spec fn remote_token_minted(
    r: Result<WorkloadToken, VaultError>,
    id: Seq<char>,
    token_type: Seq<char>,
    audience: Seq<char>,
    ttl: nat,
) -> bool {
    match r {
        Ok(t) => exists|token_id: Seq<char>, now: Timestamp|
            clock_reading(now) && token_id.len() == 36 && after_seconds(now, ttl as int) is Some
                && t@ == minted_token(token_id, id, token_type, audience, ttl, now),
        Err(e) => e@ == expiry_error() && exists|now: Timestamp|
            clock_reading(now) && after_seconds(now, ttl as int) is None,
    }
}

/// A remote runtime handle names the credential, carries exactly the scope
/// asked for under a fresh 36-character identifier, and expires exactly `ttl`
/// seconds after a clock reading; with a `ttl` of zero it is always issued.
pub proof fn lemma_remote_handle_expiry(
    r: Result<RuntimeSecretHandle, VaultError>,
    id: Seq<char>,
    scope: Seq<Seq<char>>,
    ttl: nat,
)
    requires
        remote_handle_issued(r, id, scope, ttl),
    ensures
        r matches Ok(h) ==> h@.credential_id == id && h@.scope == scope && h@.handle_id.len()
            == 36 && exists|now: Timestamp|
            clock_reading(now) && h@.expires_at.secs == now.secs + ttl && h@.expires_at.nanos
                == now.nanos,
        ttl == 0 ==> r is Ok,
{
    if let Ok(h) = r {
        let (handle_id, now) = choose|handle_id: Seq<char>, now: Timestamp|
            clock_reading(now) && handle_id.len() == 36 && after_seconds(now, ttl as int) is Some
                && h@ == runtime_handle(handle_id, id, scope, ttl, now);
        lemma_runtime_handle_expiry(handle_id, id, scope, ttl, now);
    }
}

/// A remote workload token names the credential, the type and the audience
/// asked for under a fresh 36-character identifier, and expires exactly `ttl`
/// seconds after a clock reading; with a `ttl` of zero it is always minted.
pub proof fn lemma_remote_token_expiry(
    r: Result<WorkloadToken, VaultError>,
    id: Seq<char>,
    token_type: Seq<char>,
    audience: Seq<char>,
    ttl: nat,
)
    requires
        remote_token_minted(r, id, token_type, audience, ttl),
    ensures
        r matches Ok(t) ==> t@.credential_id == id && t@.token_type == token_type && t@.audience
            == audience && t@.token_id.len() == 36 && exists|now: Timestamp|
            clock_reading(now) && t@.expires_at.secs == now.secs + ttl && t@.expires_at.nanos
                == now.nanos,
        ttl == 0 ==> r is Ok,
{
    if let Ok(t) = r {
        let (token_id, now) = choose|token_id: Seq<char>, now: Timestamp|
            clock_reading(now) && token_id.len() == 36 && after_seconds(now, ttl as int) is Some
                && t@ == minted_token(token_id, id, token_type, audience, ttl, now);
        lemma_minted_token_expiry(token_id, id, token_type, audience, ttl, now);
    }
}

/// The runtime handle `handle_id` for `credential_id` and `scope`, issued at
/// `now` and expiring `ttl_seconds` later; the error of an expiry out of range
/// exactly where that instant cannot be represented.
pub fn issue_remote_handle_at(
    credential_id: &str,
    scope: &Vec<String>,
    ttl_seconds: u64,
    handle_id: String,
    now: Timestamp,
) -> (r: Result<RuntimeSecretHandle, VaultError>)
    ensures
        match r {
            Ok(h) => after_seconds(now, ttl_seconds as int) is Some && h@ == runtime_handle(
                handle_id@,
                credential_id@,
                scope.deep_view(),
                ttl_seconds as nat,
                now,
            ),
            Err(e) => after_seconds(now, ttl_seconds as int) is None && e@ == expiry_error(),
        },
{
    match now.plus_seconds(ttl_seconds) {
        Some(expires_at) => Ok(
            RuntimeSecretHandle {
                handle_id,
                credential_id: String::from_str(credential_id),
                expires_at,
                scope: copy_strings(scope),
            },
        ),
        None => Err(VaultError::Internal(String::from_str("expiry out of range"))),
    }
}

/// A runtime handle for a credential that a remote backend confirmed: a fresh
/// identifier, the credential's identifier and the scope asked for, expiring
/// `ttl_seconds` after the current time.
pub fn issue_remote_handle(credential_id: &str, scope: &Vec<String>, ttl_seconds: u64) -> (r:
    Result<RuntimeSecretHandle, VaultError>)
    ensures
        remote_handle_issued(r, credential_id@, scope.deep_view(), ttl_seconds as nat),
{
    let handle_id = fresh_id();
    let ghost fresh = handle_id@;
    let now = current_time();
    let r = issue_remote_handle_at(credential_id, scope, ttl_seconds, handle_id, now);
    proof {
        if r is Ok {
            assert(clock_reading(now) && fresh.len() == 36 && after_seconds(
                now,
                ttl_seconds as int,
            ) is Some && r->Ok_0@ == runtime_handle(
                fresh,
                credential_id@,
                scope.deep_view(),
                ttl_seconds as nat,
                now,
            ));
        } else {
            assert(clock_reading(now) && after_seconds(now, ttl_seconds as int) is None);
        }
    }
    r
}

/// The workload token `token_id` of type `token_type` for `credential_id`
/// and `audience`, minted at `now` and expiring `ttl_seconds` later; the error
/// of an expiry out of range exactly where that instant cannot be represented.
pub fn mint_remote_token_at(
    credential_id: &str,
    audience: &str,
    ttl_seconds: u64,
    token_type: &str,
    token_id: String,
    now: Timestamp,
) -> (r: Result<WorkloadToken, VaultError>)
    ensures
        match r {
            Ok(t) => after_seconds(now, ttl_seconds as int) is Some && t@ == minted_token(
                token_id@,
                credential_id@,
                token_type@,
                audience@,
                ttl_seconds as nat,
                now,
            ),
            Err(e) => after_seconds(now, ttl_seconds as int) is None && e@ == expiry_error(),
        },
{
    match now.plus_seconds(ttl_seconds) {
        Some(expires_at) => Ok(
            WorkloadToken {
                token_id,
                credential_id: String::from_str(credential_id),
                token_type: String::from_str(token_type),
                expires_at,
                audience: String::from_str(audience),
            },
        ),
        None => Err(VaultError::Internal(String::from_str("expiry out of range"))),
    }
}

/// A workload token of type `token_type` for a credential that a remote
/// backend confirmed: a fresh identifier, expiring `ttl_seconds` after the
/// current time.
pub fn mint_remote_token(
    credential_id: &str,
    audience: &str,
    ttl_seconds: u64,
    token_type: &str,
) -> (r: Result<WorkloadToken, VaultError>)
    ensures
        remote_token_minted(r, credential_id@, token_type@, audience@, ttl_seconds as nat),
{
    let token_id = fresh_id();
    let ghost fresh = token_id@;
    let now = current_time();
    let r = mint_remote_token_at(credential_id, audience, ttl_seconds, token_type, token_id, now);
    proof {
        if r is Ok {
            assert(clock_reading(now) && fresh.len() == 36 && after_seconds(
                now,
                ttl_seconds as int,
            ) is Some && r->Ok_0@ == minted_token(
                fresh,
                credential_id@,
                token_type@,
                audience@,
                ttl_seconds as nat,
                now,
            ));
        } else {
            assert(clock_reading(now) && after_seconds(now, ttl_seconds as int) is None);
        }
    }
    r
}

/// The records of the pages of a listing, one page after another.
pub open spec fn joined(pages: Seq<Seq<CredentialView>>) -> Seq<CredentialView>
    decreases pages.len(),
{
    if pages.len() == 0 {
        Seq::empty()
    } else {
        joined(pages.drop_last()) + pages.last()
    }
}

/// The records of a listing that came in pages, in the order of the pages.
pub fn join_pages(pages: Vec<Vec<Credential>>) -> (r: Vec<Credential>)
    ensures
        r.deep_view() == joined(pages@.map_values(|p: Vec<Credential>| p.deep_view())),
{
    let ghost views = pages@.map_values(|p: Vec<Credential>| p.deep_view());
    let mut pages = pages;
    let mut out: Vec<Credential> = Vec::new();
    let mut i: usize = 0;
    let n = pages.len();
    proof {
        assert(views.subrange(0, 0) =~= Seq::<Seq<CredentialView>>::empty());
        assert(out.deep_view() =~= Seq::<CredentialView>::empty());
    }
    while i < n
        invariant
            n == pages@.len(),
            views.len() == n,
            i <= n,
            forall|j: int| i <= j < n ==> #[trigger] pages@[j].deep_view() == views[j],
            out.deep_view() == joined(views.subrange(0, i as int)),
        decreases n - i,
    {
        let mut page: Vec<Credential> = Vec::new();
        let ghost before = out.deep_view();
        let ghost taken = pages@[i as int].deep_view();
        proof {
            assert(taken == views[i as int]);
        }
        std::mem::swap(&mut page, &mut pages[i]);
        proof {
            assert(page.deep_view() == taken);
        }
        out.append(&mut page);
        proof {
            assert(out.deep_view() =~= before + taken);
            let next = views.subrange(0, i as int + 1);
            assert(next.drop_last() =~= views.subrange(0, i as int));
            assert(next.last() == views[i as int]);
            assert forall|j: int| i + 1 <= j < n implies #[trigger] pages@[j].deep_view()
                == views[j] by {}
        }
        i = i + 1;
    }
    proof {
        assert(views.subrange(0, n as int) =~= views);
    }
    out
}

/// `NotFound(id)` when the backend answered 404, else nothing.
pub fn missing_on_404(id: &str, status: &HttpStatus) -> (r: Option<VaultError>)
    ensures
        match r {
            Some(e) => status.code == 404 && e@ == VaultErrorView::NotFound(id@),
            None => status.code != 404,
        },
{
    if status.code == 404 {
        Some(VaultError::NotFound(String::from_str(id)))
    } else {
        None
    }
}

/// The strings of `names`, each made into a plain record.
pub open spec fn plain_records(names: Seq<Seq<char>>, owner: Seq<char>, backend: BackendType) -> Seq<
    CredentialView,
> {
    names.map_values(|n: Seq<char>| plain_record(n, n, owner, backend))
}

/// The plain records of the secrets named `names`, each its own display name.
pub fn plain_credentials(names: &Vec<String>, owner: &str, backend: BackendType) -> (r: Vec<
    Credential,
>)
    ensures
        r.deep_view() == plain_records(names.deep_view(), owner@, backend),
{
    let mut out: Vec<Credential> = Vec::new();
    for i in 0..names.len()
        invariant
            out@.len() == i,
            forall|j: int|
                0 <= j < i ==> #[trigger] out@[j]@ == plain_record(
                    names@[j]@,
                    names@[j]@,
                    owner@,
                    backend,
                ),
    {
        let c = plain_credential(names[i].as_str(), names[i].as_str(), owner, backend);
        out.push(c);
    }
    proof {
        assert(out.deep_view() =~= plain_records(names.deep_view(), owner@, backend));
    }
    out
}

} // verus!
