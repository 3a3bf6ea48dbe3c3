//! The decisions of the credentials-vault tool server: which backend serves a
//! credential, what each tool answers, how listings are filtered and how audit
//! trails of several backends are merged.

use vstd::prelude::*;
use crate::error::{error_message, VaultError, VaultErrorView};
use crate::text::{contains, contains_text, occurs_at};
use crate::types::{
    scope_allows,
    backend_json_text, copy_strings, earlier, handle_of, AuditEvent, AuditEventView, BackendType,
    Credential, CredentialHandle, CredentialHandleView, CredentialStatus, CredentialView,
    RuntimeSecretHandle, WorkloadToken,
};

pub use crate::types::actor_allowed;

verus! {

/// Input of `list_credentials`: optional backend and owner filters.
pub struct ListCredentialsInput {
    pub backend: Option<String>,
    pub owner: Option<String>,
}

/// Input of `get_credential_metadata`.
pub struct GetCredentialMetadataInput {
    pub credential_id: String,
}

/// Input of `request_runtime_secret`.
pub struct RequestRuntimeSecretInput {
    pub credential_id: String,
    pub scope: Vec<String>,
    pub ttl_seconds: Option<u64>,
}

/// Input of `request_workload_token`.
pub struct RequestWorkloadTokenInput {
    pub credential_id: String,
    pub audience: String,
    pub ttl_seconds: Option<u64>,
}

/// Input of `rotate_credential`.
pub struct RotateCredentialInput {
    pub credential_id: String,
}

/// Input of `revoke_credential`.
pub struct RevokeCredentialInput {
    pub credential_id: String,
    pub reason: Option<String>,
}

/// Input of `audit_credential_access`.
pub struct AuditCredentialAccessInput {
    pub credential_id: Option<String>,
    pub limit: Option<usize>,
}

/// Input of `validate_secret_scope`.
pub struct ValidateSecretScopeInput {
    pub credential_id: String,
    pub actor: String,
}

/// Lifetime of a runtime handle when none is asked for: five minutes.
pub const DEFAULT_RUNTIME_TTL_SECONDS: u64 = 300;

/// Lifetime of a workload token when none is asked for: one hour.
pub const DEFAULT_WORKLOAD_TTL_SECONDS: u64 = 3600;

/// Number of audit events returned when no limit is asked for.
pub const DEFAULT_AUDIT_LIMIT: usize = 50;

impl RequestRuntimeSecretInput {
    /// The lifetime asked for, or five minutes.
    pub fn ttl(&self) -> (t: u64)
        ensures
            t == match self.ttl_seconds {
                Some(t) => t,
                None => DEFAULT_RUNTIME_TTL_SECONDS,
            },
    {
        match self.ttl_seconds {
            Some(t) => t,
            None => DEFAULT_RUNTIME_TTL_SECONDS,
        }
    }
}

impl RequestWorkloadTokenInput {
    /// The lifetime asked for, or one hour.
    pub fn ttl(&self) -> (t: u64)
        ensures
            t == match self.ttl_seconds {
                Some(t) => t,
                None => DEFAULT_WORKLOAD_TTL_SECONDS,
            },
    {
        match self.ttl_seconds {
            Some(t) => t,
            None => DEFAULT_WORKLOAD_TTL_SECONDS,
        }
    }
}

impl AuditCredentialAccessInput {
    /// The number of events asked for, or fifty.
    pub fn event_limit(&self) -> (n: usize)
        ensures
            n == match self.limit {
                Some(n) => n,
                None => DEFAULT_AUDIT_LIMIT,
            },
    {
        match self.limit {
            Some(n) => n,
            None => DEFAULT_AUDIT_LIMIT,
        }
    }
}

// ---------------------------------------------------------------------------
// Finding the backend that holds a credential
// ---------------------------------------------------------------------------

/// The next step of a search for the backend that holds a credential.
#[derive(Clone, Copy, Debug, PartialEq, Eq, Structural)]
pub enum BackendSearch {
    /// Ask backend number `i` for the credential.
    Probe(usize),
    /// Backend number `i` holds it.
    Found(usize),
    /// No backend holds it.
    NotFound,
}

/// The first backend of `holds` that holds the credential, if any.
pub open spec fn first_holder(holds: Seq<bool>) -> Option<nat>
    decreases holds.len(),
{
    if holds.len() == 0 {
        None
    } else if holds[0] {
        Some(0)
    } else {
        match first_holder(holds.drop_first()) {
            Some(i) => Some(i + 1),
            None => None,
        }
    }
}

/// Where a search over backends that answered `holds` ends, when it reached
/// backend number `from`.
pub open spec fn search_from(holds: Seq<bool>, from: nat) -> BackendSearch
    decreases holds.len() - from,
{
    if from >= holds.len() {
        BackendSearch::NotFound
    } else if holds[from as int] {
        BackendSearch::Found(from as usize)
    } else {
        search_from(holds, from + 1)
    }
}

/// The first step of a search over `backend_count` backends.
pub fn start_backend_search(backend_count: usize) -> (s: BackendSearch)
    ensures
        s == (if backend_count == 0 {
            BackendSearch::NotFound
        } else {
            BackendSearch::Probe(0)
        }),
{
    if backend_count == 0 {
        BackendSearch::NotFound
    } else {
        BackendSearch::Probe(0)
    }
}

/// The step after backend number `probed` answered whether it holds the
/// credential: stop at it when it does, else ask the next one, else give up.
pub fn continue_backend_search(probed: usize, holds: bool, backend_count: usize) -> (s:
    BackendSearch)
    requires
        probed < backend_count,
    ensures
        s == (if holds {
            BackendSearch::Found(probed)
        } else if probed + 1 < backend_count {
            BackendSearch::Probe((probed + 1) as usize)
        } else {
            BackendSearch::NotFound
        }),
{
    if holds {
        BackendSearch::Found(probed)
    } else if probed + 1 < backend_count {
        BackendSearch::Probe(probed + 1)
    } else {
        BackendSearch::NotFound
    }
}

/// A search driven by the backends' answers ends at the first backend that
/// holds the credential, or finds none when no backend does; a step that
/// probes a backend and moves on keeps that end.
pub proof fn lemma_backend_search(holds: Seq<bool>, from: nat)
    requires
        from < holds.len(),
    ensures
        !holds[from as int] && from + 1 < holds.len() ==> search_from(holds, from) == search_from(
            holds,
            from + 1,
        ),
        search_from(holds, 0) == match first_holder(holds) {
            Some(i) => BackendSearch::Found(i as usize),
            None => BackendSearch::NotFound,
        },
{
    lemma_search_first(holds, 0);
    assert(holds.subrange(0, holds.len() as int) =~= holds);
}

proof fn lemma_search_first(holds: Seq<bool>, from: nat)
    requires
        from <= holds.len(),
    ensures
        search_from(holds, from) == match first_holder(holds.subrange(from as int, holds.len() as int)) {
            Some(i) => BackendSearch::Found((from + i) as usize),
            None => BackendSearch::NotFound,
        },
    decreases holds.len() - from,
{
    let rest = holds.subrange(from as int, holds.len() as int);
    if from < holds.len() {
        lemma_search_first(holds, from + 1);
        assert(rest.drop_first() =~= holds.subrange((from + 1) as int, holds.len() as int));
    }
    if from == 0 {
        assert(rest =~= holds);
    }
}

// ---------------------------------------------------------------------------
// Tool answers
// ---------------------------------------------------------------------------

/// The result of a scope check.
#[derive(Debug)]
pub struct ScopeCheck {
    pub credential_id: String,
    pub actor: String,
    pub allowed: bool,
    pub scope: Vec<String>,
    pub status: CredentialStatus,
}

/// What a tool answers: a value rendered as JSON, or a text.
#[derive(Debug)]
pub enum ToolReply {
    Handle(CredentialHandle),
    Handles(Vec<CredentialHandle>),
    RuntimeHandle(RuntimeSecretHandle),
    Token(WorkloadToken),
    Events(Vec<AuditEvent>),
    Scope(ScopeCheck),
    Text(String),
}

/// The text that says a credential is held by no backend.
pub open spec fn not_found_text(id: Seq<char>) -> Seq<char> {
    "Credential not found: "@ + id
}

/// The text that reports an error.
pub open spec fn error_text(e: VaultErrorView) -> Seq<char> {
    "Error: "@ + error_message(e)
}

fn not_found_reply(id: &str) -> (r: ToolReply)
    ensures
        r matches ToolReply::Text(t) && t@ == not_found_text(id@),
{
    ToolReply::Text(String::from_str("Credential not found: ").concat(id))
}

fn error_reply(e: &VaultError) -> (r: ToolReply)
    ensures
        r matches ToolReply::Text(t) && t@ == error_text(e@),
{
    let m = e.message();
    ToolReply::Text(String::from_str("Error: ").concat(m.as_str()))
}

/// What `get_credential_metadata` answers: `found` is `None` when no backend
/// holds the credential, else the holding backend's answer.
pub fn metadata_reply(credential_id: &str, found: Option<Result<Credential, VaultError>>) -> (r:
    ToolReply)
    ensures
        match found {
            None => r matches ToolReply::Text(t) && t@ == not_found_text(credential_id@),
            Some(Ok(c)) => r matches ToolReply::Handle(h) && h@ == handle_of(c@),
            Some(Err(e)) => r matches ToolReply::Text(t) && t@ == error_text(e@),
        },
{
    match found {
        None => not_found_reply(credential_id),
        Some(Ok(c)) => ToolReply::Handle(CredentialHandle::from(&c)),
        Some(Err(e)) => error_reply(&e),
    }
}

/// What `request_runtime_secret` answers.
pub fn runtime_secret_reply(
    credential_id: &str,
    found: Option<Result<RuntimeSecretHandle, VaultError>>,
) -> (r: ToolReply)
    ensures
        match found {
            None => r matches ToolReply::Text(t) && t@ == not_found_text(credential_id@),
            Some(Ok(h)) => r matches ToolReply::RuntimeHandle(x) && x@ == h@,
            Some(Err(e)) => r matches ToolReply::Text(t) && t@ == error_text(e@),
        },
{
    match found {
        None => not_found_reply(credential_id),
        Some(Ok(h)) => ToolReply::RuntimeHandle(h),
        Some(Err(e)) => error_reply(&e),
    }
}

/// What `request_workload_token` answers.
pub fn workload_token_reply(credential_id: &str, found: Option<Result<WorkloadToken, VaultError>>) -> (r:
    ToolReply)
    ensures
        match found {
            None => r matches ToolReply::Text(t) && t@ == not_found_text(credential_id@),
            Some(Ok(w)) => r matches ToolReply::Token(x) && x@ == w@,
            Some(Err(e)) => r matches ToolReply::Text(t) && t@ == error_text(e@),
        },
{
    match found {
        None => not_found_reply(credential_id),
        Some(Ok(w)) => ToolReply::Token(w),
        Some(Err(e)) => error_reply(&e),
    }
}

/// The text that confirms a rotation, or reports its failure.
pub open spec fn rotation_text(id: Seq<char>, r: Result<(), VaultErrorView>) -> Seq<char> {
    match r {
        Ok(_) => "Credential "@ + id + " rotated successfully"@,
        Err(e) => "Rotation failed: "@ + error_message(e),
    }
}

/// What `rotate_credential` answers.
pub fn rotation_reply(credential_id: &str, found: Option<Result<(), VaultError>>) -> (r: ToolReply)
    ensures
        r matches ToolReply::Text(t) && t@ == match found {
            None => not_found_text(credential_id@),
            Some(Ok(_)) => rotation_text(credential_id@, Ok(())),
            Some(Err(e)) => rotation_text(credential_id@, Err(e@)),
        },
{
    match found {
        None => not_found_reply(credential_id),
        Some(Ok(_)) => ToolReply::Text(
            String::from_str("Credential ").concat(credential_id).concat(" rotated successfully"),
        ),
        Some(Err(e)) => {
            let m = e.message();
            ToolReply::Text(String::from_str("Rotation failed: ").concat(m.as_str()))
        },
    }
}

/// The text that confirms a revocation, with its reason when one was given, or
/// reports its failure.
pub open spec fn revocation_text(
    id: Seq<char>,
    reason: Option<Seq<char>>,
    r: Result<(), VaultErrorView>,
) -> Seq<char> {
    match r {
        Ok(_) => "Credential "@ + id + " revoked"@ + match reason {
            Some(why) => " (reason: "@ + why + ")"@,
            None => Seq::empty(),
        },
        Err(e) => "Revocation failed: "@ + error_message(e),
    }
}

/// What `revoke_credential` answers.
pub fn revocation_reply(
    credential_id: &str,
    reason: &Option<String>,
    found: Option<Result<(), VaultError>>,
) -> (r: ToolReply)
    ensures
        r matches ToolReply::Text(t) && t@ == match found {
            None => not_found_text(credential_id@),
            Some(Ok(_)) => revocation_text(credential_id@, reason.deep_view(), Ok(())),
            Some(Err(e)) => revocation_text(credential_id@, reason.deep_view(), Err(e@)),
        },
{
    match found {
        None => not_found_reply(credential_id),
        Some(Ok(_)) => {
            let base = String::from_str("Credential ").concat(credential_id).concat(" revoked");
            let text = match reason {
                Some(why) => base.concat(" (reason: ").concat(why.as_str()).concat(")"),
                None => base,
            };
            proof {
                assert(text@ =~= revocation_text(credential_id@, reason.deep_view(), Ok(())));
            }
            ToolReply::Text(text)
        },
        Some(Err(e)) => {
            let m = e.message();
            ToolReply::Text(String::from_str("Revocation failed: ").concat(m.as_str()))
        },
    }
}

/// What `validate_secret_scope` answers.
pub fn scope_reply(
    credential_id: &str,
    actor: &str,
    found: Option<Result<Credential, VaultError>>,
) -> (r: ToolReply)
    ensures
        match found {
            None => r matches ToolReply::Text(t) && t@ == not_found_text(credential_id@),
            Some(Ok(c)) => r matches ToolReply::Scope(s) && s.credential_id@ == credential_id@
                && s.actor@ == actor@ && s.allowed == scope_allows(c@.scope, actor@)
                && s.scope.deep_view() == c@.scope && s.status == c@.status,
            Some(Err(e)) => r matches ToolReply::Text(t) && t@ == error_text(e@),
        },
{
    match found {
        None => not_found_reply(credential_id),
        Some(Ok(c)) => {
            let allowed = actor_allowed(&c.scope, actor);
            ToolReply::Scope(
                ScopeCheck {
                    credential_id: String::from_str(credential_id),
                    actor: String::from_str(actor),
                    allowed,
                    scope: copy_strings(&c.scope),
                    status: c.status,
                },
            )
        },
        Some(Err(e)) => error_reply(&e),
    }
}

// ---------------------------------------------------------------------------
// Listings over all backends
// ---------------------------------------------------------------------------

/// The credentials of the backends that answered, in backend order.
pub open spec fn gathered_credentials(lists: Seq<Result<Vec<Credential>, VaultError>>) -> Seq<
    CredentialView,
>
    decreases lists.len(),
{
    if lists.len() == 0 {
        Seq::empty()
    } else {
        let before = gathered_credentials(lists.drop_last());
        match lists.last() {
            Ok(v) => before + v.deep_view(),
            Err(_) => before,
        }
    }
}

/// A credential passes the listing filters: the JSON text of its backend
/// contains the backend filter, and its owner contains the owner filter.
pub open spec fn listing_filter(backend: Option<Seq<char>>, owner: Option<Seq<char>>) -> spec_fn(
    CredentialView,
) -> bool {
    |c: CredentialView|
        (match backend {
            Some(b) => contains_text(backend_json_text(c.backend), b),
            None => true,
        }) && (match owner {
            Some(o) => contains_text(c.owner, o),
            None => true,
        })
}

/// The handles `list_credentials` answers with.
pub open spec fn listing(
    lists: Seq<Result<Vec<Credential>, VaultError>>,
    backend: Option<Seq<char>>,
    owner: Option<Seq<char>>,
) -> Seq<CredentialHandleView> {
    gathered_credentials(lists).filter(listing_filter(backend, owner)).map_values(
        |c: CredentialView| handle_of(c),
    )
}

/// The snake-case name of a backend type, as a listing filter names it.
pub open spec fn backend_name(b: BackendType) -> Seq<char> {
    match b {
        BackendType::Hashicorp => "hashicorp"@,
        BackendType::Aws => "aws"@,
        BackendType::Gcp => "gcp"@,
        BackendType::Azure => "azure"@,
        BackendType::AdkVault => "adk_vault"@,
    }
}

spec fn marker(b: BackendType) -> char {
    match b {
        BackendType::Hashicorp => 'h',
        BackendType::Aws => 'w',
        BackendType::Gcp => 'g',
        BackendType::Azure => 'z',
        BackendType::AdkVault => 'k',
    }
}

proof fn lemma_backend_literals()
    ensures
        "\"hashicorp\""@ =~= seq!['"', 'h', 'a', 's', 'h', 'i', 'c', 'o', 'r', 'p', '"'],
        "\"aws\""@ =~= seq!['"', 'a', 'w', 's', '"'],
        "\"gcp\""@ =~= seq!['"', 'g', 'c', 'p', '"'],
        "\"azure\""@ =~= seq!['"', 'a', 'z', 'u', 'r', 'e', '"'],
        "\"adk_vault\""@ =~= seq!['"', 'a', 'd', 'k', '_', 'v', 'a', 'u', 'l', 't', '"'],
        "hashicorp"@ =~= seq!['h', 'a', 's', 'h', 'i', 'c', 'o', 'r', 'p'],
        "aws"@ =~= seq!['a', 'w', 's'],
        "gcp"@ =~= seq!['g', 'c', 'p'],
        "azure"@ =~= seq!['a', 'z', 'u', 'r', 'e'],
        "adk_vault"@ =~= seq!['a', 'd', 'k', '_', 'v', 'a', 'u', 'l', 't'],
{
    reveal_strlit("\"hashicorp\"");
    reveal_strlit("\"aws\"");
    reveal_strlit("\"gcp\"");
    reveal_strlit("\"azure\"");
    reveal_strlit("\"adk_vault\"");
    reveal_strlit("hashicorp");
    reveal_strlit("aws");
    reveal_strlit("gcp");
    reveal_strlit("azure");
    reveal_strlit("adk_vault");
}

proof fn lemma_marker_only_in_own(b: BackendType, c: BackendType, j: int)
    requires
        0 <= j < backend_json_text(c).len(),
        backend_json_text(c)[j] == marker(b),
    ensures
        b == c,
{
    lemma_backend_literals();
}

proof fn lemma_name_occurs(b: BackendType)
    ensures
        occurs_at(backend_json_text(b), backend_name(b), 1),
        exists|k: int| 0 <= k < backend_name(b).len() && backend_name(b)[k] == marker(b),
{
    lemma_backend_literals();
    let h = backend_json_text(b);
    let n = backend_name(b);
    assert(h.subrange(1, 1 + n.len() as int) =~= n);
    match b {
        BackendType::Hashicorp => assert(n[0] == marker(b)),
        BackendType::Aws => assert(n[1] == marker(b)),
        BackendType::Gcp => assert(n[0] == marker(b)),
        BackendType::Azure => assert(n[1] == marker(b)),
        BackendType::AdkVault => assert(n[2] == marker(b)),
    }
}

/// Filtering a listing by a backend's name keeps exactly that backend's
/// credentials: the JSON text of a backend type contains the name of `b`
/// exactly when it is `b`.
pub proof fn lemma_backend_filter_by_name(b: BackendType, c: BackendType)
    ensures
        contains_text(backend_json_text(c), backend_name(b)) <==> b == c,
{
    lemma_name_occurs(b);
    if contains_text(backend_json_text(c), backend_name(b)) {
        let i = choose|i: int| occurs_at(backend_json_text(c), backend_name(b), i);
        let k = choose|k: int| 0 <= k < backend_name(b).len() && backend_name(b)[k] == marker(b);
        let h = backend_json_text(c);
        assert(h.subrange(i, i + backend_name(b).len())[k] == h[i + k]);
        lemma_marker_only_in_own(b, c, i + k);
    }
}

/// Listing with the backend filter set to a backend's name, and no owner
/// filter, answers the handles of exactly that backend's credentials.
pub proof fn lemma_listing_by_backend(lists: Seq<Result<Vec<Credential>, VaultError>>, b: BackendType)
    ensures
        listing(lists, Some(backend_name(b)), None) == gathered_credentials(lists).filter(
            |c: CredentialView| c.backend == b,
        ).map_values(|c: CredentialView| handle_of(c)),
{
    assert forall|c: CredentialView|
        #[trigger] listing_filter(Some(backend_name(b)), None)(c) == (c.backend == b) by {
        lemma_backend_filter_by_name(b, c.backend);
    }
    assert(listing_filter(Some(backend_name(b)), None) =~= (|c: CredentialView| c.backend == b));
}

/// Both listing filters apply together: a credential passes exactly when the
/// JSON text of its backend contains the backend filter, where one is given,
/// and its owner contains the owner filter, where one is given.
pub proof fn lemma_listing_filters_conjoin(
    c: CredentialView,
    backend: Option<Seq<char>>,
    owner: Option<Seq<char>>,
)
    ensures
        listing_filter(backend, owner)(c) ==> (backend matches Some(b) ==> contains_text(
            backend_json_text(c.backend),
            b,
        )),
        listing_filter(backend, owner)(c) ==> (owner matches Some(o) ==> contains_text(
            c.owner,
            o,
        )),
        (backend matches Some(b) ==> contains_text(backend_json_text(c.backend), b)) && (
        owner matches Some(o) ==> contains_text(c.owner, o)) ==> listing_filter(backend, owner)(c),
{
}

/// Every handle of a listing with an owner filter names an owner that
/// contains the filter, and with a backend filter a backend whose JSON text
/// contains it; a credential that passes both filters is listed.
pub proof fn lemma_listing_respects_filters(
    lists: Seq<Result<Vec<Credential>, VaultError>>,
    backend: Option<Seq<char>>,
    owner: Option<Seq<char>>,
)
    ensures
        forall|i: int|
            0 <= i < listing(lists, backend, owner).len() ==> (owner matches Some(o)
                ==> contains_text(#[trigger] listing(lists, backend, owner)[i].owner, o)),
        forall|i: int|
            0 <= i < listing(lists, backend, owner).len() ==> (backend matches Some(b)
                ==> contains_text(backend_json_text(#[trigger] listing(lists, backend, owner)[i].backend), b)),
        forall|c: CredentialView|
            gathered_credentials(lists).contains(c) && (backend matches Some(b) ==> contains_text(
                backend_json_text(c.backend),
                b,
            )) && (owner matches Some(o) ==> contains_text(c.owner, o)) ==> listing(
                lists,
                backend,
                owner,
            ).contains(#[trigger] handle_of(c)),
{
    let all = gathered_credentials(lists);
    let p = listing_filter(backend, owner);
    let kept = all.filter(p);
    let h = |c: CredentialView| handle_of(c);
    assert forall|i: int| 0 <= i < kept.map_values(h).len() implies (owner matches Some(o)
        ==> contains_text(#[trigger] kept.map_values(h)[i].owner, o)) && (backend matches Some(b)
        ==> contains_text(backend_json_text(kept.map_values(h)[i].backend), b)) by {
        all.filter_lemma(p);
        assert(p(kept[i]));
    }
    assert forall|c: CredentialView|
        all.contains(c) && (backend matches Some(b) ==> contains_text(backend_json_text(c.backend), b))
            && (owner matches Some(o) ==> contains_text(c.owner, o)) implies kept.map_values(
        h,
    ).contains(#[trigger] handle_of(c)) by {
        all.filter_lemma(p);
        assert(p(c));
        assert(kept.contains(c));
        let k = choose|k: int| 0 <= k < kept.len() && kept[k] == c;
        assert(kept.map_values(h)[k] == handle_of(c));
    }
}

fn passes_listing_filter(c: &Credential, backend: &Option<String>, owner: &Option<String>) -> (b:
    bool)
    ensures
        b == listing_filter(backend.deep_view(), owner.deep_view())(c@),
{
    let by_backend = match backend {
        Some(f) => {
            let text = c.backend.json_text();
            contains(text.as_str(), f.as_str())
        },
        None => true,
    };
    let by_owner = match owner {
        Some(f) => contains(c.owner.as_str(), f.as_str()),
        None => true,
    };
    by_backend && by_owner
}

/// The handles of the credentials of every backend that answered with a
/// listing, kept where they pass the input's filters.
pub fn list_credentials_reply(
    input: &ListCredentialsInput,
    lists: &Vec<Result<Vec<Credential>, VaultError>>,
) -> (r: Vec<CredentialHandle>)
    ensures
        r.deep_view() == listing(lists@, input.backend.deep_view(), input.owner.deep_view()),
{
    let ghost p = listing_filter(input.backend.deep_view(), input.owner.deep_view());
    let ghost h = |c: CredentialView| handle_of(c);
    let mut out: Vec<CredentialHandle> = Vec::new();
    proof {
        reveal(Seq::filter);
        assert(lists@.take(0).len() == 0);
        assert(out.deep_view() =~= gathered_credentials(lists@.take(0)).filter(p).map_values(h));
    }
    for i in 0..lists.len()
        invariant
            out.deep_view() == gathered_credentials(lists@.take(i as int)).filter(p).map_values(h),
            p == listing_filter(input.backend.deep_view(), input.owner.deep_view()),
            h == |c: CredentialView| handle_of(c),
    {
        let ghost prefix = gathered_credentials(lists@.take(i as int));
        proof {
            assert(lists@.take(i + 1).drop_last() =~= lists@.take(i as int));
        }
        match &lists[i] {
            Ok(v) => {
                for j in 0..v.len()
                    invariant
                        out.deep_view() == (prefix + v.deep_view().take(j as int)).filter(
                            p,
                        ).map_values(h),
                        p == listing_filter(input.backend.deep_view(), input.owner.deep_view()),
                        h == |c: CredentialView| handle_of(c),
                {
                    let ghost before = prefix + v.deep_view().take(j as int);
                    proof {
                        assert(prefix + v.deep_view().take(j + 1) =~= before.push(v@[j as int]@));
                        before.lemma_filter_push(v@[j as int]@, p);
                    }
                    if passes_listing_filter(&v[j], &input.backend, &input.owner) {
                        let ghost old_out = out.deep_view();
                        out.push(CredentialHandle::from(&v[j]));
                        proof {
                            assert(out.deep_view() =~= old_out.push(handle_of(v@[j as int]@)));
                            assert(before.filter(p).push(v@[j as int]@).map_values(h) =~= before.filter(
                                p,
                            ).map_values(h).push(handle_of(v@[j as int]@)));
                        }
                    }
                }
                proof {
                    assert(v.deep_view().take(v.len() as int) =~= v.deep_view());
                }
            },
            Err(_) => {
            },
        }
    }
    proof {
        assert(lists@.take(lists.len() as int) =~= lists@);
    }
    out
}

// ---------------------------------------------------------------------------
// Audit trails over all backends
// ---------------------------------------------------------------------------

/// The audit events of the backends that answered, in backend order.
pub open spec fn gathered_events(lists: Seq<Result<Vec<AuditEvent>, VaultError>>) -> Seq<
    AuditEventView,
>
    decreases lists.len(),
{
    if lists.len() == 0 {
        Seq::empty()
    } else {
        let before = gathered_events(lists.drop_last());
        match lists.last() {
            Ok(v) => before + v.deep_view(),
            Err(_) => before,
        }
    }
}

/// `e` placed into the newest-first sequence `s`: after every event that is
/// not earlier than it, before the first that is.
pub open spec fn insert_newest_first(s: Seq<AuditEventView>, e: AuditEventView) -> Seq<
    AuditEventView,
>
    decreases s.len(),
{
    if s.len() == 0 {
        seq![e]
    } else if earlier(s[0].timestamp, e.timestamp) {
        seq![e] + s
    } else {
        seq![s[0]] + insert_newest_first(s.drop_first(), e)
    }
}

/// The events of `s` ordered newest first; events with equal timestamps keep
/// their order.
pub open spec fn newest_first(s: Seq<AuditEventView>) -> Seq<AuditEventView>
    decreases s.len(),
{
    if s.len() == 0 {
        Seq::empty()
    } else {
        insert_newest_first(newest_first(s.drop_last()), s.last())
    }
}

/// No event of `s` is earlier than an event after it.
pub open spec fn is_newest_first(s: Seq<AuditEventView>) -> bool {
    forall|i: int, j: int|
        0 <= i < j < s.len() ==> !earlier(#[trigger] s[i].timestamp, #[trigger] s[j].timestamp)
}

/// The first `limit` events of `s`, or all of them.
pub open spec fn first_n(s: Seq<AuditEventView>, limit: nat) -> Seq<AuditEventView> {
    if limit < s.len() {
        s.take(limit as int)
    } else {
        s
    }
}

proof fn lemma_insert_at_position(s: Seq<AuditEventView>, e: AuditEventView, p: int)
    requires
        0 <= p <= s.len(),
        forall|k: int| 0 <= k < p ==> !earlier(#[trigger] s[k].timestamp, e.timestamp),
        p < s.len() ==> earlier(s[p].timestamp, e.timestamp),
    ensures
        insert_newest_first(s, e) == s.insert(p, e),
    decreases p,
{
    if s.len() == 0 {
        assert(s.insert(p, e) =~= seq![e]);
    } else if p == 0 {
        assert(s.insert(0, e) =~= seq![e] + s);
    } else {
        let t = s.drop_first();
        assert forall|k: int| 0 <= k < p - 1 implies !earlier(#[trigger] t[k].timestamp, e.timestamp) by {
            assert(t[k] == s[k + 1]);
        }
        lemma_insert_at_position(t, e, p - 1);
        assert(seq![s[0]] + t.insert(p - 1, e) =~= s.insert(p, e));
    }
}

/// The audit events answered: the events of every backend that answered,
/// newest first (a stable order), cut to `limit`.
pub fn merge_audit_events(lists: &Vec<Result<Vec<AuditEvent>, VaultError>>, limit: usize) -> (r: Vec<
    AuditEvent,
>)
    ensures
        r.deep_view() == first_n(newest_first(gathered_events(lists@)), limit as nat),
{
    let mut out: Vec<AuditEvent> = Vec::new();
    let ghost done: Seq<AuditEventView> = Seq::empty();
    proof {
        assert(lists@.take(0).len() == 0);
        assert(out.deep_view() =~= newest_first(gathered_events(lists@.take(0))));
    }
    for i in 0..lists.len()
        invariant
            out.deep_view() == newest_first(gathered_events(lists@.take(i as int))),
    {
        let ghost prefix = gathered_events(lists@.take(i as int));
        proof {
            assert(lists@.take(i + 1).drop_last() =~= lists@.take(i as int));
        }
        match &lists[i] {
            Ok(v) => {
                for j in 0..v.len()
                    invariant
                        out.deep_view() == newest_first(prefix + v.deep_view().take(j as int)),
                {
                    let ghost before = prefix + v.deep_view().take(j as int);
                    let e = v[j].clone();
                    let mut p: usize = 0;
                    while p < out.len() && !out[p].timestamp.is_before(&e.timestamp)
                        invariant
                            p <= out.len(),
                            forall|k: int|
                                0 <= k < p ==> !earlier(
                                    #[trigger] out.deep_view()[k].timestamp,
                                    e@.timestamp,
                                ),
                        decreases out.len() - p,
                    {
                        p = p + 1;
                    }
                    let ghost old_out = out.deep_view();
                    proof {
                        lemma_insert_at_position(old_out, e@, p as int);
                        assert(prefix + v.deep_view().take(j + 1) =~= before.push(v@[j as int]@));
                        assert(before.push(v@[j as int]@).drop_last() =~= before);
                    }
                    out.insert(p, e);
                    proof {
                        assert(out.deep_view() =~= old_out.insert(p as int, e@));
                    }
                }
                proof {
                    assert(v.deep_view().take(v.len() as int) =~= v.deep_view());
                }
            },
            Err(_) => {
            },
        }
    }
    proof {
        assert(lists@.take(lists.len() as int) =~= lists@);
    }
    if limit < out.len() {
        let ghost whole = out.deep_view();
        out.truncate(limit);
        proof {
            assert(out.deep_view() =~= whole.take(limit as int));
        }
    }
    out
}

proof fn lemma_insert_position(s: Seq<AuditEventView>, e: AuditEventView) -> (p: int)
    ensures
        0 <= p <= s.len(),
        insert_newest_first(s, e) == s.insert(p, e),
        forall|k: int| 0 <= k < p ==> !earlier(#[trigger] s[k].timestamp, e.timestamp),
        p < s.len() ==> earlier(s[p].timestamp, e.timestamp),
    decreases s.len(),
{
    if s.len() == 0 {
        assert(s.insert(0, e) =~= seq![e]);
        0
    } else if earlier(s[0].timestamp, e.timestamp) {
        assert(s.insert(0, e) =~= seq![e] + s);
        0
    } else {
        let t = s.drop_first();
        let q = lemma_insert_position(t, e);
        assert(seq![s[0]] + t.insert(q, e) =~= s.insert(q + 1, e));
        assert forall|k: int| 0 <= k < q + 1 implies !earlier(#[trigger] s[k].timestamp, e.timestamp) by {
            if k > 0 {
                assert(s[k] == t[k - 1]);
            }
        }
        if q + 1 < s.len() {
            assert(s[q + 1] == t[q]);
        }
        q + 1
    }
}

proof fn lemma_insert_keeps_order(s: Seq<AuditEventView>, e: AuditEventView)
    requires
        is_newest_first(s),
    ensures
        is_newest_first(insert_newest_first(s, e)),
        insert_newest_first(s, e).to_multiset() == s.to_multiset().insert(e),
{
    broadcast use vstd::multiset::group_multiset_axioms;
    let p = lemma_insert_position(s, e);
    let r = s.insert(p, e);
    assert forall|i: int, j: int| 0 <= i < j < r.len() implies !earlier(
        #[trigger] r[i].timestamp,
        #[trigger] r[j].timestamp,
    ) by {
        if j < p {
            assert(r[i] == s[i] && r[j] == s[j]);
        } else if j == p {
            assert(r[i] == s[i]);
        } else if i < p {
            assert(r[i] == s[i] && r[j] == s[j - 1]);
            if i < j - 1 {
                assert(!earlier(s[i].timestamp, s[j - 1].timestamp));
            }
        } else if i == p {
            assert(r[j] == s[j - 1]);
            assert(earlier(s[p].timestamp, e.timestamp));
            if p < j - 1 {
                assert(!earlier(s[p].timestamp, s[j - 1].timestamp));
            }
        } else {
            assert(r[i] == s[i - 1] && r[j] == s[j - 1]);
        }
    }
    assert(r.remove(p) =~= s);
    vstd::seq_lib::to_multiset_remove(r, p);
    r.to_multiset_ensures();
    assert(r.contains(e)) by {
        assert(r[p] == e);
    }
    assert(r.to_multiset() =~= s.to_multiset().insert(e));
}

/// Ordering newest first puts no event before a newer one, and keeps every
/// event, each as often as it occurs.
pub proof fn lemma_newest_first_sorts(s: Seq<AuditEventView>)
    ensures
        is_newest_first(newest_first(s)),
        newest_first(s).to_multiset() == s.to_multiset(),
    decreases s.len(),
{
    broadcast use vstd::multiset::group_multiset_axioms;
    if s.len() == 0 {
        assert(s.to_multiset() =~= vstd::multiset::Multiset::empty()) by {
            s.to_multiset_ensures();
        }
        assert(newest_first(s).to_multiset() =~= vstd::multiset::Multiset::empty()) by {
            newest_first(s).to_multiset_ensures();
        }
    } else {
        lemma_newest_first_sorts(s.drop_last());
        lemma_insert_keeps_order(newest_first(s.drop_last()), s.last());
        vstd::seq_lib::to_multiset_build(s.drop_last(), s.last());
        assert(s.drop_last().push(s.last()) =~= s);
    }
}

} // verus!
