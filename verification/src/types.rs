//! Credential records, handles, tokens and audit events, with their
//! mathematical views.

use vstd::prelude::*;

verus! {

/// The largest number of seconds since the Unix epoch that a UTC date-time can
/// carry (the last second of the year 262142).
pub const MAX_UTC_SECS: i64 = 8210266876799;

/// One second in nanoseconds.
pub const NANOS_PER_SEC: u32 = 1000000000;

/// The smallest number of seconds since the Unix epoch that a UTC date-time can
/// carry (the first second of the year -262143).
pub const MIN_UTC_SECS: i64 = -8334601228800;

/// A UTC instant: whole seconds since the Unix epoch and the nanoseconds past
/// that second.
#[derive(Clone, Copy, Debug, PartialEq, Eq, Structural)]
pub struct Timestamp {
    pub secs: i64,
    pub nanos: u32,
}

/// The epoch, 1970-01-01T00:00:00Z.
pub open spec fn epoch() -> Timestamp {
    Timestamp { secs: 0, nanos: 0 }
}

/// `a` is strictly earlier than `b`.
pub open spec fn earlier(a: Timestamp, b: Timestamp) -> bool {
    a.secs < b.secs || (a.secs == b.secs && a.nanos < b.nanos)
}

/// The instant `secs` seconds after `t`, where it can be represented.
pub open spec fn after_seconds(t: Timestamp, secs: int) -> Option<Timestamp> {
    if t.secs + secs <= MAX_UTC_SECS {
        Some(Timestamp { secs: (t.secs + secs) as i64, nanos: t.nanos })
    } else {
        None
    }
}

impl Timestamp {
    /// The epoch.
    pub fn epoch() -> (t: Timestamp)
        ensures
            t == epoch(),
    {
        Timestamp { secs: 0, nanos: 0 }
    }

    /// Whether `self` lies strictly before `other`.
    pub fn is_before(&self, other: &Timestamp) -> (b: bool)
        ensures
            b == earlier(*self, *other),
    {
        self.secs < other.secs || (self.secs == other.secs && self.nanos < other.nanos)
    }

    /// The instant `secs` seconds later; `None` when it lies past the last
    /// representable second.
    pub fn plus_seconds(&self, secs: u64) -> (r: Option<Timestamp>)
        ensures
            r == after_seconds(*self, secs as int),
    {
        let sum: i128 = self.secs as i128 + secs as i128;
        if sum > MAX_UTC_SECS as i128 {
            None
        } else {
            Some(Timestamp { secs: sum as i64, nanos: self.nanos })
        }
    }
}

/// Credential status in the vault.
#[derive(Clone, Copy, Debug, PartialEq, Eq, Structural)]
pub enum CredentialStatus {
    Active,
    Expired,
    Revoked,
    Rotating,
}

/// How often a credential should be rotated.
#[derive(Clone, Copy, Debug, PartialEq, Eq, Structural)]
pub struct RotationPolicy {
    pub interval_days: u32,
    pub auto_rotate: bool,
    pub notify_before_days: Option<u32>,
}

/// Which vault backend stores a credential.
#[derive(Clone, Copy, Debug, PartialEq, Eq, Structural)]
pub enum BackendType {
    Hashicorp,
    Aws,
    Gcp,
    Azure,
    AdkVault,
}

/// The JSON text of a backend type: its snake-case name in double quotes.
pub open spec fn backend_json_text(b: BackendType) -> Seq<char> {
    match b {
        BackendType::Hashicorp => "\"hashicorp\""@,
        BackendType::Aws => "\"aws\""@,
        BackendType::Gcp => "\"gcp\""@,
        BackendType::Azure => "\"azure\""@,
        BackendType::AdkVault => "\"adk_vault\""@,
    }
}

impl BackendType {
    /// The JSON text of this backend type, as a credential listing writes it.
    pub fn json_text(&self) -> (s: String)
        ensures
            s@ == backend_json_text(*self),
    {
        match self {
            BackendType::Hashicorp => String::from_str("\"hashicorp\""),
            BackendType::Aws => String::from_str("\"aws\""),
            BackendType::Gcp => String::from_str("\"gcp\""),
            BackendType::Azure => String::from_str("\"azure\""),
            BackendType::AdkVault => String::from_str("\"adk_vault\""),
        }
    }
}

/// Server-level risk designation of a credential.
#[derive(Clone, Copy, Debug, PartialEq, Eq, Structural)]
pub enum RiskLevel {
    Low,
    Medium,
    High,
    Critical,
}

/// Kind of an audited credential operation.
#[derive(Clone, Copy, Debug, PartialEq, Eq, Structural)]
pub enum AuditAction {
    Access,
    Denied,
    Rotated,
    Revoked,
    TokenMinted,
    ScopeValidated,
}

/// Outcome of an audited credential operation.
#[derive(Clone, Copy, Debug, PartialEq, Eq, Structural)]
pub enum AuditOutcome {
    Success,
    Denied,
    Error,
}

/// A copy of a list of strings, element by element.
pub fn copy_strings(v: &Vec<String>) -> (r: Vec<String>)
    ensures
        r.deep_view() == v.deep_view(),
{
    let mut r: Vec<String> = Vec::new();
    for i in 0..v.len()
        invariant
            r@.len() == i,
            forall|j: int| 0 <= j < i ==> #[trigger] r@[j]@ == v@[j]@,
    {
        let x = v[i].clone();
        r.push(x);
    }
    proof {
        assert(r.deep_view() =~= v.deep_view());
    }
    r
}

/// A copy of an optional string.
pub fn copy_opt_string(s: &Option<String>) -> (r: Option<String>)
    ensures
        r.deep_view() == s.deep_view(),
{
    match s {
        Some(x) => Some(x.clone()),
        None => None,
    }
}

/// Full credential record (internal: never handed to an agent as is).
#[derive(Debug)]
pub struct Credential {
    pub id: String,
    pub display_name: String,
    pub owner: String,
    pub scope: Vec<String>,
    pub backend: BackendType,
    pub risk_level: RiskLevel,
    pub rotation_policy: Option<RotationPolicy>,
    pub expires_at: Option<Timestamp>,
    pub last_rotated: Option<Timestamp>,
    pub last_accessed: Option<Timestamp>,
    pub status: CredentialStatus,
    pub tags: Vec<String>,
}

/// The value of a credential record.
pub struct CredentialView {
    pub id: Seq<char>,
    pub display_name: Seq<char>,
    pub owner: Seq<char>,
    pub scope: Seq<Seq<char>>,
    pub backend: BackendType,
    pub risk_level: RiskLevel,
    pub rotation_policy: Option<RotationPolicy>,
    pub expires_at: Option<Timestamp>,
    pub last_rotated: Option<Timestamp>,
    pub last_accessed: Option<Timestamp>,
    pub status: CredentialStatus,
    pub tags: Seq<Seq<char>>,
}

impl View for Credential {
    type V = CredentialView;

    open spec fn view(&self) -> CredentialView {
        CredentialView {
            id: self.id@,
            display_name: self.display_name@,
            owner: self.owner@,
            scope: self.scope.deep_view(),
            backend: self.backend,
            risk_level: self.risk_level,
            rotation_policy: self.rotation_policy,
            expires_at: self.expires_at,
            last_rotated: self.last_rotated,
            last_accessed: self.last_accessed,
            status: self.status,
            tags: self.tags.deep_view(),
        }
    }
}

impl DeepView for Credential {
    type V = CredentialView;

    open spec fn deep_view(&self) -> CredentialView {
        self@
    }
}

impl Clone for Credential {
    fn clone(&self) -> (r: Self)
        ensures
            r@ == self@,
    {
        Credential {
            id: self.id.clone(),
            display_name: self.display_name.clone(),
            owner: self.owner.clone(),
            scope: copy_strings(&self.scope),
            backend: self.backend,
            risk_level: self.risk_level,
            rotation_policy: self.rotation_policy,
            expires_at: self.expires_at,
            last_rotated: self.last_rotated,
            last_accessed: self.last_accessed,
            status: self.status,
            tags: copy_strings(&self.tags),
        }
    }
}

/// Safe handle returned to agents: the metadata of a credential, no secret.
#[derive(Debug)]
pub struct CredentialHandle {
    pub id: String,
    pub display_name: String,
    pub status: CredentialStatus,
    pub owner: String,
    pub scope: Vec<String>,
    pub backend: BackendType,
    pub risk_level: RiskLevel,
    pub expires_at: Option<Timestamp>,
    pub last_rotated: Option<Timestamp>,
    pub rotation_policy: Option<RotationPolicy>,
}

/// The value of a credential handle.
pub struct CredentialHandleView {
    pub id: Seq<char>,
    pub display_name: Seq<char>,
    pub status: CredentialStatus,
    pub owner: Seq<char>,
    pub scope: Seq<Seq<char>>,
    pub backend: BackendType,
    pub risk_level: RiskLevel,
    pub expires_at: Option<Timestamp>,
    pub last_rotated: Option<Timestamp>,
    pub rotation_policy: Option<RotationPolicy>,
}

impl View for CredentialHandle {
    type V = CredentialHandleView;

    open spec fn view(&self) -> CredentialHandleView {
        CredentialHandleView {
            id: self.id@,
            display_name: self.display_name@,
            status: self.status,
            owner: self.owner@,
            scope: self.scope.deep_view(),
            backend: self.backend,
            risk_level: self.risk_level,
            expires_at: self.expires_at,
            last_rotated: self.last_rotated,
            rotation_policy: self.rotation_policy,
        }
    }
}

impl DeepView for CredentialHandle {
    type V = CredentialHandleView;

    open spec fn deep_view(&self) -> CredentialHandleView {
        self@
    }
}

/// The handle that describes a credential: every field but the access time
/// and the tags.
pub open spec fn handle_of(c: CredentialView) -> CredentialHandleView {
    CredentialHandleView {
        id: c.id,
        display_name: c.display_name,
        status: c.status,
        owner: c.owner,
        scope: c.scope,
        backend: c.backend,
        risk_level: c.risk_level,
        expires_at: c.expires_at,
        last_rotated: c.last_rotated,
        rotation_policy: c.rotation_policy,
    }
}

/// A credential's handle reports the credential as it is: each of its
/// fields equals the field of the same name of the credential, so the expiry
/// is the credential's expiry and the rotation time its rotation time.
pub proof fn lemma_handle_reports_credential(c: CredentialView)
    ensures
        handle_of(c).id == c.id,
        handle_of(c).display_name == c.display_name,
        handle_of(c).status == c.status,
        handle_of(c).owner == c.owner,
        handle_of(c).scope == c.scope,
        handle_of(c).backend == c.backend,
        handle_of(c).risk_level == c.risk_level,
        handle_of(c).expires_at == c.expires_at,
        handle_of(c).last_rotated == c.last_rotated,
        handle_of(c).rotation_policy == c.rotation_policy,
{
}

/// A runtime handle carries the identifier, credential and scope it was
/// issued for, and expires exactly `ttl` seconds after the instant `now` it
/// was issued at, on the same nanosecond.
pub proof fn lemma_runtime_handle_expiry(
    handle_id: Seq<char>,
    id: Seq<char>,
    scope: Seq<Seq<char>>,
    ttl: nat,
    now: Timestamp,
)
    requires
        after_seconds(now, ttl as int) is Some,
    ensures
        runtime_handle(handle_id, id, scope, ttl, now).handle_id == handle_id,
        runtime_handle(handle_id, id, scope, ttl, now).credential_id == id,
        runtime_handle(handle_id, id, scope, ttl, now).scope == scope,
        runtime_handle(handle_id, id, scope, ttl, now).expires_at.secs == now.secs + ttl,
        runtime_handle(handle_id, id, scope, ttl, now).expires_at.nanos == now.nanos,
{
}

/// A workload token carries the identifier, credential, type and audience it
/// was minted for, and expires exactly `ttl` seconds after the instant `now`
/// it was minted at, on the same nanosecond.
pub proof fn lemma_minted_token_expiry(
    token_id: Seq<char>,
    id: Seq<char>,
    token_type: Seq<char>,
    audience: Seq<char>,
    ttl: nat,
    now: Timestamp,
)
    requires
        after_seconds(now, ttl as int) is Some,
    ensures
        minted_token(token_id, id, token_type, audience, ttl, now).token_id == token_id,
        minted_token(token_id, id, token_type, audience, ttl, now).credential_id == id,
        minted_token(token_id, id, token_type, audience, ttl, now).token_type == token_type,
        minted_token(token_id, id, token_type, audience, ttl, now).audience == audience,
        minted_token(token_id, id, token_type, audience, ttl, now).expires_at.secs == now.secs + ttl,
        minted_token(token_id, id, token_type, audience, ttl, now).expires_at.nanos == now.nanos,
{
}

impl CredentialHandle {
    /// The handle of a credential.
    pub fn from(c: &Credential) -> (h: CredentialHandle)
        ensures
            h@ == handle_of(c@),
    {
        CredentialHandle {
            id: c.id.clone(),
            display_name: c.display_name.clone(),
            status: c.status,
            owner: c.owner.clone(),
            scope: copy_strings(&c.scope),
            backend: c.backend,
            risk_level: c.risk_level,
            expires_at: c.expires_at,
            last_rotated: c.last_rotated,
            rotation_policy: c.rotation_policy,
        }
    }
}

/// A runtime secret handle: the secret itself is resolved by a runtime
/// worker, never by an agent.
#[derive(Debug)]
pub struct RuntimeSecretHandle {
    pub handle_id: String,
    pub credential_id: String,
    pub expires_at: Timestamp,
    pub scope: Vec<String>,
}

/// The value of a runtime secret handle.
pub struct RuntimeSecretHandleView {
    pub handle_id: Seq<char>,
    pub credential_id: Seq<char>,
    pub expires_at: Timestamp,
    pub scope: Seq<Seq<char>>,
}

impl View for RuntimeSecretHandle {
    type V = RuntimeSecretHandleView;

    open spec fn view(&self) -> RuntimeSecretHandleView {
        RuntimeSecretHandleView {
            handle_id: self.handle_id@,
            credential_id: self.credential_id@,
            expires_at: self.expires_at,
            scope: self.scope.deep_view(),
        }
    }
}

/// The runtime handle `handle_id` for the credential `id`, valid for `scope`
/// until `ttl` seconds after `now`.
pub open spec fn runtime_handle(
    handle_id: Seq<char>,
    id: Seq<char>,
    scope: Seq<Seq<char>>,
    ttl: nat,
    now: Timestamp,
) -> RuntimeSecretHandleView {
    RuntimeSecretHandleView {
        handle_id,
        credential_id: id,
        expires_at: after_seconds(now, ttl as int).unwrap(),
        scope,
    }
}

/// A minted workload identity token.
#[derive(Debug)]
pub struct WorkloadToken {
    pub token_id: String,
    pub credential_id: String,
    pub token_type: String,
    pub expires_at: Timestamp,
    pub audience: String,
}

/// The value of a workload token.
pub struct WorkloadTokenView {
    pub token_id: Seq<char>,
    pub credential_id: Seq<char>,
    pub token_type: Seq<char>,
    pub expires_at: Timestamp,
    pub audience: Seq<char>,
}

impl View for WorkloadToken {
    type V = WorkloadTokenView;

    open spec fn view(&self) -> WorkloadTokenView {
        WorkloadTokenView {
            token_id: self.token_id@,
            credential_id: self.credential_id@,
            token_type: self.token_type@,
            expires_at: self.expires_at,
            audience: self.audience@,
        }
    }
}

/// The workload token `token_id` of type `token_type` for the credential
/// `id`, for `audience`, valid until `ttl` seconds after `now`.
pub open spec fn minted_token(
    token_id: Seq<char>,
    id: Seq<char>,
    token_type: Seq<char>,
    audience: Seq<char>,
    ttl: nat,
    now: Timestamp,
) -> WorkloadTokenView {
    WorkloadTokenView {
        token_id,
        credential_id: id,
        token_type,
        expires_at: after_seconds(now, ttl as int).unwrap(),
        audience,
    }
}

/// Audit event for credential access.
#[derive(Debug)]
pub struct AuditEvent {
    pub event_id: String,
    pub credential_id: String,
    pub action: AuditAction,
    pub actor: String,
    pub timestamp: Timestamp,
    pub outcome: AuditOutcome,
    pub reason: Option<String>,
}

/// The value of an audit event.
pub struct AuditEventView {
    pub event_id: Seq<char>,
    pub credential_id: Seq<char>,
    pub action: AuditAction,
    pub actor: Seq<char>,
    pub timestamp: Timestamp,
    pub outcome: AuditOutcome,
    pub reason: Option<Seq<char>>,
}

impl View for AuditEvent {
    type V = AuditEventView;

    open spec fn view(&self) -> AuditEventView {
        AuditEventView {
            event_id: self.event_id@,
            credential_id: self.credential_id@,
            action: self.action,
            actor: self.actor@,
            timestamp: self.timestamp,
            outcome: self.outcome,
            reason: self.reason.deep_view(),
        }
    }
}

impl DeepView for AuditEvent {
    type V = AuditEventView;

    open spec fn deep_view(&self) -> AuditEventView {
        self@
    }
}

impl Clone for AuditEvent {
    fn clone(&self) -> (r: Self)
        ensures
            r@ == self@,
    {
        AuditEvent {
            event_id: self.event_id.clone(),
            credential_id: self.credential_id.clone(),
            action: self.action,
            actor: self.actor.clone(),
            timestamp: self.timestamp,
            outcome: self.outcome,
            reason: copy_opt_string(&self.reason),
        }
    }
}

/// An actor may use a credential when its scope is empty or names the actor.
pub open spec fn scope_allows(scope: Seq<Seq<char>>, actor: Seq<char>) -> bool {
    scope.len() == 0 || scope.contains(actor)
}

/// Whether `actor` may use a credential of scope `scope`.
pub fn actor_allowed(scope: &Vec<String>, actor: &str) -> (b: bool)
    ensures
        b == scope_allows(scope.deep_view(), actor@),
{
    if scope.len() == 0 {
        return true;
    }
    let who = String::from_str(actor);
    let mut i: usize = 0;
    while i < scope.len()
        invariant
            who@ == actor@,
            i <= scope.len(),
            forall|j: int| 0 <= j < i ==> scope.deep_view()[j] != actor@,
        decreases scope.len() - i,
    {
        if scope[i] == who {
            proof {
                assert(scope.deep_view()[i as int] == actor@);
            }
            return true;
        }
        i = i + 1;
    }
    proof {
        if scope.deep_view().contains(actor@) {
            let k = choose|k: int| 0 <= k < scope.deep_view().len() && scope.deep_view()[k] == actor@;
            assert(k < i);
        }
    }
    false
}

/// A credential with an empty scope may be used by every actor; one with a
/// non-empty scope exactly by the actors it lists. A request passes the scope
/// exactly when each actor it names may use the credential.
pub proof fn lemma_scope_admits_listed_actors(
    granted: Seq<Seq<char>>,
    requested: Seq<Seq<char>>,
    actor: Seq<char>,
)
    ensures
        granted.len() == 0 ==> scope_allows(granted, actor),
        granted.len() > 0 ==> (scope_allows(granted, actor) <==> exists|i: int|
            0 <= i < granted.len() && granted[i] == actor),
        granted.len() == 0 ==> scope_covers(granted, requested),
        scope_covers(granted, requested) && requested.contains(actor) && granted.len() > 0
            ==> granted.contains(actor),
        requested.len() == 0 ==> scope_covers(granted, requested),
{
    if scope_covers(granted, requested) && requested.contains(actor) && granted.len() > 0 {
        let k = choose|k: int| 0 <= k < requested.len() && requested[k] == actor;
        assert(scope_allows(granted, requested[k]));
    }
}

/// Every actor of `requested` may use a credential of scope `granted`.
pub open spec fn scope_covers(granted: Seq<Seq<char>>, requested: Seq<Seq<char>>) -> bool {
    forall|i: int| 0 <= i < requested.len() ==> scope_allows(granted, #[trigger] requested[i])
}

/// Whether every actor of `requested` may use a credential of scope
/// `granted`.
pub fn scope_covered(granted: &Vec<String>, requested: &Vec<String>) -> (b: bool)
    ensures
        b == scope_covers(granted.deep_view(), requested.deep_view()),
{
    let mut i: usize = 0;
    while i < requested.len()
        invariant
            i <= requested.len(),
            forall|j: int| 0 <= j < i ==> scope_allows(granted.deep_view(), #[trigger] requested.deep_view()[j]),
        decreases requested.len() - i,
    {
        if !actor_allowed(granted, requested[i].as_str()) {
            proof {
                assert(requested.deep_view()[i as int] == requested@[i as int]@);
            }
            return false;
        }
        i = i + 1;
    }
    true
}

} // verus!
