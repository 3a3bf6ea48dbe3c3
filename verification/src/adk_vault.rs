//! The internal ADK vault: an in-memory store of credential records with an
//! append-only audit trail.

use vstd::prelude::*;
use crate::clock::{clock_reading, current_time, fresh_id};
use crate::error::{VaultError, VaultErrorView};
use crate::types::{
    after_seconds, copy_strings, minted_token, runtime_handle, scope_covered, scope_covers,
    AuditAction, AuditEvent,
    AuditEventView, AuditOutcome, BackendType, Credential, CredentialStatus, CredentialView,
    RuntimeSecretHandle, RuntimeSecretHandleView, Timestamp, WorkloadToken, WorkloadTokenView,
};

verus! {

/// The stored records hold pairwise different identifiers.
pub open spec fn distinct_ids(creds: Seq<CredentialView>) -> bool {
    forall|i: int, j: int|
        0 <= i < creds.len() && 0 <= j < creds.len() && i != j ==> creds[i].id != creds[j].id
}

/// Some stored record has identifier `id`.
pub open spec fn holds_id(creds: Seq<CredentialView>, id: Seq<char>) -> bool {
    exists|i: int| 0 <= i < creds.len() && creds[i].id == id
}

/// The position of the record with identifier `id`.
pub open spec fn index_of(creds: Seq<CredentialView>, id: Seq<char>) -> int {
    choose|i: int| 0 <= i < creds.len() && creds[i].id == id
}

/// The record stored under `id`, if any.
pub open spec fn lookup(creds: Seq<CredentialView>, id: Seq<char>) -> Option<CredentialView> {
    if holds_id(creds, id) {
        Some(creds[index_of(creds, id)])
    } else {
        None
    }
}

/// The records after storing `c`: it replaces the record with its identifier,
/// or joins the end when there is none.
pub open spec fn put(creds: Seq<CredentialView>, c: CredentialView) -> Seq<CredentialView> {
    if holds_id(creds, c.id) {
        creds.update(index_of(creds, c.id), c)
    } else {
        creds.push(c)
    }
}

/// The records after replacing the one stored under `id` by `f` applied to it.
pub open spec fn modify(
    creds: Seq<CredentialView>,
    id: Seq<char>,
    f: spec_fn(CredentialView) -> CredentialView,
) -> Seq<CredentialView> {
    if holds_id(creds, id) {
        creds.update(index_of(creds, id), f(creds[index_of(creds, id)]))
    } else {
        creds
    }
}

/// A record after a rotation at `at`: active again, rotated at `at`.
pub open spec fn rotated(at: Timestamp) -> spec_fn(CredentialView) -> CredentialView {
    |c: CredentialView| CredentialView { last_rotated: Some(at), status: CredentialStatus::Active, ..c }
}

/// A record after its revocation.
pub open spec fn revoked() -> spec_fn(CredentialView) -> CredentialView {
    |c: CredentialView| CredentialView { status: CredentialStatus::Revoked, ..c }
}

/// The audit event that the vault itself records.
pub open spec fn system_event(
    event_id: Seq<char>,
    credential_id: Seq<char>,
    action: AuditAction,
    outcome: AuditOutcome,
    at: Timestamp,
) -> AuditEventView {
    AuditEventView {
        event_id,
        credential_id,
        action,
        actor: "system"@,
        timestamp: at,
        outcome,
        reason: None,
    }
}

/// The state of the vault: its records in the order they were first stored,
/// and its audit trail, oldest event first.
pub struct VaultState {
    pub credentials: Seq<CredentialView>,
    pub audit: Seq<AuditEventView>,
}

/// The state after appending one event to the audit trail.
pub open spec fn audited(s: VaultState, e: AuditEventView) -> VaultState {
    VaultState { credentials: s.credentials, audit: s.audit.push(e) }
}

/// The view of an operation's result.
pub open spec fn outcome<T: View>(r: Result<T, VaultError>) -> Result<T::V, VaultErrorView> {
    match r {
        Ok(v) => Ok(v@),
        Err(e) => Err(e@),
    }
}

/// Internal ADK vault: credential records in memory and an audit trail.
pub struct AdkVaultBackend {
    credentials: Vec<Credential>,
    audit_events: Vec<AuditEvent>,
}

impl View for AdkVaultBackend {
    type V = VaultState;

    closed spec fn view(&self) -> VaultState {
        VaultState {
            credentials: self.credentials.deep_view(),
            audit: self.audit_events.deep_view(),
        }
    }
}

/// The requested scope lies within the scope of the record stored under
/// `id`: every requested actor may use that credential.
pub open spec fn request_in_scope(
    creds: Seq<CredentialView>,
    id: Seq<char>,
    scope: Seq<Seq<char>>,
) -> bool {
    match lookup(creds, id) {
        Some(c) => scope_covers(c.scope, scope),
        None => false,
    }
}

/// What issuing a runtime handle does, given the fresh identifiers and the
/// clock readings it used: on a stored credential whose scope admits every
/// requested actor, an access is audited and a handle issued; on a stored
/// credential whose scope leaves a requested actor out, a denial is audited
/// and `AccessDenied` returned; on an unknown identifier, a denial is audited
/// and `NotFound` returned.
pub open spec fn issue_outcome(
    old: VaultState,
    new: VaultState,
    r: Result<RuntimeSecretHandleView, VaultErrorView>,
    id: Seq<char>,
    scope: Seq<Seq<char>>,
    ttl: nat,
    event_id: Seq<char>,
    event_time: Timestamp,
    handle_id: Seq<char>,
    now: Timestamp,
) -> bool {
    if request_in_scope(old.credentials, id, scope) {
        &&& new == audited(
            old,
            system_event(event_id, id, AuditAction::Access, AuditOutcome::Success, event_time),
        )
        &&& r == Ok::<RuntimeSecretHandleView, VaultErrorView>(
            runtime_handle(handle_id, id, scope, ttl, now),
        )
    } else if holds_id(old.credentials, id) {
        &&& new == audited(
            old,
            system_event(event_id, id, AuditAction::Denied, AuditOutcome::Denied, event_time),
        )
        &&& r == Err::<RuntimeSecretHandleView, VaultErrorView>(VaultErrorView::AccessDenied(id))
    } else {
        &&& new == audited(
            old,
            system_event(event_id, id, AuditAction::Denied, AuditOutcome::Denied, event_time),
        )
        &&& r == Err::<RuntimeSecretHandleView, VaultErrorView>(VaultErrorView::NotFound(id))
    }
}

/// What minting a workload token does: on a stored credential, the minting is
/// audited and an `adk-internal` token returned; otherwise nothing changes and
/// `NotFound` is returned.
pub open spec fn mint_outcome(
    old: VaultState,
    new: VaultState,
    r: Result<WorkloadTokenView, VaultErrorView>,
    id: Seq<char>,
    audience: Seq<char>,
    ttl: nat,
    event_id: Seq<char>,
    event_time: Timestamp,
    token_id: Seq<char>,
    now: Timestamp,
) -> bool {
    if holds_id(old.credentials, id) {
        &&& new == audited(
            old,
            system_event(event_id, id, AuditAction::TokenMinted, AuditOutcome::Success, event_time),
        )
        &&& r == Ok::<WorkloadTokenView, VaultErrorView>(
            minted_token(token_id, id, "adk-internal"@, audience, ttl, now),
        )
    } else {
        &&& new == old
        &&& r == Err::<WorkloadTokenView, VaultErrorView>(VaultErrorView::NotFound(id))
    }
}

/// What a rotation does: the stored credential becomes active and rotated at
/// `rotated_at`, and the rotation is audited; an unknown identifier changes
/// nothing and gives `NotFound`.
pub open spec fn rotate_outcome(
    old: VaultState,
    new: VaultState,
    r: Result<(), VaultErrorView>,
    id: Seq<char>,
    rotated_at: Timestamp,
    event_id: Seq<char>,
    event_time: Timestamp,
) -> bool {
    if holds_id(old.credentials, id) {
        &&& new == VaultState {
            credentials: modify(old.credentials, id, rotated(rotated_at)),
            audit: old.audit.push(
                system_event(event_id, id, AuditAction::Rotated, AuditOutcome::Success, event_time),
            ),
        }
        &&& r == Ok::<(), VaultErrorView>(())
    } else {
        &&& new == old
        &&& r == Err::<(), VaultErrorView>(VaultErrorView::NotFound(id))
    }
}

/// What a revocation does: the stored credential becomes revoked and the
/// revocation is audited; an unknown identifier changes nothing and gives
/// `NotFound`.
pub open spec fn revoke_outcome(
    old: VaultState,
    new: VaultState,
    r: Result<(), VaultErrorView>,
    id: Seq<char>,
    event_id: Seq<char>,
    event_time: Timestamp,
) -> bool {
    if holds_id(old.credentials, id) {
        &&& new == VaultState {
            credentials: modify(old.credentials, id, revoked()),
            audit: old.audit.push(
                system_event(event_id, id, AuditAction::Revoked, AuditOutcome::Success, event_time),
            ),
        }
        &&& r == Ok::<(), VaultErrorView>(())
    } else {
        &&& new == old
        &&& r == Err::<(), VaultErrorView>(VaultErrorView::NotFound(id))
    }
}

/// The event matches an optional credential filter.
pub open spec fn event_matches(e: AuditEventView, filter: Option<Seq<char>>) -> bool {
    match filter {
        None => true,
        Some(id) => e.credential_id == id,
    }
}

/// Up to `limit` events of `events` that match `filter`, newest (last) first.
pub open spec fn newest_matching(
    events: Seq<AuditEventView>,
    filter: Option<Seq<char>>,
    limit: nat,
) -> Seq<AuditEventView>
    decreases events.len(),
{
    if events.len() == 0 || limit == 0 {
        Seq::empty()
    } else if event_matches(events.last(), filter) {
        seq![events.last()] + newest_matching(events.drop_last(), filter, (limit - 1) as nat)
    } else {
        newest_matching(events.drop_last(), filter, limit)
    }
}

proof fn lemma_distinct_index(creds: Seq<CredentialView>, i: int)
    requires
        distinct_ids(creds),
        0 <= i < creds.len(),
    ensures
        holds_id(creds, creds[i].id),
        index_of(creds, creds[i].id) == i,
{
    assert(holds_id(creds, creds[i].id));
}

proof fn lemma_replace_keeps_ids(creds: Seq<CredentialView>, i: int, c: CredentialView)
    requires
        distinct_ids(creds),
        0 <= i < creds.len(),
        c.id == creds[i].id,
    ensures
        distinct_ids(creds.update(i, c)),
        forall|id: Seq<char>| holds_id(creds.update(i, c), id) == holds_id(creds, id),
{
    let u = creds.update(i, c);
    assert forall|id: Seq<char>| holds_id(u, id) == holds_id(creds, id) by {
        if holds_id(u, id) {
            let k = choose|k: int| 0 <= k < u.len() && u[k].id == id;
            assert(creds[k].id == id);
        }
        if holds_id(creds, id) {
            let k = choose|k: int| 0 <= k < creds.len() && creds[k].id == id;
            assert(u[k].id == id);
        }
    }
}

/// Storing a record keeps the identifiers distinct; afterwards its identifier
/// reads back that record and every other identifier reads back what it read
/// before.
pub proof fn lemma_lookup_after_put(creds: Seq<CredentialView>, c: CredentialView, id: Seq<char>)
    requires
        distinct_ids(creds),
    ensures
        distinct_ids(put(creds, c)),
        lookup(put(creds, c), id) == (if id == c.id {
            Some(c)
        } else {
            lookup(creds, id)
        }),
{
    let p = put(creds, c);
    if holds_id(creds, c.id) {
        let i = index_of(creds, c.id);
        lemma_replace_keeps_ids(creds, i, c);
        lemma_distinct_index(p, i);
        if id != c.id && holds_id(creds, id) {
            let j = index_of(creds, id);
            assert(j != i);
            lemma_distinct_index(p, j);
        }
    } else {
        assert forall|a: int, b: int|
            0 <= a < p.len() && 0 <= b < p.len() && a != b implies p[a].id != p[b].id by {
            if a < creds.len() && b < creds.len() {
            } else if a == creds.len() {
                assert(creds[b].id != c.id);
            } else {
                assert(creds[a].id != c.id);
            }
        }
        lemma_distinct_index(p, creds.len() as int);
        if id != c.id && holds_id(creds, id) {
            let j = index_of(creds, id);
            lemma_distinct_index(p, j);
        }
        if id != c.id && !holds_id(creds, id) {
            assert forall|k: int| 0 <= k < p.len() implies p[k].id != id by {
                if k < creds.len() {
                }
            }
        }
    }
}

/// Changing a stored record by a change that keeps its identifier keeps the
/// identifiers distinct; afterwards `id` reads back the changed record and
/// every other identifier what it read before.
pub proof fn lemma_lookup_after_modify(
    creds: Seq<CredentialView>,
    id: Seq<char>,
    f: spec_fn(CredentialView) -> CredentialView,
    other: Seq<char>,
)
    requires
        distinct_ids(creds),
        forall|c: CredentialView| #[trigger] f(c).id == c.id,
    ensures
        distinct_ids(modify(creds, id, f)),
        lookup(modify(creds, id, f), other) == (if other == id {
            match lookup(creds, id) {
                Some(c) => Some(f(c)),
                None => None,
            }
        } else {
            lookup(creds, other)
        }),
{
    if holds_id(creds, id) {
        let i = index_of(creds, id);
        let c = f(creds[i]);
        lemma_replace_keeps_ids(creds, i, c);
        let m = modify(creds, id, f);
        lemma_distinct_index(m, i);
        if other != id && holds_id(creds, other) {
            let j = index_of(creds, other);
            lemma_distinct_index(m, j);
        }
    }
}

/// The predicate of an audit filter.
pub open spec fn matching(filter: Option<Seq<char>>) -> spec_fn(AuditEventView) -> bool {
    |e: AuditEventView| event_matches(e, filter)
}

/// An audit query answers with the matching events, newest first, cut to
/// `limit`: exactly the first `min(limit, n)` of the matching events in reverse
/// order, where `n` is how many match.
pub proof fn lemma_audit_query(events: Seq<AuditEventView>, filter: Option<Seq<char>>, limit: nat)
    ensures
        ({
            let found = events.filter(matching(filter));
            let n = if limit < found.len() {
                limit as int
            } else {
                found.len() as int
            };
            newest_matching(events, filter, limit) == found.reverse().take(n)
        }),
    decreases events.len(),
{
    reveal(Seq::filter);
    let found = events.filter(matching(filter));
    if events.len() == 0 {
        assert(found.reverse().take(0) =~= Seq::<AuditEventView>::empty());
    } else if limit == 0 {
        assert(found.reverse().take(0) =~= Seq::<AuditEventView>::empty());
    } else {
        let rest = events.drop_last();
        let x = events.last();
        let found_rest = rest.filter(matching(filter));
        if event_matches(x, filter) {
            lemma_audit_query(rest, filter, (limit - 1) as nat);
            assert(found == found_rest.push(x));
            let n_rest = if (limit - 1) < found_rest.len() {
                (limit - 1) as int
            } else {
                found_rest.len() as int
            };
            assert(found.reverse() =~= seq![x] + found_rest.reverse());
            let n = if limit < found.len() {
                limit as int
            } else {
                found.len() as int
            };
            assert(n == n_rest + 1);
            assert(found.reverse().take(n) =~= seq![x] + found_rest.reverse().take(n_rest));
        } else {
            lemma_audit_query(rest, filter, limit);
            assert(found == found_rest);
        }
    }
}

/// Every event an audit query returns matches its filter, and it returns at
/// most `limit` of them.
pub proof fn lemma_audit_query_bounds(
    events: Seq<AuditEventView>,
    filter: Option<Seq<char>>,
    limit: nat,
)
    ensures
        newest_matching(events, filter, limit).len() <= limit,
        forall|i: int|
            0 <= i < newest_matching(events, filter, limit).len() ==> event_matches(
                #[trigger] newest_matching(events, filter, limit)[i],
                filter,
            ),
    decreases events.len(),
{
    if events.len() > 0 && limit > 0 {
        if event_matches(events.last(), filter) {
            lemma_audit_query_bounds(events.drop_last(), filter, (limit - 1) as nat);
            let r = newest_matching(events, filter, limit);
            let t = newest_matching(events.drop_last(), filter, (limit - 1) as nat);
            assert forall|i: int| 0 <= i < r.len() implies event_matches(#[trigger] r[i], filter) by {
                if i > 0 {
                    assert(r[i] == t[i - 1]);
                }
            }
        } else {
            lemma_audit_query_bounds(events.drop_last(), filter, limit);
        }
    }
}

/// Every operation of the vault leaves the audit trail it found in place and
/// adds at most one event to it: the trail is append-only.
pub open spec fn appends_at_most_one(old: VaultState, new: VaultState) -> bool {
    &&& old.audit.len() <= new.audit.len() <= old.audit.len() + 1
    &&& new.audit.subrange(0, old.audit.len() as int) == old.audit
}

/// Issuing a runtime handle appends at most one audit event and changes no
/// credential.
pub proof fn lemma_issue_appends(
    old: VaultState,
    new: VaultState,
    r: Result<RuntimeSecretHandleView, VaultErrorView>,
    id: Seq<char>,
    scope: Seq<Seq<char>>,
    ttl: nat,
    event_id: Seq<char>,
    event_time: Timestamp,
    handle_id: Seq<char>,
    now: Timestamp,
)
    requires
        issue_outcome(old, new, r, id, scope, ttl, event_id, event_time, handle_id, now),
    ensures
        appends_at_most_one(old, new),
        new.credentials == old.credentials,
{
    assert(new.audit.subrange(0, old.audit.len() as int) =~= old.audit);
}

/// Scope enforcement: when the stored credential's scope is not empty and
/// leaves out an actor that the request names, no handle is issued; the
/// request is refused with `AccessDenied` and audited as a denial.
pub proof fn lemma_out_of_scope_denied(
    old: VaultState,
    new: VaultState,
    r: Result<RuntimeSecretHandleView, VaultErrorView>,
    id: Seq<char>,
    scope: Seq<Seq<char>>,
    ttl: nat,
    event_id: Seq<char>,
    event_time: Timestamp,
    handle_id: Seq<char>,
    now: Timestamp,
    actor: Seq<char>,
)
    requires
        issue_outcome(old, new, r, id, scope, ttl, event_id, event_time, handle_id, now),
        lookup(old.credentials, id) matches Some(c) && c.scope.len() > 0 && !c.scope.contains(
            actor,
        ),
        scope.contains(actor),
    ensures
        r == Err::<RuntimeSecretHandleView, VaultErrorView>(VaultErrorView::AccessDenied(id)),
        new == audited(
            old,
            system_event(event_id, id, AuditAction::Denied, AuditOutcome::Denied, event_time),
        ),
{
    let k = choose|k: int| 0 <= k < scope.len() && scope[k] == actor;
    assert(!crate::types::scope_allows(lookup(old.credentials, id)->0.scope, scope[k]));
}

/// Minting a workload token appends at most one audit event and changes no
/// credential.
pub proof fn lemma_mint_appends(
    old: VaultState,
    new: VaultState,
    r: Result<WorkloadTokenView, VaultErrorView>,
    id: Seq<char>,
    audience: Seq<char>,
    ttl: nat,
    event_id: Seq<char>,
    event_time: Timestamp,
    token_id: Seq<char>,
    now: Timestamp,
)
    requires
        mint_outcome(old, new, r, id, audience, ttl, event_id, event_time, token_id, now),
    ensures
        appends_at_most_one(old, new),
        new.credentials == old.credentials,
{
    assert(new.audit.subrange(0, old.audit.len() as int) =~= old.audit);
}

/// A rotation appends at most one audit event; afterwards the rotated
/// credential reads back active and rotated at the rotation time, and every
/// other credential reads back unchanged.
pub proof fn lemma_rotate_effect(
    old: VaultState,
    new: VaultState,
    r: Result<(), VaultErrorView>,
    id: Seq<char>,
    rotated_at: Timestamp,
    event_id: Seq<char>,
    event_time: Timestamp,
    other: Seq<char>,
)
    requires
        distinct_ids(old.credentials),
        rotate_outcome(old, new, r, id, rotated_at, event_id, event_time),
    ensures
        appends_at_most_one(old, new),
        r is Ok ==> (lookup(new.credentials, id) matches Some(c) && c.status
            == CredentialStatus::Active && c.last_rotated == Some(rotated_at)),
        other != id ==> lookup(new.credentials, other) == lookup(old.credentials, other),
{
    assert(new.audit.subrange(0, old.audit.len() as int) =~= old.audit);
    lemma_lookup_after_modify(old.credentials, id, rotated(rotated_at), id);
    lemma_lookup_after_modify(old.credentials, id, rotated(rotated_at), other);
}

/// A revocation appends at most one audit event; afterwards the revoked
/// credential reads back revoked, and every other credential reads back
/// unchanged.
pub proof fn lemma_revoke_effect(
    old: VaultState,
    new: VaultState,
    r: Result<(), VaultErrorView>,
    id: Seq<char>,
    event_id: Seq<char>,
    event_time: Timestamp,
    other: Seq<char>,
)
    requires
        distinct_ids(old.credentials),
        revoke_outcome(old, new, r, id, event_id, event_time),
    ensures
        appends_at_most_one(old, new),
        r is Ok ==> (lookup(new.credentials, id) matches Some(c) && c.status
            == CredentialStatus::Revoked),
        other != id ==> lookup(new.credentials, other) == lookup(old.credentials, other),
{
    assert(new.audit.subrange(0, old.audit.len() as int) =~= old.audit);
    lemma_lookup_after_modify(old.credentials, id, revoked(), id);
    lemma_lookup_after_modify(old.credentials, id, revoked(), other);
}

/// A rotation of a stored credential changes its status to active and its
/// rotation time to the rotation instant, and nothing else of it: identifier,
/// name, owner, scope, backend, risk, rotation policy, expiry, last access and
/// tags read back as before. It is audited as one successful rotation.
pub proof fn lemma_rotation_changes_only_status_and_time(
    old: VaultState,
    new: VaultState,
    r: Result<(), VaultErrorView>,
    id: Seq<char>,
    rotated_at: Timestamp,
    event_id: Seq<char>,
    event_time: Timestamp,
)
    requires
        distinct_ids(old.credentials),
        rotate_outcome(old, new, r, id, rotated_at, event_id, event_time),
        holds_id(old.credentials, id),
    ensures
        r is Ok,
        lookup(old.credentials, id) matches Some(o) && lookup(new.credentials, id) matches Some(n)
            && n.status == CredentialStatus::Active && n.last_rotated == Some(rotated_at) && n.id
            == o.id && n.display_name == o.display_name && n.owner == o.owner && n.scope
            == o.scope && n.backend == o.backend && n.risk_level == o.risk_level
            && n.rotation_policy == o.rotation_policy && n.expires_at == o.expires_at
            && n.last_accessed == o.last_accessed && n.tags == o.tags,
        new.audit.len() == old.audit.len() + 1,
        new.audit.last().credential_id == id,
        new.audit.last().action == AuditAction::Rotated,
        new.audit.last().outcome == AuditOutcome::Success,
{
    lemma_lookup_after_modify(old.credentials, id, rotated(rotated_at), id);
}

/// A revocation of a stored credential changes its status to revoked and
/// nothing else of it. It is audited as one successful revocation.
pub proof fn lemma_revocation_changes_only_status(
    old: VaultState,
    new: VaultState,
    r: Result<(), VaultErrorView>,
    id: Seq<char>,
    event_id: Seq<char>,
    event_time: Timestamp,
)
    requires
        distinct_ids(old.credentials),
        revoke_outcome(old, new, r, id, event_id, event_time),
        holds_id(old.credentials, id),
    ensures
        r is Ok,
        lookup(old.credentials, id) matches Some(o) && lookup(new.credentials, id) matches Some(n)
            && n.status == CredentialStatus::Revoked && n.last_rotated == o.last_rotated && n.id
            == o.id && n.display_name == o.display_name && n.owner == o.owner && n.scope
            == o.scope && n.backend == o.backend && n.risk_level == o.risk_level
            && n.rotation_policy == o.rotation_policy && n.expires_at == o.expires_at
            && n.last_accessed == o.last_accessed && n.tags == o.tags,
        new.audit.len() == old.audit.len() + 1,
        new.audit.last().credential_id == id,
        new.audit.last().action == AuditAction::Revoked,
        new.audit.last().outcome == AuditOutcome::Success,
{
    lemma_lookup_after_modify(old.credentials, id, revoked(), id);
}

/// An event the vault records itself is stamped with the identifier and the
/// instant given, names the credential, the action and the outcome, is
/// attributed to the actor `system`, and carries no reason.
pub proof fn lemma_system_event_fields(
    event_id: Seq<char>,
    credential_id: Seq<char>,
    action: AuditAction,
    outcome: AuditOutcome,
    at: Timestamp,
)
    ensures
        system_event(event_id, credential_id, action, outcome, at).event_id == event_id,
        system_event(event_id, credential_id, action, outcome, at).credential_id == credential_id,
        system_event(event_id, credential_id, action, outcome, at).action == action,
        system_event(event_id, credential_id, action, outcome, at).outcome == outcome,
        system_event(event_id, credential_id, action, outcome, at).timestamp == at,
        system_event(event_id, credential_id, action, outcome, at).actor == "system"@,
        system_event(event_id, credential_id, action, outcome, at).reason is None,
{
}

/// Asking for a runtime handle of a credential the vault does not hold
/// issues nothing: the request is refused with `NotFound`, audited as one
/// denial for that identifier, and no record changes.
pub proof fn lemma_unknown_credential_denied(
    old: VaultState,
    new: VaultState,
    r: Result<RuntimeSecretHandleView, VaultErrorView>,
    id: Seq<char>,
    scope: Seq<Seq<char>>,
    ttl: nat,
    event_id: Seq<char>,
    event_time: Timestamp,
    handle_id: Seq<char>,
    now: Timestamp,
)
    requires
        issue_outcome(old, new, r, id, scope, ttl, event_id, event_time, handle_id, now),
        !holds_id(old.credentials, id),
    ensures
        r == Err::<RuntimeSecretHandleView, VaultErrorView>(VaultErrorView::NotFound(id)),
        new.credentials == old.credentials,
        new.audit.len() == old.audit.len() + 1,
        new.audit.subrange(0, old.audit.len() as int) == old.audit,
        new.audit.last().credential_id == id,
        new.audit.last().action == AuditAction::Denied,
        new.audit.last().outcome == AuditOutcome::Denied,
{
    assert(new.audit.subrange(0, old.audit.len() as int) =~= old.audit);
}

/// A token the vault mints for a stored credential is of type
/// `adk-internal`, for that credential and the audience asked, under the
/// identifier given, and expires exactly `ttl` seconds after the minting
/// instant `now`; the minting is audited and no record changes.
pub proof fn lemma_vault_token_expiry(
    old: VaultState,
    new: VaultState,
    r: Result<WorkloadTokenView, VaultErrorView>,
    id: Seq<char>,
    audience: Seq<char>,
    ttl: nat,
    event_id: Seq<char>,
    event_time: Timestamp,
    token_id: Seq<char>,
    now: Timestamp,
)
    requires
        mint_outcome(old, new, r, id, audience, ttl, event_id, event_time, token_id, now),
        holds_id(old.credentials, id),
        after_seconds(now, ttl as int) is Some,
    ensures
        r matches Ok(t) && t.token_id == token_id && t.credential_id == id && t.token_type
            == "adk-internal"@ && t.audience == audience && t.expires_at.secs == now.secs + ttl
            && t.expires_at.nanos == now.nanos,
        new.credentials == old.credentials,
        new.audit.len() == old.audit.len() + 1,
        new.audit.last().credential_id == id,
        new.audit.last().action == AuditAction::TokenMinted,
{
}

/// A runtime handle the vault issues for an in-scope request names the
/// credential and carries exactly the scope asked for, under the identifier
/// given, and expires exactly `ttl` seconds after the issuing instant `now`;
/// the access is audited and no record changes.
pub proof fn lemma_vault_handle_expiry(
    old: VaultState,
    new: VaultState,
    r: Result<RuntimeSecretHandleView, VaultErrorView>,
    id: Seq<char>,
    scope: Seq<Seq<char>>,
    ttl: nat,
    event_id: Seq<char>,
    event_time: Timestamp,
    handle_id: Seq<char>,
    now: Timestamp,
)
    requires
        issue_outcome(old, new, r, id, scope, ttl, event_id, event_time, handle_id, now),
        request_in_scope(old.credentials, id, scope),
        after_seconds(now, ttl as int) is Some,
    ensures
        r matches Ok(h) && h.handle_id == handle_id && h.credential_id == id && h.scope == scope
            && h.expires_at.secs == now.secs + ttl && h.expires_at.nanos == now.nanos,
        new.credentials == old.credentials,
        new.audit.len() == old.audit.len() + 1,
        new.audit.last().credential_id == id,
        new.audit.last().action == AuditAction::Access,
        new.audit.last().outcome == AuditOutcome::Success,
{
}

impl AdkVaultBackend {
    /// The stored identifiers are pairwise different.
    pub open spec fn well_formed(&self) -> bool {
        distinct_ids(self@.credentials)
    }

    /// An empty vault: no credentials, no audit events.
    pub fn new() -> (v: Self)
        ensures
            v.well_formed(),
            v@.credentials == Seq::<CredentialView>::empty(),
            v@.audit == Seq::<AuditEventView>::empty(),
    {
        let v = AdkVaultBackend { credentials: Vec::new(), audit_events: Vec::new() };
        proof {
            assert(v@.credentials =~= Seq::<CredentialView>::empty());
            assert(v@.audit =~= Seq::<AuditEventView>::empty());
        }
        v
    }

    /// The position of the record stored under `id`.
    fn position(&self, id: &str) -> (r: Option<usize>)
        requires
            self.well_formed(),
        ensures
            match r {
                Some(i) => holds_id(self@.credentials, id@) && i == index_of(
                    self@.credentials,
                    id@,
                ) && i < self@.credentials.len(),
                None => !holds_id(self@.credentials, id@),
            },
    {
        let key = String::from_str(id);
        let mut i: usize = 0;
        while i < self.credentials.len()
            invariant
                self.well_formed(),
                key@ == id@,
                i <= self.credentials.len(),
                forall|j: int| 0 <= j < i ==> self@.credentials[j].id != id@,
            decreases self.credentials.len() - i,
        {
            if self.credentials[i].id == key {
                proof {
                    assert(self@.credentials[i as int].id == id@);
                    lemma_distinct_index(self@.credentials, i as int);
                }
                return Some(i);
            }
            i = i + 1;
        }
        None
    }

    /// Appends an event recorded by the vault itself.
    fn record_audit(
        &mut self,
        credential_id: &str,
        action: AuditAction,
        outcome: AuditOutcome,
        event_id: String,
        at: Timestamp,
    )
        ensures
            final(self)@ == audited(old(self)@, system_event(event_id@, credential_id@, action, outcome, at)),
    {
        let event = AuditEvent {
            event_id,
            credential_id: String::from_str(credential_id),
            action,
            actor: String::from_str("system"),
            timestamp: at,
            outcome,
            reason: None,
        };
        self.audit_events.push(event);
        proof {
            assert(self@.audit =~= old(self)@.audit.push(
                system_event(event_id@, credential_id@, action, outcome, at),
            ));
        }
    }

    /// Stores a credential under its identifier, replacing the one stored there.
    pub fn insert(&mut self, credential: Credential)
        requires
            old(self).well_formed(),
        ensures
            final(self).well_formed(),
            final(self)@.credentials == put(old(self)@.credentials, credential@),
            final(self)@.audit == old(self)@.audit,
    {
        let ghost c = credential@;
        proof {
            lemma_lookup_after_put(self@.credentials, c, c.id);
        }
        match self.position(credential.id.as_str()) {
            Some(i) => {
                self.credentials.set(i, credential);
            },
            None => {
                self.credentials.push(credential);
            },
        }
        proof {
            assert(self@.credentials =~= put(old(self)@.credentials, c));
            assert(self@.audit =~= old(self)@.audit);
        }
    }

    /// The kind of this backend.
    pub fn backend_type(&self) -> (b: BackendType)
        ensures
            b == BackendType::AdkVault,
    {
        BackendType::AdkVault
    }

    /// An in-memory vault is always reachable.
    pub fn health_check(&self) -> (r: Result<(), VaultError>)
        ensures
            r is Ok,
    {
        Ok(())
    }

    /// Every stored credential, in the order they were first stored.
    pub fn list_credentials(&self) -> (r: Result<Vec<Credential>, VaultError>)
        ensures
            r matches Ok(v) && v.deep_view() == self@.credentials,
    {
        let mut out: Vec<Credential> = Vec::new();
        for i in 0..self.credentials.len()
            invariant
                out@.len() == i,
                forall|j: int| 0 <= j < i ==> #[trigger] out@[j]@ == self@.credentials[j],
        {
            out.push(self.credentials[i].clone());
        }
        proof {
            assert(out.deep_view() =~= self@.credentials);
        }
        Ok(out)
    }

    /// The credential stored under `id`; `NotFound(id)` when there is none.
    pub fn get_credential(&self, id: &str) -> (r: Result<Credential, VaultError>)
        requires
            self.well_formed(),
        ensures
            match r {
                Ok(c) => lookup(self@.credentials, id@) == Some(c@),
                Err(e) => lookup(self@.credentials, id@) is None && e@ == VaultErrorView::NotFound(
                    id@,
                ),
            },
    {
        match self.position(id) {
            Some(i) => Ok(self.credentials[i].clone()),
            None => Err(VaultError::NotFound(String::from_str(id))),
        }
    }

    /// Issues a runtime handle with the identifiers and clock readings given.
    pub fn issue_runtime_handle_at(
        &mut self,
        credential_id: &str,
        scope: &Vec<String>,
        ttl_seconds: u64,
        event_id: String,
        event_time: Timestamp,
        handle_id: String,
        now: Timestamp,
    ) -> (r: Result<RuntimeSecretHandle, VaultError>)
        requires
            old(self).well_formed(),
            request_in_scope(old(self)@.credentials, credential_id@, scope.deep_view())
                ==> after_seconds(now, ttl_seconds as int) is Some,
        ensures
            final(self).well_formed(),
            issue_outcome(
                old(self)@,
                final(self)@,
                outcome(r),
                credential_id@,
                scope.deep_view(),
                ttl_seconds as nat,
                event_id@,
                event_time,
                handle_id@,
                now,
            ),
    {
        match self.position(credential_id) {
            None => {
                self.record_audit(
                    credential_id,
                    AuditAction::Denied,
                    AuditOutcome::Denied,
                    event_id,
                    event_time,
                );
                Err(VaultError::NotFound(String::from_str(credential_id)))
            },
            Some(i) => {
                if !scope_covered(&self.credentials[i].scope, scope) {
                    self.record_audit(
                        credential_id,
                        AuditAction::Denied,
                        AuditOutcome::Denied,
                        event_id,
                        event_time,
                    );
                    return Err(VaultError::AccessDenied(String::from_str(credential_id)));
                }
                self.record_audit(
                    credential_id,
                    AuditAction::Access,
                    AuditOutcome::Success,
                    event_id,
                    event_time,
                );
                let expires_at = now.plus_seconds(ttl_seconds).unwrap();
                Ok(
                    RuntimeSecretHandle {
                        handle_id,
                        credential_id: String::from_str(credential_id),
                        expires_at,
                        scope: copy_strings(scope),
                    },
                )
            },
        }
    }

    /// Issues a short-lived runtime handle for a stored credential, under a
    /// fresh identifier, expiring `ttl_seconds` after the current time, and
    /// audits the access. A credential whose non-empty scope leaves out a
    /// requested actor is audited as a denial and gives `AccessDenied`; an
    /// unknown credential is audited as a denial and gives `NotFound`. When the
    /// expiry would lie past the last representable instant, nothing changes
    /// and an `Internal` error is returned.
    pub fn issue_runtime_handle(
        &mut self,
        credential_id: &str,
        scope: &Vec<String>,
        ttl_seconds: u64,
    ) -> (r: Result<RuntimeSecretHandle, VaultError>)
        requires
            old(self).well_formed(),
        ensures
            final(self).well_formed(),
            match r {
                Err(VaultError::Internal(_)) => final(self)@ == old(self)@ && request_in_scope(
                    old(self)@.credentials,
                    credential_id@,
                    scope.deep_view(),
                ) && exists|now: Timestamp|
                    clock_reading(now) && after_seconds(now, ttl_seconds as int) is None,
                _ => exists|
                    event_id: Seq<char>,
                    event_time: Timestamp,
                    handle_id: Seq<char>,
                    now: Timestamp,
                |
                    clock_reading(event_time) && clock_reading(now) && issue_outcome(
                        old(self)@,
                        final(self)@,
                        outcome(r),
                        credential_id@,
                        scope.deep_view(),
                        ttl_seconds as nat,
                        event_id,
                        event_time,
                        handle_id,
                        now,
                    ),
            },
    {
        let event_id = fresh_id();
        let event_time = current_time();
        let handle_id = fresh_id();
        let now = current_time();
        if now.plus_seconds(ttl_seconds).is_none() {
            match self.position(credential_id) {
                Some(i) => {
                    if scope_covered(&self.credentials[i].scope, scope) {
                        proof {
                            assert(clock_reading(now) && after_seconds(now, ttl_seconds as int)
                                is None);
                        }
                        return Err(VaultError::Internal(String::from_str("expiry out of range")));
                    }
                },
                None => {},
            }
        }
        let ghost e = event_id@;
        let ghost h = handle_id@;
        let r = self.issue_runtime_handle_at(
            credential_id,
            scope,
            ttl_seconds,
            event_id,
            event_time,
            handle_id,
            now,
        );
        proof {
            assert(clock_reading(event_time) && clock_reading(now) && issue_outcome(
                old(self)@,
                self@,
                outcome(r),
                credential_id@,
                scope.deep_view(),
                ttl_seconds as nat,
                e,
                event_time,
                h,
                now,
            ));
        }
        r
    }

    /// Mints a workload token with the identifiers and clock readings given.
    pub fn mint_workload_token_at(
        &mut self,
        credential_id: &str,
        audience: &str,
        ttl_seconds: u64,
        event_id: String,
        event_time: Timestamp,
        token_id: String,
        now: Timestamp,
    ) -> (r: Result<WorkloadToken, VaultError>)
        requires
            old(self).well_formed(),
            holds_id(old(self)@.credentials, credential_id@) ==> after_seconds(
                now,
                ttl_seconds as int,
            ) is Some,
        ensures
            final(self).well_formed(),
            mint_outcome(
                old(self)@,
                final(self)@,
                outcome(r),
                credential_id@,
                audience@,
                ttl_seconds as nat,
                event_id@,
                event_time,
                token_id@,
                now,
            ),
    {
        match self.position(credential_id) {
            None => Err(VaultError::NotFound(String::from_str(credential_id))),
            Some(_) => {
                self.record_audit(
                    credential_id,
                    AuditAction::TokenMinted,
                    AuditOutcome::Success,
                    event_id,
                    event_time,
                );
                let expires_at = now.plus_seconds(ttl_seconds).unwrap();
                Ok(
                    WorkloadToken {
                        token_id,
                        credential_id: String::from_str(credential_id),
                        token_type: String::from_str("adk-internal"),
                        expires_at,
                        audience: String::from_str(audience),
                    },
                )
            },
        }
    }

    /// Mints a workload token for a stored credential, under a fresh
    /// identifier, expiring `ttl_seconds` after the current time, and audits
    /// the minting; an unknown credential changes nothing and gives `NotFound`.
    /// When the expiry would lie past the last representable instant, nothing
    /// changes and an `Internal` error is returned.
    pub fn mint_workload_token(
        &mut self,
        credential_id: &str,
        audience: &str,
        ttl_seconds: u64,
    ) -> (r: Result<WorkloadToken, VaultError>)
        requires
            old(self).well_formed(),
        ensures
            final(self).well_formed(),
            match r {
                Err(VaultError::Internal(_)) => final(self)@ == old(self)@ && holds_id(
                    old(self)@.credentials,
                    credential_id@,
                ) && exists|now: Timestamp|
                    clock_reading(now) && after_seconds(now, ttl_seconds as int) is None,
                _ => exists|
                    event_id: Seq<char>,
                    event_time: Timestamp,
                    token_id: Seq<char>,
                    now: Timestamp,
                |
                    clock_reading(event_time) && clock_reading(now) && mint_outcome(
                        old(self)@,
                        final(self)@,
                        outcome(r),
                        credential_id@,
                        audience@,
                        ttl_seconds as nat,
                        event_id,
                        event_time,
                        token_id,
                        now,
                    ),
            },
    {
        let event_id = fresh_id();
        let event_time = current_time();
        let token_id = fresh_id();
        let now = current_time();
        if now.plus_seconds(ttl_seconds).is_none() && self.position(credential_id).is_some() {
            proof {
                assert(clock_reading(now) && after_seconds(now, ttl_seconds as int) is None);
            }
            return Err(VaultError::Internal(String::from_str("expiry out of range")));
        }
        let ghost e = event_id@;
        let ghost t = token_id@;
        let r = self.mint_workload_token_at(
            credential_id,
            audience,
            ttl_seconds,
            event_id,
            event_time,
            token_id,
            now,
        );
        proof {
            assert(clock_reading(event_time) && clock_reading(now) && mint_outcome(
                old(self)@,
                self@,
                outcome(r),
                credential_id@,
                audience@,
                ttl_seconds as nat,
                e,
                event_time,
                t,
                now,
            ));
        }
        r
    }

    /// Rotates with the identifier and clock readings given.
    pub fn rotate_at(
        &mut self,
        credential_id: &str,
        rotated_at: Timestamp,
        event_id: String,
        event_time: Timestamp,
    ) -> (r: Result<(), VaultError>)
        requires
            old(self).well_formed(),
        ensures
            final(self).well_formed(),
            rotate_outcome(
                old(self)@,
                final(self)@,
                outcome(r),
                credential_id@,
                rotated_at,
                event_id@,
                event_time,
            ),
    {
        match self.position(credential_id) {
            None => Err(VaultError::NotFound(String::from_str(credential_id))),
            Some(i) => {
                let ghost before = self@;
                let mut c = self.credentials[i].clone();
                c.last_rotated = Some(rotated_at);
                c.status = CredentialStatus::Active;
                proof {
                    assert(c@ == rotated(rotated_at)(before.credentials[i as int]));
                    lemma_replace_keeps_ids(before.credentials, i as int, c@);
                }
                self.credentials.set(i, c);
                proof {
                    assert(self@.credentials =~= modify(
                        before.credentials,
                        credential_id@,
                        rotated(rotated_at),
                    ));
                }
                self.record_audit(
                    credential_id,
                    AuditAction::Rotated,
                    AuditOutcome::Success,
                    event_id,
                    event_time,
                );
                Ok(())
            },
        }
    }

    /// Rotates a stored credential: it becomes active again, rotated at the
    /// current time, and the rotation is audited; an unknown credential changes
    /// nothing and gives `NotFound`.
    pub fn rotate(&mut self, credential_id: &str) -> (r: Result<(), VaultError>)
        requires
            old(self).well_formed(),
        ensures
            final(self).well_formed(),
            exists|rotated_at: Timestamp, event_id: Seq<char>, event_time: Timestamp|
                clock_reading(rotated_at) && clock_reading(event_time) && rotate_outcome(
                    old(self)@,
                    final(self)@,
                    outcome(r),
                    credential_id@,
                    rotated_at,
                    event_id,
                    event_time,
                ),
    {
        let rotated_at = current_time();
        let event_id = fresh_id();
        let event_time = current_time();
        let ghost e = event_id@;
        let r = self.rotate_at(credential_id, rotated_at, event_id, event_time);
        proof {
            assert(clock_reading(rotated_at) && clock_reading(event_time) && rotate_outcome(
                old(self)@,
                self@,
                outcome(r),
                credential_id@,
                rotated_at,
                e,
                event_time,
            ));
        }
        r
    }

    /// Revokes with the identifier and clock reading given.
    pub fn revoke_at(&mut self, credential_id: &str, event_id: String, event_time: Timestamp) -> (r:
        Result<(), VaultError>)
        requires
            old(self).well_formed(),
        ensures
            final(self).well_formed(),
            revoke_outcome(old(self)@, final(self)@, outcome(r), credential_id@, event_id@, event_time),
    {
        match self.position(credential_id) {
            None => Err(VaultError::NotFound(String::from_str(credential_id))),
            Some(i) => {
                let ghost before = self@;
                let mut c = self.credentials[i].clone();
                c.status = CredentialStatus::Revoked;
                proof {
                    assert(c@ == revoked()(before.credentials[i as int]));
                    lemma_replace_keeps_ids(before.credentials, i as int, c@);
                }
                self.credentials.set(i, c);
                proof {
                    assert(self@.credentials =~= modify(before.credentials, credential_id@, revoked()));
                }
                self.record_audit(
                    credential_id,
                    AuditAction::Revoked,
                    AuditOutcome::Success,
                    event_id,
                    event_time,
                );
                Ok(())
            },
        }
    }

    /// Revokes a stored credential and audits the revocation; an unknown
    /// credential changes nothing and gives `NotFound`.
    pub fn revoke(&mut self, credential_id: &str) -> (r: Result<(), VaultError>)
        requires
            old(self).well_formed(),
        ensures
            final(self).well_formed(),
            exists|event_id: Seq<char>, event_time: Timestamp|
                clock_reading(event_time) && revoke_outcome(
                    old(self)@,
                    final(self)@,
                    outcome(r),
                    credential_id@,
                    event_id,
                    event_time,
                ),
    {
        let event_id = fresh_id();
        let event_time = current_time();
        let ghost e = event_id@;
        let r = self.revoke_at(credential_id, event_id, event_time);
        proof {
            assert(clock_reading(event_time) && revoke_outcome(
                old(self)@,
                self@,
                outcome(r),
                credential_id@,
                e,
                event_time,
            ));
        }
        r
    }

    /// Up to `limit` audit events, newest first, of the credential
    /// `credential_id` when one is given, else of every credential.
    pub fn audit_log(&self, credential_id: Option<&str>, limit: usize) -> (r: Result<
        Vec<AuditEvent>,
        VaultError,
    >)
        ensures
            r matches Ok(v) && v.deep_view() == newest_matching(
                self@.audit,
                match credential_id {
                    Some(id) => Some(id@),
                    None => None,
                },
                limit as nat,
            ),
    {
        let ghost filter = match credential_id {
            Some(id) => Some(id@),
            None => None::<Seq<char>>,
        };
        let key: Option<String> = match credential_id {
            Some(id) => Some(String::from_str(id)),
            None => None,
        };
        let mut out: Vec<AuditEvent> = Vec::new();
        let mut k: usize = self.audit_events.len();
        proof {
            assert(self@.audit.subrange(0, k as int) =~= self@.audit);
            assert(out.deep_view() + newest_matching(self@.audit.subrange(0, k as int), filter, limit as nat)
                =~= newest_matching(self@.audit, filter, limit as nat));
        }
        while k > 0 && out.len() < limit
            invariant
                k <= self.audit_events.len(),
                out.len() <= limit,
                key.deep_view() == filter,
                out.deep_view() + newest_matching(
                    self@.audit.subrange(0, k as int),
                    filter,
                    (limit - out.len()) as nat,
                ) == newest_matching(self@.audit, filter, limit as nat),
            decreases k,
        {
            let ghost prefix = self@.audit.subrange(0, k as int);
            let ghost before = out.deep_view();
            let e = &self.audit_events[k - 1];
            let matches = match &key {
                Some(id) => e.credential_id == *id,
                None => true,
            };
            proof {
                assert(prefix.last() == e@);
                assert(prefix.drop_last() =~= self@.audit.subrange(0, k - 1));
                assert(matches == event_matches(e@, filter));
            }
            if matches {
                out.push(e.clone());
                proof {
                    assert(out.deep_view() =~= before.push(e@));
                    assert(before.push(e@) + newest_matching(
                        self@.audit.subrange(0, k - 1),
                        filter,
                        (limit - out.len()) as nat,
                    ) =~= before + newest_matching(prefix, filter, (limit - before.len()) as nat));
                }
            }
            k = k - 1;
        }
        proof {
            let rest = newest_matching(self@.audit.subrange(0, k as int), filter, (limit - out.len()) as nat);
            assert(rest.len() == 0);
            assert(out.deep_view() =~= out.deep_view() + rest);
        }
        Ok(out)
    }
}

} // verus!

