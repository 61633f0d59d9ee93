//! Granting, revoking and checking access, each decision policy-gated and
//! audited.

use vstd::prelude::*;
use crate::consent_models::{
    AccessGrant, AccessGrantView, AuditAction, AuditDetails, AuditDetailsView, ConsentAuditLog,
    ConsentAuditLogView, CreateAuditLogInput, GrantAccessInput,
};
use crate::consent_repository::{
    access_granted, active_grants, grant_made, grant_views, has_grant, log_views, newest_for_user,
    by_time, newest_time_first,
    page, ConsentRepository, DEFAULT_AUDIT_LIMIT,
};
use crate::policy_engine::{consent_name, PolicyAction, PolicyEngine, PolicyError, PolicyInput};
use crate::runtime::now_micros;
use crate::text::{copy_strings, owned, strs};

verus! {

/// Why a consent action failed.
#[derive(Clone, Debug, PartialEq, Eq)]
pub enum ConsentError {
    /// The consent policy rejected the action.
    PolicyDenied,
    /// The policy to consult is not registered.
    PolicyNotFound(String),
}

/// `after` is `before` with one entry appended for `user` and `client`,
/// recording `action` with `details` at `now`.
pub open spec fn audited(
    before: Seq<ConsentAuditLogView>,
    after: Seq<ConsentAuditLogView>,
    user: u128,
    client: Seq<char>,
    action: AuditAction,
    details: AuditDetailsView,
    now: i64,
) -> bool {
    &&& after.len() == before.len() + 1
    &&& after.drop_last() == before
    &&& after.last().user_id == user
    &&& after.last().client_id == client
    &&& after.last().action == action
    &&& after.last().details == details
    &&& after.last().timestamp == now
}

/// The consent manager is as it was.
pub open spec fn consent_unchanged(before: ConsentManager, after: ConsentManager) -> bool {
    after.grants() == before.grants() && after.logs() == before.logs() && after.policies() == before.policies()
}

/// The first grant of `s` with identity `id`.
pub open spec fn first_with_id(s: Seq<AccessGrantView>, id: u128) -> AccessGrantView
    recommends
        has_grant(s, id),
{
    s[choose|i: int| 0 <= i < s.len() && s[i].id == id && forall|j: int| 0 <= j < i ==> #[trigger] s[j].id != id]
}

proof fn lemma_first_found(s: Seq<AccessGrantView>, idx: int, id: u128)
    requires
        0 <= idx < s.len(),
        s[idx].id == id,
        forall|j: int| 0 <= j < idx ==> (#[trigger] s[j]).id != id,
    ensures
        has_grant(s, id),
        first_with_id(s, id) == s[idx],
{
    let i = choose|i: int| 0 <= i < s.len() && s[i].id == id
        && forall|j: int| 0 <= j < i ==> #[trigger] s[j].id != id;
    if i < idx {
        assert(s[i].id != id);
    }
    if idx < i {
        assert(s[idx].id != id);
    }
}

proof fn lemma_active_in_ledger(grants: Seq<AccessGrantView>, user: u128, now: i64, idx: int)
    requires
        0 <= idx < active_grants(grants, user, now).len(),
    ensures
        has_grant(grants, active_grants(grants, user, now)[idx].id),
{
    let pred = |g: AccessGrantView| g.user_id == user && crate::consent_models::is_active(g, now);
    let active = grants.filter(pred);
    assert(active.contains(active[idx]));
    grants.lemma_filter_contains_rev(pred, active[idx]);
    assert(grants.contains(active[idx]));
    let k = choose|k: int| 0 <= k < grants.len() && grants[k] == active[idx];
    assert(grants[k].id == active[idx].id);
}

/// Orchestrates the grant ledger, the consent policy and the audit trail.
pub struct ConsentManager {
    repository: ConsentRepository,
    policy_engine: PolicyEngine,
}

/// What `grant_access` does, from `before` to `after`, at time `now`.
pub open spec fn grant_outcome(
    before: ConsentManager,
    after: ConsentManager,
    input: GrantAccessInput,
    now: i64,
    r: Result<AccessGrant, ConsentError>,
) -> bool {
    &&& after.policies() == before.policies()
    &&& if before.policies().contains_key(consent_name()) {
        &&& r is Ok
        &&& grant_made(r->Ok_0@, input, now)
        &&& after.grants() == before.grants().push(r->Ok_0@)
        &&& audited(
            before.logs(),
            after.logs(),
            input.user_id,
            input.client_id@,
            AuditAction::Grant,
            AuditDetailsView::Grant {
                grant_id: r->Ok_0.id,
                scopes: strs(input.scopes@),
                domains: strs(input.context_domains@),
                expires_at: input.expires_at,
            },
            now,
        )
    } else {
        &&& r matches Err(ConsentError::PolicyNotFound(n)) && n@ == consent_name()
        &&& after.grants() == before.grants()
        &&& after.logs() == before.logs()
    }
}

/// What `revoke_grant` does, from `before` to `after`, at time `now`.
pub open spec fn revoke_outcome(
    before: ConsentManager,
    after: ConsentManager,
    grant_id: u128,
    user: u128,
    client: Seq<char>,
    now: i64,
    r: Result<bool, ConsentError>,
) -> bool {
    let active = active_grants(before.grants(), user, now);
    &&& after.policies() == before.policies()
    &&& if !has_grant(active, grant_id) {
        &&& r == Ok::<bool, ConsentError>(false)
        &&& after.grants() == before.grants()
        &&& after.logs() == before.logs()
    } else if !before.policies().contains_key(consent_name()) {
        &&& r matches Err(ConsentError::PolicyNotFound(n)) && n@ == consent_name()
        &&& after.grants() == before.grants()
        &&& after.logs() == before.logs()
    } else {
        let g = first_with_id(active, grant_id);
        &&& r == Ok::<bool, ConsentError>(true)
        &&& after.grants() == before.grants().filter(|x: AccessGrantView| x.id != grant_id)
        &&& audited(
            before.logs(),
            after.logs(),
            user,
            client,
            AuditAction::Revoke,
            AuditDetailsView::Revoke { grant_id, scopes: g.scopes, domains: g.context_domains },
            now,
        )
    }
}

/// What `check_access` does, from `before` to `after`, at time `now`.
pub open spec fn check_outcome(
    before: ConsentManager,
    after: ConsentManager,
    user: u128,
    client: Seq<char>,
    domain: Seq<char>,
    scope: Seq<char>,
    now: i64,
    r: bool,
) -> bool {
    &&& r == access_granted(before.grants(), user, client, domain, scope, now)
    &&& after.grants() == before.grants()
    &&& after.policies() == before.policies()
    &&& if r {
        audited(
            before.logs(),
            after.logs(),
            user,
            client,
            AuditAction::Access,
            AuditDetailsView::Access { domain, scope, success: true },
            now,
        )
    } else {
        after.logs() == before.logs()
    }
}

/// `grant_access` did, at some time, what `grant_outcome` describes.
pub open spec fn granted_now(
    before: ConsentManager,
    after: ConsentManager,
    input: GrantAccessInput,
    r: Result<AccessGrant, ConsentError>,
) -> bool {
    exists|now: i64| #[trigger] grant_outcome(before, after, input, now, r)
}

/// `revoke_grant` did, at some time, what `revoke_outcome` describes.
pub open spec fn revoked_now(
    before: ConsentManager,
    after: ConsentManager,
    grant_id: u128,
    user: u128,
    client: Seq<char>,
    r: Result<bool, ConsentError>,
) -> bool {
    exists|now: i64| #[trigger] revoke_outcome(before, after, grant_id, user, client, now, r)
}

/// `check_access` did, at some time, what `check_outcome` describes.
pub open spec fn checked_now(
    before: ConsentManager,
    after: ConsentManager,
    user: u128,
    client: Seq<char>,
    domain: Seq<char>,
    scope: Seq<char>,
    r: bool,
) -> bool {
    exists|now: i64| #[trigger] check_outcome(before, after, user, client, domain, scope, now, r)
}

/// `r` are the grants of `user` in force at some time.
pub open spec fn active_now(grants: Seq<AccessGrantView>, user: u128, r: Seq<AccessGrantView>) -> bool {
    exists|now: i64| r == #[trigger] active_grants(grants, user, now)
}

impl ConsentManager {
    /// The grants in the ledger, in the order they were made.
    pub closed spec fn grants(&self) -> Seq<AccessGrantView> {
        self.repository.grants()
    }

    /// The audit trail, oldest first.
    pub closed spec fn logs(&self) -> Seq<ConsentAuditLogView> {
        self.repository.logs()
    }

    /// The policies consulted, by name.
    pub closed spec fn policies(&self) -> Map<Seq<char>, Seq<char>> {
        self.policy_engine.policies()
    }

    /// A consent manager with an empty ledger and trail.
    pub fn new(policy_engine: PolicyEngine) -> (r: ConsentManager)
        ensures
            r.grants() == Seq::<AccessGrantView>::empty(),
            r.logs() == Seq::<ConsentAuditLogView>::empty(),
            r.policies() == policy_engine.policies(),
    {
        ConsentManager { repository: ConsentRepository::new(), policy_engine }
    }

    /// Asks the consent policy about an action.
    fn consult(&self, input: &PolicyInput) -> (r: Result<bool, ConsentError>)
        ensures
            self.policies().contains_key(consent_name()) ==> r == Ok::<bool, ConsentError>(
                crate::policy_engine::consent_allows(*input),
            ),
            !self.policies().contains_key(consent_name()) ==> (r matches Err(
                ConsentError::PolicyNotFound(n),
            ) && n@ == consent_name()),
    {
        match self.policy_engine.evaluate("consent", input) {
            Ok(allowed) => Ok(allowed),
            Err(PolicyError::PolicyNotFound(n)) => Err(ConsentError::PolicyNotFound(n)),
        }
    }

    /// Grants a client access at time `now`, once the consent policy allows
    /// it, and records the grant in the audit trail.
    pub fn grant_access_at(&mut self, input: GrantAccessInput, now: i64) -> (r: Result<AccessGrant, ConsentError>)
        ensures
            grant_outcome(*old(self), *final(self), input, now, r),
    {
        let policy_input = PolicyInput {
            user: Some(input.user_id),
            action: PolicyAction::Grant,
            client: Some(input.client_id.clone()),
            grant_id: None,
            domains: copy_strings(&input.context_domains),
            scopes: copy_strings(&input.scopes),
        };
        let allowed = self.consult(&policy_input)?;
        if !allowed {
            return Err(ConsentError::PolicyDenied);
        }
        let grant = self.repository.create_grant(&input, now);
        let audit_input = CreateAuditLogInput {
            user_id: input.user_id,
            client_id: input.client_id.clone(),
            action: AuditAction::Grant,
            details: AuditDetails::Grant {
                grant_id: grant.id,
                scopes: copy_strings(&input.scopes),
                domains: copy_strings(&input.context_domains),
                expires_at: input.expires_at,
            },
        };
        let ghost logs_before = self.repository.logs();
        let _log = self.repository.create_audit_log(audit_input, now);
        proof {
            assert(self.repository.logs().drop_last() =~= logs_before);
        }
        Ok(grant)
    }

    /// Grants a client access now; see `grant_access_at`.
    pub fn grant_access(&mut self, input: GrantAccessInput) -> (r: Result<AccessGrant, ConsentError>)
        ensures
            granted_now(*old(self), *final(self), input, r),
    {
        let now = now_micros();
        self.grant_access_at(input, now)
    }

    /// The grants of `user` in force at `now`.
    pub fn get_active_grants_at(&self, user_id: u128, now: i64) -> (r: Vec<AccessGrant>)
        ensures
            grant_views(r@) == active_grants(self.grants(), user_id, now),
    {
        self.repository.get_active_grants(user_id, now)
    }

    /// The grants of `user` in force now.
    pub fn get_active_grants(&self, user_id: u128) -> (r: Vec<AccessGrant>)
        ensures
            active_now(self.grants(), user_id, grant_views(r@)),
    {
        let now = now_micros();
        self.get_active_grants_at(user_id, now)
    }

    /// Revokes grant `grant_id` of `user` at time `now`. A grant that is not
    /// among the user's grants in force is left alone and `false` returned;
    /// otherwise the consent policy is consulted, the grant removed and the
    /// revocation audited.
    pub fn revoke_grant_at(&mut self, grant_id: u128, user_id: u128, client_id: &str, now: i64) -> (r: Result<
        bool,
        ConsentError,
    >)
        ensures
            revoke_outcome(*old(self), *final(self), grant_id, user_id, client_id@, now, r),
    {
        let grants = self.repository.get_active_grants(user_id, now);
        let ghost active = active_grants(self.grants(), user_id, now);
        let mut idx: usize = 0;
        while idx < grants.len() && grants[idx].id != grant_id
            invariant
                0 <= idx <= grants@.len(),
                grant_views(grants@) == active,
                forall|j: int| 0 <= j < idx ==> (#[trigger] active[j]).id != grant_id,
            decreases grants@.len() - idx,
        {
            idx = idx + 1;
        }
        if idx == grants.len() {
            proof {
                if has_grant(active, grant_id) {
                    let j = choose|j: int| 0 <= j < active.len() && (#[trigger] active[j]).id == grant_id;
                    assert(active[j].id != grant_id);
                }
            }
            return Ok(false);
        }
        let grant = &grants[idx];
        proof {
            assert(active[idx as int] == grant@);
            lemma_first_found(active, idx as int, grant_id);
            lemma_active_in_ledger(self.grants(), user_id, now, idx as int);
        }
        let policy_input = PolicyInput {
            user: Some(user_id),
            action: PolicyAction::Revoke,
            client: Some(owned(client_id)),
            grant_id: Some(grant_id),
            domains: Vec::new(),
            scopes: Vec::new(),
        };
        let allowed = self.consult(&policy_input)?;
        if !allowed {
            return Err(ConsentError::PolicyDenied);
        }
        let removed = self.repository.revoke_grant(grant_id);
        if removed {
            let audit_input = CreateAuditLogInput {
                user_id,
                client_id: owned(client_id),
                action: AuditAction::Revoke,
                details: AuditDetails::Revoke {
                    grant_id,
                    scopes: copy_strings(&grant.scopes),
                    domains: copy_strings(&grant.context_domains),
                },
            };
            let ghost logs_before = self.repository.logs();
            let _log = self.repository.create_audit_log(audit_input, now);
            proof {
                assert(self.repository.logs().drop_last() =~= logs_before);
            }
        }
        Ok(removed)
    }

    /// Revokes grant `grant_id` of `user` now; see `revoke_grant_at`.
    pub fn revoke_grant(&mut self, grant_id: u128, user_id: u128, client_id: &str) -> (r: Result<bool, ConsentError>)
        ensures
            revoked_now(*old(self), *final(self), grant_id, user_id, client_id@, r),
    {
        let now = now_micros();
        self.revoke_grant_at(grant_id, user_id, client_id, now)
    }

    /// Whether `client_id` may use `required_scope` on `domain` of `user`'s
    /// data at time `now`; a granted access is audited.
    pub fn check_access_at(
        &mut self,
        user_id: u128,
        client_id: &str,
        domain: &str,
        required_scope: &str,
        now: i64,
    ) -> (r: bool)
        ensures
            check_outcome(*old(self), *final(self), user_id, client_id@, domain@, required_scope@, now, r),
    {
        let has_access = self.repository.check_access(user_id, client_id, domain, required_scope, now);
        if has_access {
            let audit_input = CreateAuditLogInput {
                user_id,
                client_id: owned(client_id),
                action: AuditAction::Access,
                details: AuditDetails::Access {
                    domain: owned(domain),
                    scope: owned(required_scope),
                    success: true,
                },
            };
            let ghost logs_before = self.repository.logs();
            let _log = self.repository.create_audit_log(audit_input, now);
            proof {
                assert(self.repository.logs().drop_last() =~= logs_before);
            }
        }
        has_access
    }

    /// Whether `client_id` may use `required_scope` on `domain` of `user`'s
    /// data now; see `check_access_at`.
    pub fn check_access(&mut self, user_id: u128, client_id: &str, domain: &str, required_scope: &str) -> (r: bool)
        ensures
            checked_now(*old(self), *final(self), user_id, client_id@, domain@, required_scope@, r),
    {
        let now = now_micros();
        self.check_access_at(user_id, client_id, domain, required_scope, now)
    }

    /// The audit entries of `user`, most recent time first (entries of
    /// equal time newest first): `limit` of them (50 when not given) after
    /// skipping `offset` (none when not given).
    pub fn get_audit_logs(&self, user_id: u128, limit: Option<usize>, offset: Option<usize>) -> (r: Vec<
        ConsentAuditLog,
    >)
        ensures
            newest_time_first(log_views(r@)),
            log_views(r@) == page(
                by_time(newest_for_user(self.logs(), user_id)),
                match offset { Some(o) => o as nat, None => 0 },
                match limit { Some(l) => l as nat, None => DEFAULT_AUDIT_LIMIT as nat },
            ),
    {
        self.repository.get_audit_logs(user_id, limit, offset)
    }
}

} // verus!
