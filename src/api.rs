//! The query and mutation roots: identities arrive as text and limits as
//! 32-bit integers; both are checked before the services are reached.

use vstd::prelude::*;
use crate::consent_manager::{
    active_now, checked_now, consent_unchanged, granted_now, revoked_now, ConsentError, ConsentManager,
};
use crate::consent_models::{AccessGrant, ConsentAuditLog, GrantAccessInput};
use crate::consent_repository::{
    by_time, grant_views, log_views, newest_for_user, newest_time_first, page, DEFAULT_AUDIT_LIMIT,
};
use crate::context_models::{ContextShard, CreateShardInput, UpdateShardInput};
use crate::context_repository::{
    create_outcome, delete_outcome, get_outcome, limit_or_default, read_outcome, search_outcome, update_outcome,
    ContextError,
};
use crate::context_service::ContextService;
use crate::memory_adapter::{opt_view, MemoryAdapter};
use crate::text::owned;

verus! {

/// The identity that the text `s` spells as a UUID, if it spells one.
pub uninterp spec fn uuid_of(s: Seq<char>) -> Option<u128>;

/// Relies on uuid::Uuid::parse_str: the identity a textual UUID denotes
/// (hyphenated, simple, braced or URN form), or `None` when `s` is not one.
#[verifier::external_body]
fn parse_uuid(s: &str) -> (r: Option<u128>)
    ensures
        r == uuid_of(s@),
{
    match uuid::Uuid::parse_str(s) {
        Ok(u) => Some(u.as_u128()),
        Err(_) => None,
    }
}

/// Why a request was refused or failed.
#[derive(Clone, Debug, PartialEq, Eq)]
pub enum ApiError {
    /// The text is not a UUID.
    InvalidId(String),
    /// A limit or offset is negative.
    InvalidLimit,
    Consent(ConsentError),
    Context(ContextError),
}

/// A limit or offset as given, when it is not negative.
pub open spec fn count_of(l: Option<i32>) -> Option<Option<usize>> {
    match l {
        None => Some(None),
        Some(n) => if n < 0 { None } else { Some(Some(n as usize)) },
    }
}

fn to_count(l: Option<i32>) -> (r: Result<Option<usize>, ApiError>)
    ensures
        match count_of(l) {
            Some(c) => r == Ok::<Option<usize>, ApiError>(c),
            None => r == Err::<Option<usize>, ApiError>(ApiError::InvalidLimit),
        },
{
    match l {
        None => Ok(None),
        Some(n) => if n < 0 {
            Err(ApiError::InvalidLimit)
        } else {
            Ok(Some(n as usize))
        },
    }
}

fn to_id(s: &str) -> (r: Result<u128, ApiError>)
    ensures
        match uuid_of(s@) {
            Some(u) => r == Ok::<u128, ApiError>(u),
            None => r matches Err(ApiError::InvalidId(t)) && t@ == s@,
        },
{
    match parse_uuid(s) {
        Some(u) => Ok(u),
        None => Err(ApiError::InvalidId(owned(s))),
    }
}

/// Read access to grants and the audit trail.
pub struct ConsentQuery;

impl ConsentQuery {
    /// The grants of `user_id` in force now.
    pub fn active_grants(&self, manager: &ConsentManager, user_id: &str) -> (r: Result<Vec<AccessGrant>, ApiError>)
        ensures
            match uuid_of(user_id@) {
                None => r is Err,
                Some(u) => r matches Ok(v) && active_now(manager.grants(), u, grant_views(v@)),
            },
    {
        let user = match to_id(user_id) {
            Ok(x) => x,
            Err(e) => return Err(e),
        };
        Ok(manager.get_active_grants(user))
    }

    /// Whether `client_id` may use `scope` on `domain` of `user_id`'s data.
    pub fn check_access(
        &self,
        manager: &mut ConsentManager,
        user_id: &str,
        client_id: &str,
        domain: &str,
        scope: &str,
    ) -> (r: Result<bool, ApiError>)
        ensures
            match uuid_of(user_id@) {
                None => r is Err && consent_unchanged(*old(manager), *final(manager)),
                Some(u) => match r {
                    Ok(b) => checked_now(*old(manager), *final(manager), u, client_id@, domain@, scope@, b),
                    Err(_) => false,
                },
            },
    {
        match to_id(user_id) {
            Ok(user) => Ok(manager.check_access(user, client_id, domain, scope)),
            Err(e) => Err(e),
        }
    }

    /// A page of `user_id`'s audit trail, newest first.
    pub fn audit_logs(
        &self,
        manager: &ConsentManager,
        user_id: &str,
        limit: Option<i32>,
        offset: Option<i32>,
    ) -> (r: Result<Vec<ConsentAuditLog>, ApiError>)
        ensures
            match (uuid_of(user_id@), count_of(limit), count_of(offset)) {
                (Some(u), Some(l), Some(o)) => r matches Ok(v) && newest_time_first(log_views(v@)) && log_views(v@) == page(
                    by_time(newest_for_user(manager.logs(), u)),
                    match o { Some(n) => n as nat, None => 0 },
                    match l { Some(n) => n as nat, None => DEFAULT_AUDIT_LIMIT as nat },
                ),
                _ => r is Err,
            },
    {
        let user = match to_id(user_id) {
            Ok(x) => x,
            Err(e) => return Err(e),
        };
        let limit = match to_count(limit) {
            Ok(x) => x,
            Err(e) => return Err(e),
        };
        let offset = match to_count(offset) {
            Ok(x) => x,
            Err(e) => return Err(e),
        };
        Ok(manager.get_audit_logs(user, limit, offset))
    }
}

/// Changes to grants.
pub struct ConsentMutation;

impl ConsentMutation {
    /// Grants a client access.
    pub fn grant_access(&self, manager: &mut ConsentManager, input: GrantAccessInput) -> (r: Result<AccessGrant, ApiError>)
        ensures
            match r {
                Ok(g) => granted_now(*old(manager), *final(manager), input, Ok::<AccessGrant, ConsentError>(g)),
                Err(ApiError::Consent(e)) => granted_now(*old(manager), *final(manager), input, Err::<AccessGrant, ConsentError>(e)),
                Err(_) => false,
            },
    {
        match manager.grant_access(input) {
            Ok(g) => Ok(g),
            Err(e) => Err(ApiError::Consent(e)),
        }
    }

    /// Revokes grant `grant_id` of `user_id`; `false` when it is not one of
    /// the user's grants in force.
    pub fn revoke_access(
        &self,
        manager: &mut ConsentManager,
        grant_id: &str,
        user_id: &str,
        client_id: &str,
    ) -> (r: Result<bool, ApiError>)
        ensures
            match (uuid_of(grant_id@), uuid_of(user_id@)) {
                (Some(g), Some(u)) => match r {
                    Ok(b) => revoked_now(*old(manager), *final(manager), g, u, client_id@, Ok::<bool, ConsentError>(b)),
                    Err(ApiError::Consent(e)) => revoked_now(*old(manager), *final(manager), g, u, client_id@, Err::<bool, ConsentError>(e)),
                    Err(_) => false,
                },
                _ => (r matches Err(ApiError::InvalidId(_))) && consent_unchanged(*old(manager), *final(manager)),
            },
    {
        match (to_id(grant_id), to_id(user_id)) {
            (Ok(grant), Ok(user)) => match manager.revoke_grant(grant, user, client_id) {
                Ok(b) => Ok(b),
                Err(e) => Err(ApiError::Consent(e)),
            },
            (Err(e), _) => Err(e),
            (_, Err(e)) => Err(e),
        }
    }
}

/// Read access to context units.
pub struct ContextQuery;

impl ContextQuery {
    /// The unit with identity `id`, if any.
    pub fn context_shard<A: MemoryAdapter>(&self, service: &ContextService<A>, id: &str) -> (r: Result<
        Option<ContextShard>,
        ApiError,
    >)
        requires
            service.wf(),
        ensures
            match uuid_of(id@) {
                None => r matches Err(ApiError::InvalidId(_)),
                Some(u) => match r {
                    Ok(o) => get_outcome(service.items(), u, Ok::<Option<ContextShard>, ContextError>(o)),
                    Err(ApiError::Context(e)) => get_outcome(service.items(), u, Err::<Option<ContextShard>, ContextError>(e)),
                    Err(_) => false,
                },
            },
    {
        let unit = match to_id(id) {
            Ok(x) => x,
            Err(e) => return Err(e),
        };
        match service.get_shard(unit) {
            Ok(o) => Ok(o),
            Err(e) => Err(ApiError::Context(e)),
        }
    }

    /// The unit with identity `id` and its plaintext content, if any.
    pub fn context_shard_with_content<A: MemoryAdapter>(&self, service: &mut ContextService<A>, id: &str) -> (r: Result<
        Option<(ContextShard, Vec<u8>)>,
        ApiError,
    >)
        requires
            old(service).wf(),
        ensures
            final(service).wf(),
            final(service).items() == old(service).items(),
            match uuid_of(id@) {
                None => r matches Err(ApiError::InvalidId(_)) && final(service).keys() == old(service).keys(),
                Some(u) => match r {
                    Ok(o) => read_outcome(old(service).items(), old(service).keys(), final(service).keys(), u, Ok(o)),
                    Err(ApiError::Context(e)) => read_outcome(
                        old(service).items(), old(service).keys(), final(service).keys(), u, Err(e)),
                    Err(_) => false,
                },
            },
    {
        let unit = match to_id(id) {
            Ok(x) => x,
            Err(e) => return Err(e),
        };
        match service.get_shard_with_content(unit) {
            Ok(o) => Ok(o),
            Err(e) => Err(ApiError::Context(e)),
        }
    }

    /// `user_id`'s units (in `domain` when given) that match `query`.
    pub fn search_shards<A: MemoryAdapter>(
        &self,
        service: &ContextService<A>,
        user_id: &str,
        query: &str,
        domain: Option<&str>,
        limit: Option<i32>,
    ) -> (r: Result<Vec<ContextShard>, ApiError>)
        requires
            service.wf(),
        ensures
            match (uuid_of(user_id@), count_of(limit)) {
                (Some(u), Some(l)) => match r {
                    Ok(v) => search_outcome(
                        service.items(),
                        service.listed(u, Some(query@), opt_view(domain), limit_or_default(l)),
                        u,
                        opt_view(domain),
                        l,
                        Ok::<Vec<ContextShard>, ContextError>(v),
                    ),
                    Err(ApiError::Context(e)) => e is Store,
                    Err(_) => false,
                },
                _ => r is Err,
            },
    {
        let user = match to_id(user_id) {
            Ok(x) => x,
            Err(e) => return Err(e),
        };
        let limit = match to_count(limit) {
            Ok(x) => x,
            Err(e) => return Err(e),
        };
        match service.search_shards(user, query, domain, limit) {
            Ok(v) => Ok(v),
            Err(e) => Err(ApiError::Context(e)),
        }
    }

    /// `user_id`'s units in `domain`.
    pub fn shards_by_domain<A: MemoryAdapter>(
        &self,
        service: &ContextService<A>,
        user_id: &str,
        domain: &str,
        limit: Option<i32>,
    ) -> (r: Result<Vec<ContextShard>, ApiError>)
        requires
            service.wf(),
        ensures
            match (uuid_of(user_id@), count_of(limit)) {
                (Some(u), Some(l)) => match r {
                    Ok(v) => search_outcome(
                        service.items(),
                        service.listed(u, None, Some(domain@), limit_or_default(l)),
                        u,
                        Some(domain@),
                        l,
                        Ok::<Vec<ContextShard>, ContextError>(v),
                    ),
                    Err(ApiError::Context(e)) => e is Store,
                    Err(_) => false,
                },
                _ => r is Err,
            },
    {
        let user = match to_id(user_id) {
            Ok(x) => x,
            Err(e) => return Err(e),
        };
        let limit = match to_count(limit) {
            Ok(x) => x,
            Err(e) => return Err(e),
        };
        match service.get_shards_by_domain(user, domain, limit) {
            Ok(v) => Ok(v),
            Err(e) => Err(ApiError::Context(e)),
        }
    }
}

/// Changes to context units.
pub struct ContextMutation;

impl ContextMutation {
    /// Creates a unit.
    pub fn create_shard<A: MemoryAdapter>(&self, service: &mut ContextService<A>, input: CreateShardInput) -> (r: Result<
        ContextShard,
        ApiError,
    >)
        requires
            old(service).wf(),
        ensures
            final(service).wf(),
            match r {
                Ok(s) => create_outcome(old(service).items(), final(service).items(), old(service).keys(),
                    final(service).keys(), input, Ok(s)),
                Err(ApiError::Context(e)) => create_outcome(old(service).items(), final(service).items(),
                    old(service).keys(), final(service).keys(), input, Err(e)),
                Err(_) => false,
            },
    {
        match service.create_shard(input) {
            Ok(s) => Ok(s),
            Err(e) => Err(ApiError::Context(e)),
        }
    }

    /// Applies `input` to the unit with identity `id`.
    pub fn update_shard<A: MemoryAdapter>(&self, service: &mut ContextService<A>, id: &str, input: UpdateShardInput) -> (r: Result<
        Option<ContextShard>,
        ApiError,
    >)
        requires
            old(service).wf(),
        ensures
            final(service).wf(),
            match uuid_of(id@) {
                None => r matches Err(ApiError::InvalidId(_)) && final(service).items() == old(service).items()
                    && final(service).keys() == old(service).keys(),
                Some(u) => match r {
                    Ok(o) => update_outcome(old(service).items(), final(service).items(), old(service).keys(),
                        final(service).keys(), u, input, Ok(o)),
                    Err(ApiError::Context(e)) => update_outcome(old(service).items(), final(service).items(),
                        old(service).keys(), final(service).keys(), u, input, Err(e)),
                    Err(_) => false,
                },
            },
    {
        let unit = match to_id(id) {
            Ok(x) => x,
            Err(e) => return Err(e),
        };
        match service.update_shard(unit, input) {
            Ok(o) => Ok(o),
            Err(e) => Err(ApiError::Context(e)),
        }
    }

    /// Removes the unit with identity `id`; `true` when there was one.
    pub fn delete_shard<A: MemoryAdapter>(&self, service: &mut ContextService<A>, id: &str) -> (r: Result<bool, ApiError>)
        requires
            old(service).wf(),
        ensures
            final(service).wf(),
            final(service).keys() == old(service).keys(),
            match uuid_of(id@) {
                None => r matches Err(ApiError::InvalidId(_)) && final(service).items() == old(service).items(),
                Some(u) => match r {
                    Ok(b) => delete_outcome(old(service).items(), final(service).items(), u, Ok(b)),
                    Err(ApiError::Context(e)) => delete_outcome(old(service).items(), final(service).items(), u, Err(e)),
                    Err(_) => false,
                },
            },
    {
        let unit = match to_id(id) {
            Ok(x) => x,
            Err(e) => return Err(e),
        };
        match service.delete_shard(unit) {
            Ok(b) => Ok(b),
            Err(e) => Err(ApiError::Context(e)),
        }
    }
}

/// The query root: context, then consent.
pub struct Query(pub ContextQuery, pub ConsentQuery);

/// The mutation root: context, then consent.
pub struct Mutation(pub ContextMutation, pub ConsentMutation);

} // verus!
