//! Access grants and the audit entries that consent decisions leave.

use vstd::prelude::*;
use crate::text::{copy_strings, strs};

verus! {

/// A client's access to some of a user's domains, with some scopes, until
/// an optional expiry. Times are microseconds since the Unix epoch.
#[derive(Clone, Debug)]
pub struct AccessGrant {
    pub id: u128,
    /// The user who granted access.
    pub user_id: u128,
    /// The client that received access.
    pub client_id: String,
    /// Capabilities granted, such as "read" or "write".
    pub scopes: Vec<String>,
    /// The domains the grant applies to.
    pub context_domains: Vec<String>,
    pub expires_at: Option<i64>,
    pub created_at: i64,
}

/// An access grant as plain values.
pub struct AccessGrantView {
    pub id: u128,
    pub user_id: u128,
    pub client_id: Seq<char>,
    pub scopes: Seq<Seq<char>>,
    pub context_domains: Seq<Seq<char>>,
    pub expires_at: Option<i64>,
    pub created_at: i64,
}

impl View for AccessGrant {
    type V = AccessGrantView;

    open spec fn view(&self) -> AccessGrantView {
        AccessGrantView {
            id: self.id,
            user_id: self.user_id,
            client_id: self.client_id@,
            scopes: strs(self.scopes@),
            context_domains: strs(self.context_domains@),
            expires_at: self.expires_at,
            created_at: self.created_at,
        }
    }
}

impl AccessGrant {
    /// A copy of this grant.
    pub fn copy(&self) -> (r: AccessGrant)
        ensures
            r@ == self@,
    {
        AccessGrant {
            id: self.id,
            user_id: self.user_id,
            client_id: self.client_id.clone(),
            scopes: copy_strings(&self.scopes),
            context_domains: copy_strings(&self.context_domains),
            expires_at: self.expires_at,
            created_at: self.created_at,
        }
    }
}

/// What a user asks for when granting a client access.
#[derive(Clone, Debug)]
pub struct GrantAccessInput {
    pub user_id: u128,
    pub client_id: String,
    pub scopes: Vec<String>,
    pub context_domains: Vec<String>,
    pub expires_at: Option<i64>,
}

/// The kind of consent-relevant action an audit entry records.
#[derive(Clone, Copy, Debug, PartialEq, Eq, Structural)]
pub enum AuditAction {
    Grant,
    Revoke,
    Access,
}

impl AuditAction {
    /// The name under which the action is recorded.
    pub fn as_str(&self) -> (r: &'static str)
        ensures
            r@ == match self {
                AuditAction::Grant => "grant"@,
                AuditAction::Revoke => "revoke"@,
                AuditAction::Access => "access"@,
            },
    {
        match self {
            AuditAction::Grant => "grant",
            AuditAction::Revoke => "revoke",
            AuditAction::Access => "access",
        }
    }
}

/// The parameters and outcome of an audited decision.
#[derive(Clone, Debug)]
pub enum AuditDetails {
    Grant { grant_id: u128, scopes: Vec<String>, domains: Vec<String>, expires_at: Option<i64> },
    Revoke { grant_id: u128, scopes: Vec<String>, domains: Vec<String> },
    Access { domain: String, scope: String, success: bool },
}

/// Audit details as plain values.
pub enum AuditDetailsView {
    Grant {
        grant_id: u128,
        scopes: Seq<Seq<char>>,
        domains: Seq<Seq<char>>,
        expires_at: Option<i64>,
    },
    Revoke { grant_id: u128, scopes: Seq<Seq<char>>, domains: Seq<Seq<char>> },
    Access { domain: Seq<char>, scope: Seq<char>, success: bool },
}

impl View for AuditDetails {
    type V = AuditDetailsView;

    open spec fn view(&self) -> AuditDetailsView {
        match self {
            AuditDetails::Grant { grant_id, scopes, domains, expires_at } => AuditDetailsView::Grant {
                grant_id: *grant_id,
                scopes: strs(scopes@),
                domains: strs(domains@),
                expires_at: *expires_at,
            },
            AuditDetails::Revoke { grant_id, scopes, domains } => AuditDetailsView::Revoke {
                grant_id: *grant_id,
                scopes: strs(scopes@),
                domains: strs(domains@),
            },
            AuditDetails::Access { domain, scope, success } => AuditDetailsView::Access {
                domain: domain@,
                scope: scope@,
                success: *success,
            },
        }
    }
}

impl AuditDetails {
    /// A copy of these details.
    pub fn copy(&self) -> (r: AuditDetails)
        ensures
            r@ == self@,
    {
        match self {
            AuditDetails::Grant { grant_id, scopes, domains, expires_at } => AuditDetails::Grant {
                grant_id: *grant_id,
                scopes: copy_strings(scopes),
                domains: copy_strings(domains),
                expires_at: *expires_at,
            },
            AuditDetails::Revoke { grant_id, scopes, domains } => AuditDetails::Revoke {
                grant_id: *grant_id,
                scopes: copy_strings(scopes),
                domains: copy_strings(domains),
            },
            AuditDetails::Access { domain, scope, success } => AuditDetails::Access {
                domain: domain.clone(),
                scope: scope.clone(),
                success: *success,
            },
        }
    }
}

/// One entry of the append-only audit trail.
#[derive(Clone, Debug)]
pub struct ConsentAuditLog {
    pub id: u128,
    /// The user who owns the data.
    pub user_id: u128,
    /// The client involved.
    pub client_id: String,
    pub action: AuditAction,
    pub details: AuditDetails,
    pub timestamp: i64,
}

/// An audit entry as plain values.
pub struct ConsentAuditLogView {
    pub id: u128,
    pub user_id: u128,
    pub client_id: Seq<char>,
    pub action: AuditAction,
    pub details: AuditDetailsView,
    pub timestamp: i64,
}

impl View for ConsentAuditLog {
    type V = ConsentAuditLogView;

    open spec fn view(&self) -> ConsentAuditLogView {
        ConsentAuditLogView {
            id: self.id,
            user_id: self.user_id,
            client_id: self.client_id@,
            action: self.action,
            details: self.details@,
            timestamp: self.timestamp,
        }
    }
}

impl ConsentAuditLog {
    /// A copy of this entry.
    pub fn copy(&self) -> (r: ConsentAuditLog)
        ensures
            r@ == self@,
    {
        ConsentAuditLog {
            id: self.id,
            user_id: self.user_id,
            client_id: self.client_id.clone(),
            action: self.action,
            details: self.details.copy(),
            timestamp: self.timestamp,
        }
    }
}

/// What an audit entry records, before it is given an identity and a time.
#[derive(Clone, Debug)]
pub struct CreateAuditLogInput {
    pub user_id: u128,
    pub client_id: String,
    pub action: AuditAction,
    pub details: AuditDetails,
}

/// Whether grant `g` is still in force at time `now`.
pub open spec fn is_active(g: AccessGrantView, now: i64) -> bool {
    match g.expires_at {
        None => true,
        Some(t) => now < t,
    }
}

/// Whether grant `g` lets `client` use `scope` on `domain` of `user`'s data
/// at time `now`.
pub open spec fn permits(
    g: AccessGrantView,
    user: u128,
    client: Seq<char>,
    domain: Seq<char>,
    scope: Seq<char>,
    now: i64,
) -> bool {
    &&& g.user_id == user
    &&& g.client_id == client
    &&& g.context_domains.contains(domain)
    &&& g.scopes.contains(scope)
    &&& is_active(g, now)
}

} // verus!
