//! Named policies and the evaluator that decides consent actions.

use vstd::prelude::*;
use crate::text::{owned, str_eq};

verus! {

/// The consent action a policy is asked about.
#[derive(Clone, Debug)]
pub enum PolicyAction {
    Grant,
    Revoke,
    /// Any other action, by name.
    Other(String),
}

/// The structured input handed to a policy.
#[derive(Clone, Debug)]
pub struct PolicyInput {
    /// The user on whose data the action is taken, when known.
    pub user: Option<u128>,
    pub action: PolicyAction,
    pub client: Option<String>,
    /// The grant concerned, for a revocation.
    pub grant_id: Option<u128>,
    pub domains: Vec<String>,
    pub scopes: Vec<String>,
}

/// Why a policy could not be evaluated.
#[derive(Clone, Debug, PartialEq, Eq)]
pub enum PolicyError {
    /// No policy is registered under the name.
    PolicyNotFound(String),
}

/// The name of the policy that rules on consent actions.
pub open spec fn consent_name() -> Seq<char> {
    "consent"@
}

/// The consent rule: a grant needs a user; a revocation needs a user and a
/// grant; every other action is denied.
pub open spec fn consent_allows(input: PolicyInput) -> bool {
    match input.action {
        PolicyAction::Grant => input.user is Some,
        PolicyAction::Revoke => input.user is Some && input.grant_id is Some,
        PolicyAction::Other(_) => false,
    }
}

/// The decision of the registered policy `name` on `input`: only the
/// consent policy can allow anything.
pub open spec fn policy_decision(name: Seq<char>, input: PolicyInput) -> bool {
    name == consent_name() && consent_allows(input)
}

/// The policies registered by a sequence of (name, text) registrations; a
/// later registration under a name replaces an earlier one.
pub open spec fn registered(entries: Seq<(String, String)>) -> Map<Seq<char>, Seq<char>>
    decreases entries.len(),
{
    if entries.len() == 0 {
        Map::empty()
    } else {
        let last = entries.last();
        registered(entries.drop_last()).insert(last.0@, last.1@)
    }
}

proof fn lemma_registered_names(entries: Seq<(String, String)>, name: Seq<char>)
    ensures
        registered(entries).contains_key(name) <==> exists|i: int|
            0 <= i < entries.len() && (#[trigger] entries[i]).0@ == name,
    decreases entries.len(),
{
    if entries.len() > 0 {
        lemma_registered_names(entries.drop_last(), name);
        if registered(entries.drop_last()).contains_key(name) {
            let i = choose|i: int| 0 <= i < entries.drop_last().len()
                && (#[trigger] entries.drop_last()[i]).0@ == name;
            assert(entries[i] == entries.drop_last()[i]);
        }
        if exists|i: int| 0 <= i < entries.len() && (#[trigger] entries[i]).0@ == name {
            let i = choose|i: int| 0 <= i < entries.len() && (#[trigger] entries[i]).0@ == name;
            if i < entries.len() - 1 {
                assert(entries.drop_last()[i] == entries[i]);
            }
        }
    }
}

proof fn lemma_registered_replace(entries: Seq<(String, String)>, i: int, x: (String, String))
    requires
        0 <= i < entries.len(),
        entries[i].0@ == x.0@,
        forall|j: int| i < j < entries.len() ==> (#[trigger] entries[j]).0@ != x.0@,
    ensures
        registered(entries.update(i, x)) == registered(entries).insert(x.0@, x.1@),
    decreases entries.len(),
{
    let t = entries.update(i, x);
    if i == entries.len() - 1 {
        assert(t.drop_last() =~= entries.drop_last());
        assert(registered(t) =~= registered(entries).insert(x.0@, x.1@));
    } else {
        let last = entries.last();
        assert(t.drop_last() =~= entries.drop_last().update(i, x));
        assert(last.0@ != x.0@);
        lemma_registered_replace(entries.drop_last(), i, x);
        assert(t.last() == last);
        assert(registered(t) =~= registered(entries).insert(x.0@, x.1@));
    }
}

/// The text of the default consent policy.
pub const CONSENT_POLICY: &'static str = "package consent

# Allow users to grant access to their own data
allow {
    input.action == \"grant\"
    input.user != null
}

# Allow users to revoke their own grants
allow {
    input.action == \"revoke\"
    input.user != null
    input.grant_id != null
}

# Default deny
default allow = false
";

/// A registry of named policies with a built-in evaluator.
pub struct PolicyEngine {
    policies: Vec<(String, String)>,
}

impl PolicyEngine {
    /// The registered policies, by name.
    pub closed spec fn policies(&self) -> Map<Seq<char>, Seq<char>> {
        registered(self.policies@)
    }

    /// A policy engine holding the default consent policy.
    pub fn new() -> (r: PolicyEngine)
        ensures
            r.policies().dom() == set![consent_name()],
    {
        let mut policies: Vec<(String, String)> = Vec::new();
        policies.push((owned("consent"), owned(CONSENT_POLICY)));
        let r = PolicyEngine { policies };
        proof {
            assert(r.policies@.drop_last() =~= Seq::<(String, String)>::empty());
            reveal_with_fuel(registered, 2);
            assert(r.policies().dom() =~= set![consent_name()]);
        }
        r
    }

    /// Registers `policy` under `name`, replacing any policy of that name.
    pub fn update_policy(&mut self, name: &str, policy: &str)
        ensures
            final(self).policies() == old(self).policies().insert(name@, policy@),
    {
        let entry = (owned(name), owned(policy));
        let mut i: usize = self.policies.len();
        while i > 0
            invariant
                0 <= i <= self.policies@.len(),
                self.policies@ == old(self).policies@,
                entry.0@ == name@,
                entry.1@ == policy@,
                forall|j: int| i <= j < self.policies@.len() ==> (#[trigger] self.policies@[j]).0@ != name@,
            decreases i,
        {
            if str_eq(self.policies[i - 1].0.as_str(), name) {
                proof {
                    lemma_registered_replace(self.policies@, i - 1, entry);
                }
                self.policies.set(i - 1, entry);
                return;
            }
            i = i - 1;
        }
        self.policies.push(entry);
        proof {
            assert(self.policies@.drop_last() =~= old(self).policies@);
        }
    }

    /// Evaluates the policy `policy_name` on `input`.
    pub fn evaluate(&self, policy_name: &str, input: &PolicyInput) -> (r: Result<bool, PolicyError>)
        ensures
            self.policies().contains_key(policy_name@) ==> r == Ok::<bool, PolicyError>(
                policy_decision(policy_name@, *input),
            ),
            !self.policies().contains_key(policy_name@) ==> (r matches Err(
                PolicyError::PolicyNotFound(n),
            ) && n@ == policy_name@),
    {
        let mut found = false;
        let mut i: usize = 0;
        while i < self.policies.len()
            invariant
                0 <= i <= self.policies@.len(),
                found <==> exists|j: int| 0 <= j < i && (#[trigger] self.policies@[j]).0@ == policy_name@,
            decreases self.policies@.len() - i,
        {
            if str_eq(self.policies[i].0.as_str(), policy_name) {
                found = true;
            }
            i = i + 1;
        }
        proof {
            lemma_registered_names(self.policies@, policy_name@);
        }
        if !found {
            return Err(PolicyError::PolicyNotFound(owned(policy_name)));
        }
        if !str_eq(policy_name, "consent") {
            return Ok(false);
        }
        let allowed = match &input.action {
            PolicyAction::Grant => input.user.is_some(),
            PolicyAction::Revoke => input.user.is_some() && input.grant_id.is_some(),
            PolicyAction::Other(_) => false,
        };
        Ok(allowed)
    }
}

} // verus!
