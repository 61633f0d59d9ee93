//! The ledger of access grants and the audit trail, held as rows.

use vstd::prelude::*;
use crate::consent_models::{
    is_active, permits, AccessGrant, AccessGrantView, ConsentAuditLog, ConsentAuditLogView,
    CreateAuditLogInput, GrantAccessInput,
};
use crate::runtime::new_id;
use crate::text::{copy_strings, list_contains, strs};

verus! {

/// The views of a sequence of grants.
pub open spec fn grant_views(s: Seq<AccessGrant>) -> Seq<AccessGrantView> {
    s.map_values(|g: AccessGrant| g@)
}

/// The views of a sequence of audit entries.
pub open spec fn log_views(s: Seq<ConsentAuditLog>) -> Seq<ConsentAuditLogView> {
    s.map_values(|l: ConsentAuditLog| l@)
}

/// The grants of `user` that are in force at `now`, in ledger order.
pub open spec fn active_grants(grants: Seq<AccessGrantView>, user: u128, now: i64) -> Seq<AccessGrantView> {
    grants.filter(|g: AccessGrantView| g.user_id == user && is_active(g, now))
}

/// Whether some grant lets `client` use `scope` on `domain` of `user`'s data at `now`.
pub open spec fn access_granted(
    grants: Seq<AccessGrantView>,
    user: u128,
    client: Seq<char>,
    domain: Seq<char>,
    scope: Seq<char>,
    now: i64,
) -> bool {
    exists|i: int| 0 <= i < grants.len() && permits(#[trigger] grants[i], user, client, domain, scope, now)
}

/// Whether a grant with identity `id` is among `grants`.
pub open spec fn has_grant(grants: Seq<AccessGrantView>, id: u128) -> bool {
    exists|i: int| 0 <= i < grants.len() && (#[trigger] grants[i]).id == id
}

/// The entries of `user`, newest first.
pub open spec fn newest_for_user(logs: Seq<ConsentAuditLogView>, user: u128) -> Seq<ConsentAuditLogView>
    decreases logs.len(),
{
    if logs.len() == 0 {
        Seq::empty()
    } else {
        let rest = newest_for_user(logs.drop_first(), user);
        if logs[0].user_id == user {
            rest.push(logs[0])
        } else {
            rest
        }
    }
}

/// `s` with `x` placed after every entry at least as recent as `x`.
pub open spec fn insert_by_time(s: Seq<ConsentAuditLogView>, x: ConsentAuditLogView) -> Seq<ConsentAuditLogView>
    decreases s.len(),
{
    if s.len() == 0 {
        seq![x]
    } else if s[0].timestamp >= x.timestamp {
        seq![s[0]] + insert_by_time(s.drop_first(), x)
    } else {
        seq![x] + s
    }
}

/// `s` ordered by time, most recent first; entries of equal time keep
/// their order in `s`.
pub open spec fn by_time(s: Seq<ConsentAuditLogView>) -> Seq<ConsentAuditLogView>
    decreases s.len(),
{
    if s.len() == 0 {
        s
    } else {
        insert_by_time(by_time(s.drop_last()), s.last())
    }
}

/// Times never increase along `s`.
pub open spec fn newest_time_first(s: Seq<ConsentAuditLogView>) -> bool {
    forall|i: int, j: int| 0 <= i < j < s.len() ==> s[i].timestamp >= s[j].timestamp
}

proof fn lemma_insert_at(s: Seq<ConsentAuditLogView>, x: ConsentAuditLogView, p: int)
    requires
        0 <= p <= s.len(),
        forall|j: int| 0 <= j < p ==> (#[trigger] s[j]).timestamp >= x.timestamp,
        p == s.len() || s[p].timestamp < x.timestamp,
    ensures
        insert_by_time(s, x) == s.insert(p, x),
    decreases p,
{
    if p == 0 {
        if s.len() > 0 {
            assert(seq![x] + s =~= s.insert(0, x));
        } else {
            assert(seq![x] =~= s.insert(0, x));
        }
    } else {
        let t = s.drop_first();
        assert forall|j: int| 0 <= j < p - 1 implies (#[trigger] t[j]).timestamp >= x.timestamp by {
            assert(t[j] == s[j + 1]);
        }
        if p < s.len() {
            assert(t[p - 1] == s[p]);
        }
        lemma_insert_at(t, x, p - 1);
        assert(seq![s[0]] + t.insert(p - 1, x) =~= s.insert(p, x));
    }
}

proof fn lemma_insert_keeps_order(s: Seq<ConsentAuditLogView>, x: ConsentAuditLogView)
    requires
        newest_time_first(s),
    ensures
        newest_time_first(insert_by_time(s, x)),
        insert_by_time(s, x).len() == s.len() + 1,
    decreases s.len(),
{
    if s.len() > 0 {
        let t = s.drop_first();
        assert(newest_time_first(t)) by {
            assert forall|i: int, j: int| 0 <= i < j < t.len() implies t[i].timestamp >= t[j].timestamp by {
                assert(t[i] == s[i + 1] && t[j] == s[j + 1]);
            }
        }
        lemma_insert_keeps_order(t, x);
        if s[0].timestamp >= x.timestamp {
            let rest = insert_by_time(t, x);
            let r = seq![s[0]] + rest;
            assert forall|k: int| 0 <= k < rest.len() implies s[0].timestamp >= (#[trigger] rest[k]).timestamp by {
                lemma_insert_members(t, x, k);
                if rest[k] != x {
                    let m = choose|m: int| 0 <= m < t.len() && t[m] == rest[k];
                    assert(t[m] == s[m + 1]);
                }
            }
            assert forall|i: int, j: int| 0 <= i < j < r.len() implies r[i].timestamp >= r[j].timestamp by {
                if i > 0 {
                    assert(r[i] == rest[i - 1] && r[j] == rest[j - 1]);
                } else {
                    assert(r[j] == rest[j - 1]);
                }
            }
        } else {
            let r = seq![x] + s;
            assert forall|i: int, j: int| 0 <= i < j < r.len() implies r[i].timestamp >= r[j].timestamp by {
                if i > 0 {
                    assert(r[i] == s[i - 1] && r[j] == s[j - 1]);
                } else {
                    assert(r[j] == s[j - 1]);
                    if j - 1 > 0 {
                        assert(s[0].timestamp >= s[j - 1].timestamp);
                    }
                }
            }
        }
    }
}

proof fn lemma_insert_members(s: Seq<ConsentAuditLogView>, x: ConsentAuditLogView, k: int)
    requires
        0 <= k < insert_by_time(s, x).len(),
    ensures
        insert_by_time(s, x).len() == s.len() + 1,
        insert_by_time(s, x)[k] == x || exists|m: int| 0 <= m < s.len() && s[m] == insert_by_time(s, x)[k],
    decreases s.len(),
{
    let r = insert_by_time(s, x);
    if s.len() > 0 {
        let t = s.drop_first();
        if s[0].timestamp >= x.timestamp {
            lemma_insert_members(t, x, 0);
            if k == 0 {
                assert(s[0] == r[0]);
            } else {
                lemma_insert_members(t, x, k - 1);
                let rest = insert_by_time(t, x);
                assert(r[k] == rest[k - 1]);
                if rest[k - 1] != x {
                    let m = choose|m: int| 0 <= m < t.len() && t[m] == rest[k - 1];
                    assert(s[m + 1] == r[k]);
                }
            }
        } else if k > 0 {
            assert(r[k] == s[k - 1]);
        }
    }
}

proof fn lemma_by_time_ordered(s: Seq<ConsentAuditLogView>)
    ensures
        newest_time_first(by_time(s)),
        by_time(s).len() == s.len(),
    decreases s.len(),
{
    if s.len() > 0 {
        lemma_by_time_ordered(s.drop_last());
        lemma_insert_keeps_order(by_time(s.drop_last()), s.last());
    }
}

/// The page of `s` that skips `offset` items and holds at most `limit`.
pub open spec fn page<A>(s: Seq<A>, offset: nat, limit: nat) -> Seq<A> {
    let start = if offset < s.len() { offset } else { s.len() };
    let end = if start + limit < s.len() { start + limit } else { s.len() };
    s.subrange(start as int, end as int)
}

/// How many entries a page of the audit trail holds when no limit is given.
pub const DEFAULT_AUDIT_LIMIT: usize = 50;

/// `g` records `input`, created at `now`.
pub open spec fn grant_made(g: AccessGrantView, input: GrantAccessInput, now: i64) -> bool {
    &&& g.user_id == input.user_id
    &&& g.client_id == input.client_id@
    &&& g.scopes == strs(input.scopes@)
    &&& g.context_domains == strs(input.context_domains@)
    &&& g.expires_at == input.expires_at
    &&& g.created_at == now
}

/// `l` records `input`, written at `now`.
pub open spec fn log_made(l: ConsentAuditLogView, input: CreateAuditLogInput, now: i64) -> bool {
    &&& l.user_id == input.user_id
    &&& l.client_id == input.client_id@
    &&& l.action == input.action
    &&& l.details == input.details@
    &&& l.timestamp == now
}

proof fn lemma_filter_step<A>(s: Seq<A>, pred: spec_fn(A) -> bool, i: int)
    requires
        0 <= i < s.len(),
    ensures
        s.subrange(0, i + 1).filter(pred) == if pred(s[i]) {
            s.subrange(0, i).filter(pred).push(s[i])
        } else {
            s.subrange(0, i).filter(pred)
        },
{
    reveal(Seq::filter);
    assert(s.subrange(0, i + 1).drop_last() =~= s.subrange(0, i));
}

/// A grant whose expiry is not after `now` is out of force: it is not among
/// any user's active grants at `now` and lets no client use any scope on any
/// domain, though it stays a row of the ledger until revoked.
pub proof fn lemma_expired_grant_inert(
    grants: Seq<AccessGrantView>,
    g: AccessGrantView,
    now: i64,
    user: u128,
    client: Seq<char>,
    domain: Seq<char>,
    scope: Seq<char>,
)
    requires
        g.expires_at matches Some(t) && t <= now,
    ensures
        !active_grants(grants, user, now).contains(g),
        !permits(g, user, client, domain, scope, now),
        access_granted(grants, user, client, domain, scope, now) == access_granted(
            grants.filter(|x: AccessGrantView| is_active(x, now)), user, client, domain, scope, now),
{
    let pred = |x: AccessGrantView| x.user_id == user && is_active(x, now);
    grants.filter_lemma(pred);
    let live = |x: AccessGrantView| is_active(x, now);
    let kept = grants.filter(live);
    grants.filter_lemma(live);
    if access_granted(grants, user, client, domain, scope, now) {
        let i = choose|i: int| 0 <= i < grants.len() && permits(#[trigger] grants[i], user, client, domain, scope, now);
        assert(kept.contains(grants[i]));
        let j = choose|j: int| 0 <= j < kept.len() && kept[j] == grants[i];
        assert(permits(kept[j], user, client, domain, scope, now));
    }
    if access_granted(kept, user, client, domain, scope, now) {
        let j = choose|j: int| 0 <= j < kept.len() && permits(#[trigger] kept[j], user, client, domain, scope, now);
        grants.lemma_filter_contains_rev(live, kept[j]);
        let i = choose|i: int| 0 <= i < grants.len() && grants[i] == kept[j];
        assert(permits(grants[i], user, client, domain, scope, now));
    }
}

/// `entries` ordered by time, most recent first, keeping the order of
/// entries of equal time.
fn order_by_time(entries: &Vec<ConsentAuditLog>) -> (r: Vec<ConsentAuditLog>)
    ensures
        log_views(r@) == by_time(log_views(entries@)),
{
    let ghost all = log_views(entries@);
    let mut sorted: Vec<ConsentAuditLog> = Vec::new();
    let mut k: usize = 0;
    assert(all.subrange(0, 0) =~= Seq::<ConsentAuditLogView>::empty());
    assert(log_views(sorted@) =~= Seq::<ConsentAuditLogView>::empty());
    while k < entries.len()
        invariant
            0 <= k <= entries@.len(),
            all == log_views(entries@),
            log_views(sorted@) == by_time(all.subrange(0, k as int)),
        decreases entries@.len() - k,
    {
        let x = entries[k].copy();
        let ghost sv = log_views(sorted@);
        let mut p: usize = 0;
        while p < sorted.len() && sorted[p].timestamp >= x.timestamp
            invariant
                0 <= p <= sorted@.len(),
                sv == log_views(sorted@),
                forall|j: int| 0 <= j < p ==> (#[trigger] sv[j]).timestamp >= x@.timestamp,
            decreases sorted@.len() - p,
        {
            assert(sv[p as int] == sorted@[p as int]@);
            p = p + 1;
        }
        proof {
            if p < sorted@.len() {
                assert(sv[p as int] == sorted@[p as int]@);
            }
            lemma_insert_at(sv, x@, p as int);
            assert(all.subrange(0, k + 1).drop_last() =~= all.subrange(0, k as int));
            assert(all.subrange(0, k + 1).last() == x@);
        }
        sorted.insert(p, x);
        assert(log_views(sorted@) =~= sv.insert(p as int, x@));
        k = k + 1;
    }
    assert(all.subrange(0, k as int) =~= all);
    sorted
}

/// No grant with identity `id` is among a user's active grants at `now`
/// when every row with that identity has expired by `now`.
pub proof fn lemma_expired_id_not_listed(grants: Seq<AccessGrantView>, id: u128, user: u128, now: i64)
    requires
        forall|i: int| 0 <= i < grants.len() && (#[trigger] grants[i]).id == id ==> !is_active(grants[i], now),
    ensures
        !has_grant(active_grants(grants, user, now), id),
{
    let pred = |x: AccessGrantView| x.user_id == user && is_active(x, now);
    let active = grants.filter(pred);
    grants.filter_lemma(pred);
    if has_grant(active, id) {
        let k = choose|k: int| 0 <= k < active.len() && (#[trigger] active[k]).id == id;
        assert(active.contains(active[k]));
        grants.lemma_filter_contains_rev(pred, active[k]);
        let i = choose|i: int| 0 <= i < grants.len() && grants[i] == active[k];
        assert(pred(active[k]));
        assert(!is_active(grants[i], now));
    }
}

/// Access grants and audit entries, held in memory in the order they were
/// written. Grants are removed only by revocation; audit entries never.
pub struct ConsentRepository {
    grants: Vec<AccessGrant>,
    logs: Vec<ConsentAuditLog>,
}

impl ConsentRepository {
    /// The grants, in the order they were made.
    pub closed spec fn grants(&self) -> Seq<AccessGrantView> {
        grant_views(self.grants@)
    }

    /// The audit entries, oldest first.
    pub closed spec fn logs(&self) -> Seq<ConsentAuditLogView> {
        log_views(self.logs@)
    }

    /// An empty ledger and trail.
    pub fn new() -> (r: ConsentRepository)
        ensures
            r.grants() == Seq::<AccessGrantView>::empty(),
            r.logs() == Seq::<ConsentAuditLogView>::empty(),
    {
        let r = ConsentRepository { grants: Vec::new(), logs: Vec::new() };
        assert(r.grants() =~= Seq::<AccessGrantView>::empty());
        assert(r.logs() =~= Seq::<ConsentAuditLogView>::empty());
        r
    }

    /// Records a new grant made at `now`, under a fresh identity.
    pub fn create_grant(&mut self, input: &GrantAccessInput, now: i64) -> (r: AccessGrant)
        ensures
            grant_made(r@, *input, now),
            final(self).grants() == old(self).grants().push(r@),
            final(self).logs() == old(self).logs(),
    {
        let grant = AccessGrant {
            id: new_id(),
            user_id: input.user_id,
            client_id: input.client_id.clone(),
            scopes: copy_strings(&input.scopes),
            context_domains: copy_strings(&input.context_domains),
            expires_at: input.expires_at,
            created_at: now,
        };
        self.grants.push(grant.copy());
        assert(self.grants() =~= old(self).grants().push(grant@));
        grant
    }

    /// The grants of `user` in force at `now`.
    pub fn get_active_grants(&self, user_id: u128, now: i64) -> (r: Vec<AccessGrant>)
        ensures
            grant_views(r@) == active_grants(self.grants(), user_id, now),
    {
        let ghost pred = |g: AccessGrantView| g.user_id == user_id && is_active(g, now);
        let mut out: Vec<AccessGrant> = Vec::new();
        let mut i: usize = 0;
        while i < self.grants.len()
            invariant
                0 <= i <= self.grants@.len(),
                pred == (|g: AccessGrantView| g.user_id == user_id && is_active(g, now)),
                grant_views(out@) == self.grants().subrange(0, i as int).filter(pred),
            decreases self.grants@.len() - i,
        {
            let g = &self.grants[i];
            proof {
                lemma_filter_step(self.grants(), pred, i as int);
                assert(self.grants()[i as int] == g@);
            }
            let active = match g.expires_at {
                None => true,
                Some(t) => now < t,
            };
            if g.user_id == user_id && active {
                let c = g.copy();
                let ghost before = out@;
                out.push(c);
                assert(grant_views(out@) =~= grant_views(before).push(c@));
            }
            i = i + 1;
        }
        assert(self.grants().subrange(0, i as int) =~= self.grants());
        out
    }

    /// Removes every grant with identity `grant_id`; `true` when there was one.
    pub fn revoke_grant(&mut self, grant_id: u128) -> (r: bool)
        ensures
            r == has_grant(old(self).grants(), grant_id),
            final(self).grants() == old(self).grants().filter(|g: AccessGrantView| g.id != grant_id),
            final(self).logs() == old(self).logs(),
    {
        let ghost pred = |g: AccessGrantView| g.id != grant_id;
        let ghost all = self.grants();
        let mut kept: Vec<AccessGrant> = Vec::new();
        let mut found = false;
        let mut i: usize = 0;
        while i < self.grants.len()
            invariant
                0 <= i <= self.grants@.len(),
                all == self.grants(),
                pred == (|g: AccessGrantView| g.id != grant_id),
                grant_views(kept@) == all.subrange(0, i as int).filter(pred),
                found == has_grant(all.subrange(0, i as int), grant_id),
            decreases self.grants@.len() - i,
        {
            let g = &self.grants[i];
            proof {
                lemma_filter_step(all, pred, i as int);
                assert(all.subrange(0, i + 1).drop_last() =~= all.subrange(0, i as int));
                if has_grant(all.subrange(0, i as int), grant_id) {
                    let j = choose|j: int| 0 <= j < i && (#[trigger] all.subrange(0, i as int)[j]).id == grant_id;
                    assert(all.subrange(0, i + 1)[j] == all.subrange(0, i as int)[j]);
                }
                if has_grant(all.subrange(0, i + 1), grant_id) && all[i as int].id != grant_id {
                    let j = choose|j: int| 0 <= j < i + 1 && (#[trigger] all.subrange(0, i + 1)[j]).id == grant_id;
                    assert(all.subrange(0, i as int)[j] == all.subrange(0, i + 1)[j]);
                }
                assert(all.subrange(0, i + 1)[i as int] == all[i as int]);
                assert(all[i as int] == g@);
            }
            if g.id == grant_id {
                found = true;
            } else {
                let c = g.copy();
                let ghost before = kept@;
                kept.push(c);
                assert(grant_views(kept@) =~= grant_views(before).push(c@));
            }
            i = i + 1;
        }
        assert(all.subrange(0, i as int) =~= all);
        self.grants = kept;
        found
    }

    /// Whether some grant lets `client_id` use `required_scope` on `domain`
    /// of `user`'s data at `now`.
    pub fn check_access(
        &self,
        user_id: u128,
        client_id: &str,
        domain: &str,
        required_scope: &str,
        now: i64,
    ) -> (r: bool)
        ensures
            r == access_granted(self.grants(), user_id, client_id@, domain@, required_scope@, now),
    {
        let mut i: usize = 0;
        while i < self.grants.len()
            invariant
                0 <= i <= self.grants@.len(),
                forall|j: int| 0 <= j < i ==> !permits(
                    #[trigger] self.grants()[j], user_id, client_id@, domain@, required_scope@, now),
            decreases self.grants@.len() - i,
        {
            let g = &self.grants[i];
            let active = match g.expires_at {
                None => true,
                Some(t) => now < t,
            };
            if g.user_id == user_id && crate::text::str_eq(g.client_id.as_str(), client_id) && active
                && list_contains(&g.context_domains, domain) && list_contains(&g.scopes, required_scope) {
                assert(permits(self.grants()[i as int], user_id, client_id@, domain@, required_scope@, now));
                return true;
            }
            i = i + 1;
        }
        false
    }

    /// Appends an audit entry written at `now`, under a fresh identity.
    pub fn create_audit_log(&mut self, input: CreateAuditLogInput, now: i64) -> (r: ConsentAuditLog)
        ensures
            log_made(r@, input, now),
            final(self).logs() == old(self).logs().push(r@),
            final(self).grants() == old(self).grants(),
    {
        let log = ConsentAuditLog {
            id: new_id(),
            user_id: input.user_id,
            client_id: input.client_id,
            action: input.action,
            details: input.details,
            timestamp: now,
        };
        self.logs.push(log.copy());
        assert(self.logs() =~= old(self).logs().push(log@));
        log
    }

    /// The entries of `user`, most recent time first (entries of equal time
    /// newest first): `limit` of them (50 when not given) after skipping
    /// `offset` (none when not given).
    pub fn get_audit_logs(&self, user_id: u128, limit: Option<usize>, offset: Option<usize>) -> (r: Vec<
        ConsentAuditLog,
    >)
        ensures
            newest_time_first(log_views(r@)),
            log_views(r@) == page(
                by_time(newest_for_user(self.logs(), user_id)),
                match offset { Some(o) => o as nat, None => 0 },
                match limit { Some(l) => l as nat, None => DEFAULT_AUDIT_LIMIT as nat },
            ),
    {
        let limit = match limit {
            Some(l) => l,
            None => DEFAULT_AUDIT_LIMIT,
        };
        let offset = match offset {
            Some(o) => o,
            None => 0,
        };
        let ghost all = self.logs();
        let mut newest: Vec<ConsentAuditLog> = Vec::new();
        let mut i: usize = self.logs.len();
        while i > 0
            invariant
                0 <= i <= self.logs@.len(),
                all == self.logs(),
                log_views(newest@) == newest_for_user(all.subrange(i as int, all.len() as int), user_id),
            decreases i,
        {
            i = i - 1;
            proof {
                assert(all.subrange(i as int, all.len() as int).drop_first() =~= all.subrange(i + 1, all.len() as int));
                assert(all.subrange(i as int, all.len() as int)[0] == all[i as int]);
            }
            if self.logs[i].user_id == user_id {
                let c = self.logs[i].copy();
                let ghost before = newest@;
                newest.push(c);
                assert(log_views(newest@) =~= log_views(before).push(c@));
            }
        }
        assert(all.subrange(0, all.len() as int) =~= all);
        let newest = order_by_time(&newest);
        let ghost s = log_views(newest@);
        let n = newest.len();
        let start = if offset < n { offset } else { n };
        let end = if limit < n - start { start + limit } else { n };
        let mut out: Vec<ConsentAuditLog> = Vec::new();
        let mut k: usize = start;
        while k < end
            invariant
                start <= k <= end <= n,
                n == newest@.len(),
                s == log_views(newest@),
                log_views(out@) == s.subrange(start as int, k as int),
            decreases end - k,
        {
            let c = newest[k].copy();
            let ghost before = out@;
            out.push(c);
            assert(log_views(out@) =~= log_views(before).push(c@));
            assert(s.subrange(start as int, k + 1) =~= s.subrange(start as int, k as int).push(s[k as int]));
            k = k + 1;
        }
        proof {
            lemma_by_time_ordered(newest_for_user(all, user_id));
            assert forall|i: int, j: int| 0 <= i < j < log_views(out@).len() implies
                log_views(out@)[i].timestamp >= log_views(out@)[j].timestamp by {
                assert(log_views(out@)[i] == s[start + i] && log_views(out@)[j] == s[start + j]);
            }
        }
        out
    }
}

} // verus!
