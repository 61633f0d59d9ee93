//! The item store that context units are persisted in, and an in-memory
//! store that meets its contract.

use vstd::prelude::*;
use crate::context_models::{ContextShard, ContextShardView};
use crate::text::{str_contains, str_eq, is_infix};

verus! {

/// A failure reported by an item store.
#[derive(Clone, Debug, PartialEq, Eq)]
pub struct StoreError {
    pub message: String,
}

/// How a remote item store's HTTP status is taken.
#[derive(Clone, Copy, Debug, PartialEq, Eq, Structural)]
pub enum StatusClass {
    /// 2xx: the call succeeded.
    Success,
    /// 4xx: the item is absent; a lookup gives nothing and a removal `false`.
    Absent,
    /// Anything else: a hard failure.
    Failure,
}

/// The class of HTTP status `status`.
pub fn classify_status(status: u16) -> (r: StatusClass)
    ensures
        200 <= status < 300 ==> r == StatusClass::Success,
        400 <= status < 500 ==> r == StatusClass::Absent,
        !(200 <= status < 300) && !(400 <= status < 500) ==> r == StatusClass::Failure,
{
    if 200 <= status && status < 300 {
        StatusClass::Success
    } else if 400 <= status && status < 500 {
        StatusClass::Absent
    } else {
        StatusClass::Failure
    }
}

/// Where a remote item store is reached, and the credential it is reached with.
#[derive(Clone, Debug)]
pub struct Mem0Config {
    pub base_url: String,
    pub api_key: String,
}

impl Mem0Config {
    /// A configuration for the store at `base_url`.
    pub fn new(base_url: String, api_key: String) -> (r: Mem0Config)
        ensures
            r.base_url == base_url,
            r.api_key == api_key,
    {
        Mem0Config { base_url, api_key }
    }
}

/// Whether `s` belongs to `user` and, when a domain is given, lies in it.
pub open spec fn in_scope(s: ContextShardView, user: u128, domain: Option<Seq<char>>) -> bool {
    &&& s.user_id == user
    &&& match domain {
        Some(d) => s.domain == d,
        None => true,
    }
}

/// `found` holds at most `limit` units, each stored under its identity in
/// `items`, each belonging to `user` and to `domain` when given.
pub open spec fn found_in(
    items: Map<u128, ContextShardView>,
    found: Seq<ContextShard>,
    user: u128,
    domain: Option<Seq<char>>,
    limit: usize,
) -> bool {
    &&& found.len() <= limit
    &&& forall|i: int| 0 <= i < found.len() ==> {
        &&& items.contains_key(#[trigger] found[i].id)
        &&& items[found[i].id] == found[i]@
        &&& in_scope(found[i]@, user, domain)
    }
}

/// The view of an optional string slice.
pub open spec fn opt_view(d: Option<&str>) -> Option<Seq<char>> {
    match d {
        Some(s) => Some(s@),
        None => None,
    }
}

/// The views of a sequence of units.
pub open spec fn shard_views(s: Seq<ContextShard>) -> Seq<ContextShardView> {
    s.map_values(|x: ContextShard| x@)
}

/// A store of context units keyed by identity. A failed call leaves the
/// store as it was.
///
/// An implementation outside verified code (such as the remote store over
/// HTTP) keeps the default spec functions below: what it holds and what it
/// answers are unknown here, and its meeting these contracts is taken on
/// trust.
pub trait MemoryAdapter {
    /// The stored units, by identity.
    open spec fn items(&self) -> Map<u128, ContextShardView> {
        arbitrary()
    }

    /// The units the store lists for `user` (in `domain` when given, and
    /// matching `query` when given), at most `limit` of them.
    open spec fn listed(
        &self,
        user: u128,
        query: Option<Seq<char>>,
        domain: Option<Seq<char>>,
        limit: usize,
    ) -> Seq<ContextShardView> {
        arbitrary()
    }

    /// The store's own consistency; none by default.
    open spec fn wf(&self) -> bool {
        true
    }

    /// Stores `shard` under its identity.
    fn store_item(&mut self, shard: ContextShard) -> (r: Result<(), StoreError>)
        requires
            old(self).wf(),
        ensures
            final(self).wf(),
            r is Ok ==> final(self).items() == old(self).items().insert(shard.id, shard@),
            r is Err ==> final(self).items() == old(self).items();

    /// The unit stored under `id`, if any; it carries that identity.
    fn get_item(&self, id: u128) -> (r: Result<Option<ContextShard>, StoreError>)
        requires
            self.wf(),
        ensures
            r matches Ok(found) ==> match found {
                Some(s) => s.id == id && self.items().contains_key(id) && self.items()[id] == s@,
                None => !self.items().contains_key(id),
            };

    /// Replaces the unit stored under `shard`'s identity; `false`, and
    /// nothing changed, when there is none.
    fn update_item(&mut self, shard: ContextShard) -> (r: Result<bool, StoreError>)
        requires
            old(self).wf(),
        ensures
            final(self).wf(),
            r matches Ok(b) ==> b == old(self).items().contains_key(shard.id),
            r == Ok::<bool, StoreError>(true) ==> final(self).items() == old(self).items().insert(shard.id, shard@),
            r != Ok::<bool, StoreError>(true) ==> final(self).items() == old(self).items();

    /// Removes the unit stored under `id`; `true` when there was one.
    fn delete_item(&mut self, id: u128) -> (r: Result<bool, StoreError>)
        requires
            old(self).wf(),
        ensures
            final(self).wf(),
            r matches Ok(b) ==> b == old(self).items().contains_key(id) && final(self).items()
                == old(self).items().remove(id),
            r is Err ==> final(self).items() == old(self).items();

    /// Units of `user` (in `domain` when given) that match `query`, by the
    /// store's own notion of a match; at most `limit` of them.
    fn search_items(&self, user_id: u128, query: &str, domain: Option<&str>, limit: usize) -> (r: Result<
        Vec<ContextShard>,
        StoreError,
    >)
        requires
            self.wf(),
        ensures
            r matches Ok(v) ==> shard_views(v@) == self.listed(user_id, Some(query@), opt_view(domain), limit)
                && found_in(self.items(), v@, user_id, opt_view(domain), limit);

    /// Units of `user` in `domain`; at most `limit` of them.
    fn get_items_by_domain(&self, user_id: u128, domain: &str, limit: usize) -> (r: Result<Vec<ContextShard>, StoreError>)
        requires
            self.wf(),
        ensures
            r matches Ok(v) ==> shard_views(v@) == self.listed(user_id, None, Some(domain@), limit)
                && found_in(self.items(), v@, user_id, Some(domain@), limit);
}

/// The units of `s`, by identity.
pub open spec fn items_of(s: Seq<ContextShard>) -> Map<u128, ContextShardView> {
    Map::new(
        |id: u128| exists|i: int| 0 <= i < s.len() && s[i].id == id,
        |id: u128| s[choose|i: int| 0 <= i < s.len() && s[i].id == id]@,
    )
}

/// No two units of `s` share an identity.
pub open spec fn ids_unique(s: Seq<ContextShard>) -> bool {
    forall|i: int, j: int| 0 <= i < s.len() && 0 <= j < s.len() && i != j ==> s[i].id != s[j].id
}

proof fn lemma_lookup(s: Seq<ContextShard>, i: int)
    requires
        ids_unique(s),
        0 <= i < s.len(),
    ensures
        items_of(s).contains_key(s[i].id),
        items_of(s)[s[i].id] == s[i]@,
{
    let id = s[i].id;
    assert(exists|k: int| 0 <= k < s.len() && s[k].id == id);
    let j = choose|k: int| 0 <= k < s.len() && s[k].id == id;
    assert(j == i);
}

proof fn lemma_update(s: Seq<ContextShard>, i: int, x: ContextShard)
    requires
        ids_unique(s),
        0 <= i < s.len(),
        x.id == s[i].id,
    ensures
        ids_unique(s.update(i, x)),
        items_of(s.update(i, x)) == items_of(s).insert(x.id, x@),
{
    let t = s.update(i, x);
    assert forall|k: u128| #[trigger] items_of(t).contains_key(k) == items_of(s).insert(x.id, x@).contains_key(k) by {
        if exists|a: int| 0 <= a < s.len() && s[a].id == k {
            let a = choose|a: int| 0 <= a < s.len() && s[a].id == k;
            assert(t[a].id == k);
        }
        if exists|a: int| 0 <= a < t.len() && t[a].id == k {
            let a = choose|a: int| 0 <= a < t.len() && t[a].id == k;
            assert(s[a].id == k);
        }
    }
    assert forall|a: int| 0 <= a < t.len() implies items_of(t)[#[trigger] t[a].id] == items_of(s).insert(x.id, x@)[t[a].id] by {
        lemma_lookup(t, a);
        if a != i {
            lemma_lookup(s, a);
        }
    }
    assert forall|k: u128| items_of(t).contains_key(k) implies #[trigger] items_of(t)[k] == items_of(s).insert(x.id, x@)[k] by {
        let a = choose|a: int| 0 <= a < t.len() && t[a].id == k;
        assert(items_of(t)[t[a].id] == items_of(s).insert(x.id, x@)[t[a].id]);
    }
    assert(items_of(t) =~= items_of(s).insert(x.id, x@));
}

proof fn lemma_push(s: Seq<ContextShard>, x: ContextShard)
    requires
        ids_unique(s),
        !items_of(s).contains_key(x.id),
    ensures
        ids_unique(s.push(x)),
        items_of(s.push(x)) == items_of(s).insert(x.id, x@),
{
    let t = s.push(x);
    assert forall|a: int| 0 <= a < s.len() implies #[trigger] s[a].id != x.id by {
        if s[a].id == x.id {
            assert(items_of(s).contains_key(x.id));
        }
    }
    assert forall|k: u128| #[trigger] items_of(t).contains_key(k) == items_of(s).insert(x.id, x@).contains_key(k) by {
        if exists|a: int| 0 <= a < s.len() && s[a].id == k {
            let a = choose|a: int| 0 <= a < s.len() && s[a].id == k;
            assert(t[a].id == k);
        }
        if exists|a: int| 0 <= a < t.len() && t[a].id == k {
            let a = choose|a: int| 0 <= a < t.len() && t[a].id == k;
            if a < s.len() {
                assert(s[a].id == k);
            }
        }
        if k == x.id {
            assert(t[s.len() as int].id == x.id);
        }
    }
    assert forall|k: u128| items_of(t).contains_key(k) implies #[trigger] items_of(t)[k] == items_of(s).insert(x.id, x@)[k] by {
        let a = choose|a: int| 0 <= a < t.len() && t[a].id == k;
        lemma_lookup(t, a);
        if a < s.len() {
            lemma_lookup(s, a);
        }
    }
    assert(items_of(t) =~= items_of(s).insert(x.id, x@));
}

proof fn lemma_remove(s: Seq<ContextShard>, i: int)
    requires
        ids_unique(s),
        0 <= i < s.len(),
    ensures
        ids_unique(s.remove(i)),
        items_of(s.remove(i)) == items_of(s).remove(s[i].id),
{
    let t = s.remove(i);
    let id = s[i].id;
    assert forall|a: int, b: int| 0 <= a < t.len() && 0 <= b < t.len() && a != b implies t[a].id != t[b].id by {
        let a2 = if a < i { a } else { a + 1 };
        let b2 = if b < i { b } else { b + 1 };
        assert(t[a] == s[a2] && t[b] == s[b2]);
    }
    assert forall|k: u128| #[trigger] items_of(t).contains_key(k) == items_of(s).remove(id).contains_key(k) by {
        if exists|a: int| 0 <= a < s.len() && s[a].id == k && k != id {
            let a = choose|a: int| 0 <= a < s.len() && s[a].id == k && k != id;
            if a < i {
                assert(t[a].id == k);
            } else {
                assert(t[a - 1].id == k);
            }
        }
        if exists|a: int| 0 <= a < t.len() && t[a].id == k {
            let a = choose|a: int| 0 <= a < t.len() && t[a].id == k;
            let a2 = if a < i { a } else { a + 1 };
            assert(s[a2].id == k);
            assert(a2 != i);
        }
    }
    assert forall|k: u128| items_of(t).contains_key(k) implies #[trigger] items_of(t)[k] == items_of(s).remove(id)[k] by {
        let a = choose|a: int| 0 <= a < t.len() && t[a].id == k;
        let a2 = if a < i { a } else { a + 1 };
        assert(t[a] == s[a2]);
        lemma_lookup(t, a);
        lemma_lookup(s, a2);
    }
    assert(items_of(t) =~= items_of(s).remove(id));
}

/// Whether `query` occurs in `s`'s domain, content type or a metadata value.
pub open spec fn text_matches(s: ContextShardView, query: Seq<char>) -> bool {
    ||| is_infix(query, s.domain)
    ||| is_infix(query, s.content_type)
    ||| exists|k: int| 0 <= k < s.metadata.len() && is_infix(query, (#[trigger] s.metadata[k]).1)
}

/// Whether `s` is to be listed for `user`, `query` and `domain`.
pub open spec fn wanted(s: ContextShardView, user: u128, query: Option<Seq<char>>, domain: Option<Seq<char>>) -> bool {
    &&& in_scope(s, user, domain)
    &&& match query {
        Some(q) => text_matches(s, q),
        None => true,
    }
}

/// The first `limit` units of `s`, in order, that are wanted.
pub open spec fn selected(
    s: Seq<ContextShard>,
    user: u128,
    query: Option<Seq<char>>,
    domain: Option<Seq<char>>,
    limit: nat,
) -> Seq<ContextShardView>
    decreases s.len(),
{
    if s.len() == 0 || limit == 0 {
        Seq::empty()
    } else if wanted(s[0]@, user, query, domain) {
        seq![s[0]@] + selected(s.drop_first(), user, query, domain, (limit - 1) as nat)
    } else {
        selected(s.drop_first(), user, query, domain, limit)
    }
}

/// Context units held in memory, in the order they were first stored.
pub struct MemoryStore {
    shards: Vec<ContextShard>,
}

impl MemoryStore {

    /// An empty store.
    pub fn new() -> (r: MemoryStore)
        ensures
            r.wf(),
            r.items() == Map::<u128, ContextShardView>::empty(),
    {
        let r = MemoryStore { shards: Vec::new() };
        assert(ids_unique(r.shards@));
        assert(r.items() =~= Map::<u128, ContextShardView>::empty());
        r
    }

    /// The position of the unit with identity `id`.
    fn position(&self, id: u128) -> (r: Option<usize>)
        ensures
            match r {
                Some(i) => i < self.shards@.len() && self.shards@[i as int].id == id,
                None => forall|i: int| 0 <= i < self.shards@.len() ==> #[trigger] self.shards@[i].id != id,
            },
    {
        let mut i: usize = 0;
        while i < self.shards.len()
            invariant
                0 <= i <= self.shards@.len(),
                forall|k: int| 0 <= k < i ==> #[trigger] self.shards@[k].id != id,
            decreases self.shards@.len() - i,
        {
            if self.shards[i].id == id {
                return Some(i);
            }
            i = i + 1;
        }
        None
    }

    /// Whether `s` matches `query`.
    fn matches_query(s: &ContextShard, query: &str) -> (r: bool)
        ensures
            r == text_matches(s@, query@),
    {
        if str_contains(s.domain.as_str(), query) || str_contains(s.content_type.as_str(), query) {
            return true;
        }
        let mut k: usize = 0;
        while k < s.metadata.len()
            invariant
                0 <= k <= s.metadata@.len(),
                !is_infix(query@, s@.domain),
                !is_infix(query@, s@.content_type),
                forall|j: int| 0 <= j < k ==> !is_infix(query@, (#[trigger] s@.metadata[j]).1),
            decreases s.metadata@.len() - k,
        {
            if str_contains(s.metadata[k].1.as_str(), query) {
                assert(s@.metadata[k as int].1 == s.metadata@[k as int].1@);
                return true;
            }
            k = k + 1;
        }
        false
    }

    /// The first `limit` units, in store order, that are in scope and, when
    /// a query is given, match it.
    fn select(&self, user_id: u128, query: Option<&str>, domain: Option<&str>, limit: usize) -> (r: Vec<ContextShard>)
        requires
            ids_unique(self.shards@),
        ensures
            found_in(self.items(), r@, user_id, opt_view(domain), limit),
            shard_views(r@) == selected(self.shards@, user_id, opt_view(query), opt_view(domain), limit as nat),
    {
        let ghost all = self.shards@;
        let ghost q = opt_view(query);
        let ghost d = opt_view(domain);
        let mut out: Vec<ContextShard> = Vec::new();
        let mut i: usize = 0;
        proof {
            assert(all.subrange(0, all.len() as int) =~= all);
            assert(shard_views(out@) + selected(all, user_id, q, d, limit as nat) =~= selected(all, user_id, q, d, limit as nat));
        }
        while i < self.shards.len() && out.len() < limit
            invariant
                ids_unique(self.shards@),
                all == self.shards@,
                q == opt_view(query),
                d == opt_view(domain),
                0 <= i <= self.shards@.len(),
                out@.len() <= limit,
                found_in(self.items(), out@, user_id, opt_view(domain), limit),
                shard_views(out@) + selected(all.subrange(i as int, all.len() as int), user_id, q, d, (limit - out@.len()) as nat)
                    == selected(all, user_id, q, d, limit as nat),
            decreases self.shards@.len() - i,
        {
            let s = &self.shards[i];
            let ghost rest = all.subrange(i as int, all.len() as int);
            proof {
                assert(rest.drop_first() =~= all.subrange(i + 1, all.len() as int));
                assert(rest[0] == all[i as int]);
            }
            let in_domain = match domain {
                Some(d) => str_eq(s.domain.as_str(), d),
                None => true,
            };
            let wanted = s.user_id == user_id && in_domain && match query {
                Some(q) => MemoryStore::matches_query(s, q),
                None => true,
            };
            if wanted {
                let c = s.copy();
                proof {
                    lemma_lookup(self.shards@, i as int);
                }
                let ghost before = out@;
                out.push(c);
                assert(out@.last() == c);
                assert(shard_views(out@) =~= shard_views(before) + seq![c@]);
                assert(shard_views(out@) + selected(all.subrange(i + 1, all.len() as int), user_id, q, d, (limit - out@.len()) as nat)
                    =~= shard_views(before) + selected(rest, user_id, q, d, (limit - before.len()) as nat));
            }
            i = i + 1;
        }
        proof {
            let rest = all.subrange(i as int, all.len() as int);
            assert(selected(rest, user_id, q, d, (limit - out@.len()) as nat) =~= Seq::<ContextShardView>::empty());
            assert(shard_views(out@) + Seq::<ContextShardView>::empty() =~= shard_views(out@));
        }
        out
    }
}

impl MemoryAdapter for MemoryStore {
    closed spec fn items(&self) -> Map<u128, ContextShardView> {
        items_of(self.shards@)
    }

    /// Identities are unique.
    closed spec fn wf(&self) -> bool {
        ids_unique(self.shards@)
    }

    closed spec fn listed(
        &self,
        user: u128,
        query: Option<Seq<char>>,
        domain: Option<Seq<char>>,
        limit: usize,
    ) -> Seq<ContextShardView> {
        selected(self.shards@, user, query, domain, limit as nat)
    }

    fn store_item(&mut self, shard: ContextShard) -> (r: Result<(), StoreError>) {
        match self.position(shard.id) {
            Some(i) => {
                proof {
                    lemma_update(self.shards@, i as int, shard);
                }
                self.shards.set(i, shard);
            },
            None => {
                proof {
                    if items_of(self.shards@).contains_key(shard.id) {
                        let a = choose|a: int| 0 <= a < self.shards@.len() && self.shards@[a].id == shard.id;
                        assert(self.shards@[a].id != shard.id);
                    }
                    lemma_push(self.shards@, shard);
                }
                self.shards.push(shard);
            },
        }
        Ok(())
    }

    fn get_item(&self, id: u128) -> (r: Result<Option<ContextShard>, StoreError>) {
        match self.position(id) {
            Some(i) => {
                proof {
                    lemma_lookup(self.shards@, i as int);
                }
                Ok(Some(self.shards[i].copy()))
            },
            None => Ok(None),
        }
    }

    fn update_item(&mut self, shard: ContextShard) -> (r: Result<bool, StoreError>) {
        match self.position(shard.id) {
            Some(i) => {
                proof {
                    lemma_lookup(self.shards@, i as int);
                    lemma_update(self.shards@, i as int, shard);
                }
                self.shards.set(i, shard);
                Ok(true)
            },
            None => Ok(false),
        }
    }

    fn delete_item(&mut self, id: u128) -> (r: Result<bool, StoreError>) {
        match self.position(id) {
            Some(i) => {
                proof {
                    lemma_lookup(self.shards@, i as int);
                    lemma_remove(self.shards@, i as int);
                }
                let _ = self.shards.remove(i);
                Ok(true)
            },
            None => {
                assert(items_of(self.shards@).remove(id) =~= items_of(self.shards@));
                Ok(false)
            },
        }
    }

    fn search_items(&self, user_id: u128, query: &str, domain: Option<&str>, limit: usize) -> (r: Result<
        Vec<ContextShard>,
        StoreError,
    >) {
        Ok(self.select(user_id, Some(query), domain, limit))
    }

    fn get_items_by_domain(&self, user_id: u128, domain: &str, limit: usize) -> (r: Result<Vec<ContextShard>, StoreError>) {
        Ok(self.select(user_id, None, Some(domain), limit))
    }
}

} // verus!
