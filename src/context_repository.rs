//! Encrypted, versioned context units over an item store.

use vstd::prelude::*;
use crate::context_models::{
    copy_metadata, copy_vector, created_from, patched, ContextShard, ContextShardView,
    CreateShardInput, UpdateShardInput,
};
use crate::encryption::{decrypted_under, encrypted_under, key_taken, CipherError, EncryptionService};
use crate::memory_adapter::{found_in, opt_view, shard_views, MemoryAdapter, StoreError};
use crate::runtime::{new_id, now_micros};

verus! {

/// Why an operation on context units failed.
#[derive(Clone, Debug, PartialEq, Eq)]
pub enum ContextError {
    /// The caller's version is not the stored one.
    VersionConflict,
    /// The stored version is the largest one representable.
    VersionOverflow,
    /// The stored content could not be decrypted.
    DecryptionError(CipherError),
    /// The item store failed.
    Store(StoreError),
}

/// How many units a search returns when no limit is given.
pub const DEFAULT_SEARCH_LIMIT: usize = 50;

/// The limit a search applies.
pub open spec fn limit_or_default(limit: Option<usize>) -> usize {
    match limit {
        Some(l) => l,
        None => DEFAULT_SEARCH_LIMIT,
    }
}

/// What creating a unit from `input` did to the store and the keys.
pub open spec fn create_outcome(
    items0: Map<u128, ContextShardView>,
    items1: Map<u128, ContextShardView>,
    keys0: Map<u128, Seq<u8>>,
    keys1: Map<u128, Seq<u8>>,
    input: CreateShardInput,
    r: Result<ContextShard, ContextError>,
) -> bool {
    &&& key_taken(keys0, keys1, input.user_id)
    &&& match r {
        Ok(s) => {
            &&& created_from(s@, input, s@.content, s@.created_at)
            &&& encrypted_under(keys1[input.user_id], input.content@, s@.content)
            &&& items1 == items0.insert(s.id, s@)
        },
        Err(e) => e is Store && items1 == items0,
    }
}

/// What updating unit `id` with `input` did to the store and the keys.
pub open spec fn update_outcome(
    items0: Map<u128, ContextShardView>,
    items1: Map<u128, ContextShardView>,
    keys0: Map<u128, Seq<u8>>,
    keys1: Map<u128, Seq<u8>>,
    id: u128,
    input: UpdateShardInput,
    r: Result<Option<ContextShard>, ContextError>,
) -> bool {
    let present = items0.contains_key(id);
    let cur = items0[id];
    match r {
        Ok(None) => !present && items1 == items0 && keys1 == keys0,
        Ok(Some(s)) => {
            &&& present
            &&& cur.version == input.current_version
            &&& cur.version < i32::MAX
            &&& s.id == id
            &&& s@ == patched(cur, input, s@.content, s@.updated_at)
            &&& items1 == items0.insert(id, s@)
            &&& match input.content {
                Some(p) => key_taken(keys0, keys1, cur.user_id) && encrypted_under(
                    keys1[cur.user_id],
                    p@,
                    s@.content,
                ),
                None => s@.content == cur.content && keys1 == keys0,
            }
        },
        Err(ContextError::VersionConflict) => {
            &&& present
            &&& cur.version != input.current_version
            &&& items1 == items0
            &&& keys1 == keys0
        },
        Err(ContextError::VersionOverflow) => {
            &&& present
            &&& cur.version == input.current_version
            &&& cur.version == i32::MAX
            &&& items1 == items0
            &&& keys1 == keys0
        },
        Err(ContextError::Store(_)) => {
            &&& items1 == items0
            &&& (keys1 == keys0 || {
                &&& present
                &&& cur.version == input.current_version
                &&& cur.version < i32::MAX
                &&& key_taken(keys0, keys1, cur.user_id)
            })
        },
        Err(ContextError::DecryptionError(_)) => false,
    }
}

/// What reading unit `id` with its plaintext did, and gave.
pub open spec fn read_outcome(
    items: Map<u128, ContextShardView>,
    keys0: Map<u128, Seq<u8>>,
    keys1: Map<u128, Seq<u8>>,
    id: u128,
    r: Result<Option<(ContextShard, Vec<u8>)>, ContextError>,
) -> bool {
    let cur = items[id];
    match r {
        Ok(None) => !items.contains_key(id) && keys1 == keys0,
        Ok(Some((s, p))) => {
            &&& items.contains_key(id)
            &&& s@ == cur
            &&& decrypted_under(keys0, keys1, cur.user_id, cur.content, Ok::<Vec<u8>, CipherError>(p))
        },
        Err(ContextError::DecryptionError(e)) => {
            &&& items.contains_key(id)
            &&& decrypted_under(keys0, keys1, cur.user_id, cur.content, Err::<Vec<u8>, CipherError>(e))
        },
        Err(ContextError::Store(_)) => keys1 == keys0,
        Err(_) => false,
    }
}

/// `r` is what decrypting `unit`'s content under its owner's key gave,
/// with the keys going from `keys0` to `keys1`.
pub open spec fn opened_content(
    keys0: Map<u128, Seq<u8>>,
    keys1: Map<u128, Seq<u8>>,
    unit: ContextShardView,
    r: Result<Vec<u8>, ContextError>,
) -> bool {
    match r {
        Ok(p) => decrypted_under(keys0, keys1, unit.user_id, unit.content, Ok::<Vec<u8>, CipherError>(p)),
        Err(ContextError::DecryptionError(e)) => decrypted_under(
            keys0,
            keys1,
            unit.user_id,
            unit.content,
            Err::<Vec<u8>, CipherError>(e),
        ),
        Err(_) => false,
    }
}

/// What looking up unit `id` gave.
pub open spec fn get_outcome(
    items: Map<u128, ContextShardView>,
    id: u128,
    r: Result<Option<ContextShard>, ContextError>,
) -> bool {
    match r {
        Ok(Some(s)) => items.contains_key(id) && items[id] == s@,
        Ok(None) => !items.contains_key(id),
        Err(e) => e is Store,
    }
}

/// What deleting unit `id` did to the store.
pub open spec fn delete_outcome(
    items0: Map<u128, ContextShardView>,
    items1: Map<u128, ContextShardView>,
    id: u128,
    r: Result<bool, ContextError>,
) -> bool {
    match r {
        Ok(b) => b == items0.contains_key(id) && items1 == items0.remove(id),
        Err(e) => e is Store && items1 == items0,
    }
}

/// What a search of `user`'s units gave: the store's answer `listed`,
/// passed on, or the store's failure.
pub open spec fn search_outcome(
    items: Map<u128, ContextShardView>,
    listed: Seq<ContextShardView>,
    user: u128,
    domain: Option<Seq<char>>,
    limit: Option<usize>,
    r: Result<Vec<ContextShard>, ContextError>,
) -> bool {
    match r {
        Ok(v) => shard_views(v@) == listed && found_in(items, v@, user, domain, limit_or_default(limit)),
        Err(e) => e is Store,
    }
}

/// Version monotonicity: two successful updates of a unit in a row raise
/// its version by exactly one each, and the store holds the latest.
pub proof fn lemma_versions_step_by_one(
    items0: Map<u128, ContextShardView>,
    items1: Map<u128, ContextShardView>,
    items2: Map<u128, ContextShardView>,
    keys0: Map<u128, Seq<u8>>,
    keys1: Map<u128, Seq<u8>>,
    keys2: Map<u128, Seq<u8>>,
    id: u128,
    first: UpdateShardInput,
    second: UpdateShardInput,
    s1: ContextShard,
    s2: ContextShard,
)
    requires
        update_outcome(items0, items1, keys0, keys1, id, first, Ok(Some(s1))),
        update_outcome(items1, items2, keys1, keys2, id, second, Ok(Some(s2))),
    ensures
        s1@.version == items0[id].version + 1,
        s2@.version == s1@.version + 1,
        items2[id] == s2@,
{
}

/// A stale version never updates: repeating the version an update just
/// consumed fails, with the conflict or a store failure, and changes nothing.
pub proof fn lemma_stale_version_rejected(
    items0: Map<u128, ContextShardView>,
    items1: Map<u128, ContextShardView>,
    items2: Map<u128, ContextShardView>,
    keys0: Map<u128, Seq<u8>>,
    keys1: Map<u128, Seq<u8>>,
    keys2: Map<u128, Seq<u8>>,
    id: u128,
    first: UpdateShardInput,
    second: UpdateShardInput,
    s1: ContextShard,
    r: Result<Option<ContextShard>, ContextError>,
)
    requires
        update_outcome(items0, items1, keys0, keys1, id, first, Ok(Some(s1))),
        update_outcome(items1, items2, keys1, keys2, id, second, r),
        second.current_version == first.current_version,
    ensures
        r matches Err(e) && (e is VersionConflict || e is Store),
        items2 == items1,
{
}

/// The unit that `input` creates with identity `id`, encrypted content
/// `content` and creation time `now`.
pub fn new_shard(input: &CreateShardInput, id: u128, content: Vec<u8>, now: i64) -> (r: ContextShard)
    ensures
        r.id == id,
        created_from(r@, *input, content@, now),
{
    ContextShard {
        id,
        user_id: input.user_id,
        domain: input.domain.clone(),
        content_type: input.content_type.clone(),
        vector_representation: copy_vector(&input.vector_representation),
        metadata: copy_metadata(&input.metadata),
        content,
        created_at: now,
        updated_at: now,
        version: 1,
    }
}

/// Whether an update that saw `current_version` may apply to `cur`: its
/// version must still be the one seen, and must have room to grow.
pub fn check_version(cur: &ContextShard, current_version: i32) -> (r: Result<(), ContextError>)
    ensures
        cur.version != current_version ==> r == Err::<(), ContextError>(ContextError::VersionConflict),
        cur.version == current_version && cur.version == i32::MAX ==> r == Err::<(), ContextError>(
            ContextError::VersionOverflow,
        ),
        cur.version == current_version && cur.version < i32::MAX ==> r is Ok,
{
    if cur.version != current_version {
        Err(ContextError::VersionConflict)
    } else if cur.version == i32::MAX {
        Err(ContextError::VersionOverflow)
    } else {
        Ok(())
    }
}

/// `cur` after `input`, with content `content` and update time `now`: the
/// fields `input` gives replace `cur`'s and the version grows by one.
pub fn apply_update(cur: &ContextShard, input: &UpdateShardInput, content: Vec<u8>, now: i64) -> (r: Result<
    ContextShard,
    ContextError,
>)
    ensures
        cur.version != input.current_version ==> r == Err::<ContextShard, ContextError>(ContextError::VersionConflict),
        cur.version == input.current_version && cur.version == i32::MAX ==> r == Err::<ContextShard, ContextError>(
            ContextError::VersionOverflow,
        ),
        cur.version == input.current_version && cur.version < i32::MAX ==> (r matches Ok(s) && s.id == cur.id
            && s@ == patched(cur@, *input, content@, now)),
{
    match check_version(cur, input.current_version) {
        Ok(()) => {},
        Err(e) => return Err(e),
    }
    let updated = ContextShard {
        id: cur.id,
        user_id: cur.user_id,
        domain: match &input.domain {
            Some(d) => d.clone(),
            None => cur.domain.clone(),
        },
        content_type: match &input.content_type {
            Some(t) => t.clone(),
            None => cur.content_type.clone(),
        },
        vector_representation: match &input.vector_representation {
            Some(v) => copy_vector(&Some(v.clone())),
            None => copy_vector(&cur.vector_representation),
        },
        metadata: match &input.metadata {
            Some(m) => copy_metadata(m),
            None => copy_metadata(&cur.metadata),
        },
        content,
        created_at: cur.created_at,
        updated_at: now,
        version: cur.version + 1,
    };
    Ok(updated)
}

/// Context units of many users, each unit's content encrypted under its
/// owner's key, kept in an item store.
pub struct ContextRepository<A: MemoryAdapter> {
    memory_adapter: A,
    encryption_service: EncryptionService,
}

impl<A: MemoryAdapter> ContextRepository<A> {
    /// The stored units, by identity.
    pub closed spec fn items(&self) -> Map<u128, ContextShardView> {
        self.memory_adapter.items()
    }

    /// The owners' keys.
    pub closed spec fn keys(&self) -> Map<u128, Seq<u8>> {
        self.encryption_service.keys()
    }

    /// What the store lists for `user`, `query`, `domain` and `limit`.
    pub closed spec fn listed(
        &self,
        user: u128,
        query: Option<Seq<char>>,
        domain: Option<Seq<char>>,
        limit: usize,
    ) -> Seq<ContextShardView> {
        self.memory_adapter.listed(user, query, domain, limit)
    }

    /// The store and the keys are consistent.
    pub closed spec fn wf(&self) -> bool {
        self.memory_adapter.wf() && self.encryption_service.wf()
    }

    /// A repository over `memory_adapter` (the remote mem0 store in a deployment,
    /// or any other store), encrypting with `encryption_service`.
    pub fn new_with_mem0(memory_adapter: A, encryption_service: EncryptionService) -> (r: ContextRepository<A>)
        requires
            memory_adapter.wf(),
            encryption_service.wf(),
        ensures
            r.wf(),
            r.items() == memory_adapter.items(),
            r.keys() == encryption_service.keys(),
    {
        ContextRepository { memory_adapter, encryption_service }
    }

    /// Creates a unit at version 1 with its content encrypted under the
    /// owner's key.
    pub fn create_shard(&mut self, input: CreateShardInput) -> (r: Result<ContextShard, ContextError>)
        requires
            old(self).wf(),
        ensures
            final(self).wf(),
            create_outcome(old(self).items(), final(self).items(), old(self).keys(), final(self).keys(), input, r),
    {
        let content = match self.encryption_service.encrypt(input.user_id, input.content.as_slice()) {
            Ok(blob) => blob,
            Err(e) => return Err(ContextError::DecryptionError(e)),
        };
        let now = now_micros();
        let shard = new_shard(&input, new_id(), content, now);
        match self.memory_adapter.store_item(shard.copy()) {
            Ok(()) => Ok(shard),
            Err(e) => Err(ContextError::Store(e)),
        }
    }

    /// The unit stored under `id`, if any.
    pub fn get_shard_by_id(&self, id: u128) -> (r: Result<Option<ContextShard>, ContextError>)
        requires
            self.wf(),
        ensures
            get_outcome(self.items(), id, r),
    {
        match self.memory_adapter.get_item(id) {
            Ok(found) => Ok(found),
            Err(e) => Err(ContextError::Store(e)),
        }
    }

    /// The unit stored under `id` with its content decrypted under the
    /// owner's key.
    pub fn get_shard_with_content(&mut self, id: u128) -> (r: Result<Option<(ContextShard, Vec<u8>)>, ContextError>)
        requires
            old(self).wf(),
        ensures
            final(self).wf(),
            final(self).items() == old(self).items(),
            read_outcome(old(self).items(), old(self).keys(), final(self).keys(), id, r),
    {
        let shard = match self.memory_adapter.get_item(id) {
            Ok(Some(s)) => s,
            Ok(None) => return Ok(None),
            Err(e) => return Err(ContextError::Store(e)),
        };
        match self.decrypt_shard(&shard) {
            Ok(plain) => Ok(Some((shard, plain))),
            Err(e) => Err(e),
        }
    }

    /// The plaintext of `shard`'s content, decrypted under its owner's key.
    pub fn decrypt_shard(&mut self, shard: &ContextShard) -> (r: Result<Vec<u8>, ContextError>)
        requires
            old(self).wf(),
        ensures
            final(self).wf(),
            final(self).items() == old(self).items(),
            opened_content(old(self).keys(), final(self).keys(), shard@, r),
    {
        match self.encryption_service.decrypt(shard.user_id, shard.content.as_slice()) {
            Ok(plain) => Ok(plain),
            Err(e) => Err(ContextError::DecryptionError(e)),
        }
    }

    /// Applies `input` to unit `id` if `input.current_version` is still its
    /// version: the version grows by one and the update time is refreshed.
    pub fn update_shard(&mut self, id: u128, input: UpdateShardInput) -> (r: Result<Option<ContextShard>, ContextError>)
        requires
            old(self).wf(),
        ensures
            final(self).wf(),
            update_outcome(old(self).items(), final(self).items(), old(self).keys(), final(self).keys(), id, input, r),
    {
        let current = match self.memory_adapter.get_item(id) {
            Ok(Some(c)) => c,
            Ok(None) => return Ok(None),
            Err(e) => return Err(ContextError::Store(e)),
        };
        match check_version(&current, input.current_version) {
            Ok(()) => {},
            Err(e) => return Err(e),
        }
        let content = match &input.content {
            Some(plain) => match self.encryption_service.encrypt(current.user_id, plain.as_slice()) {
                Ok(blob) => blob,
                Err(e) => return Err(ContextError::DecryptionError(e)),
            },
            None => {
                let c = current.content.clone();
                assert(c@ =~= current.content@);
                c
            },
        };
        let updated = match apply_update(&current, &input, content, now_micros()) {
            Ok(u) => u,
            Err(e) => return Err(e),
        };
        match self.memory_adapter.update_item(updated.copy()) {
            Ok(true) => Ok(Some(updated)),
            Ok(false) => Ok(None),
            Err(e) => Err(ContextError::Store(e)),
        }
    }

    /// Removes unit `id`; `true` when there was one.
    pub fn delete_shard(&mut self, id: u128) -> (r: Result<bool, ContextError>)
        requires
            old(self).wf(),
        ensures
            final(self).wf(),
            final(self).keys() == old(self).keys(),
            delete_outcome(old(self).items(), final(self).items(), id, r),
    {
        match self.memory_adapter.delete_item(id) {
            Ok(b) => Ok(b),
            Err(e) => Err(ContextError::Store(e)),
        }
    }

    /// `user`'s units (in `domain` when given) that the store finds for
    /// `query`; at most `limit`, 50 when not given.
    pub fn search_shards(&self, user_id: u128, query: &str, domain: Option<&str>, limit: Option<usize>) -> (r: Result<
        Vec<ContextShard>,
        ContextError,
    >)
        requires
            self.wf(),
        ensures
            search_outcome(
                self.items(),
                self.listed(user_id, Some(query@), opt_view(domain), limit_or_default(limit)),
                user_id,
                opt_view(domain),
                limit,
                r,
            ),
    {
        let limit = match limit {
            Some(l) => l,
            None => DEFAULT_SEARCH_LIMIT,
        };
        match self.memory_adapter.search_items(user_id, query, domain, limit) {
            Ok(v) => Ok(v),
            Err(e) => Err(ContextError::Store(e)),
        }
    }

    /// `user`'s units in `domain`; at most `limit`, 50 when not given.
    pub fn get_shards_by_domain(&self, user_id: u128, domain: &str, limit: Option<usize>) -> (r: Result<
        Vec<ContextShard>,
        ContextError,
    >)
        requires
            self.wf(),
        ensures
            search_outcome(
                self.items(),
                self.listed(user_id, None, Some(domain@), limit_or_default(limit)),
                user_id,
                Some(domain@),
                limit,
                r,
            ),
    {
        let limit = match limit {
            Some(l) => l,
            None => DEFAULT_SEARCH_LIMIT,
        };
        match self.memory_adapter.get_items_by_domain(user_id, domain, limit) {
            Ok(v) => Ok(v),
            Err(e) => Err(ContextError::Store(e)),
        }
    }
}

} // verus!
