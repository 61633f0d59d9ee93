//! The entry point for storing and reading a user's context units.

use vstd::prelude::*;
use crate::context_models::{ContextShard, ContextShardView, CreateShardInput, UpdateShardInput};
use crate::context_repository::{
    create_outcome, delete_outcome, get_outcome, limit_or_default, opened_content, read_outcome, search_outcome,
    update_outcome,
    ContextError, ContextRepository,
};
use crate::encryption::EncryptionService;
use crate::memory_adapter::{opt_view, MemoryAdapter};

verus! {

/// Creates, reads, updates, deletes and searches context units. It checks
/// no consent: callers decide who may reach a unit.
pub struct ContextService<A: MemoryAdapter> {
    repository: ContextRepository<A>,
}

impl<A: MemoryAdapter> ContextService<A> {
    /// The stored units, by identity.
    pub closed spec fn items(&self) -> Map<u128, ContextShardView> {
        self.repository.items()
    }

    /// The owners' keys.
    pub closed spec fn keys(&self) -> Map<u128, Seq<u8>> {
        self.repository.keys()
    }

    /// What the store lists for `user`, `query`, `domain` and `limit`.
    pub closed spec fn listed(
        &self,
        user: u128,
        query: Option<Seq<char>>,
        domain: Option<Seq<char>>,
        limit: usize,
    ) -> Seq<ContextShardView> {
        self.repository.listed(user, query, domain, limit)
    }

    /// The store and the keys are consistent.
    pub closed spec fn wf(&self) -> bool {
        self.repository.wf()
    }

    /// A service over `memory_adapter` (the remote mem0 store in a deployment,
    /// or any other store), encrypting with `encryption_service`.
    pub fn new_with_mem0(memory_adapter: A, encryption_service: EncryptionService) -> (r: ContextService<A>)
        requires
            memory_adapter.wf(),
            encryption_service.wf(),
        ensures
            r.wf(),
            r.items() == memory_adapter.items(),
            r.keys() == encryption_service.keys(),
    {
        ContextService { repository: ContextRepository::new_with_mem0(memory_adapter, encryption_service) }
    }

    /// Creates a unit at version 1 with its content encrypted under the
    /// owner's key; the unit comes back with its content still encrypted.
    pub fn create_shard(&mut self, input: CreateShardInput) -> (r: Result<ContextShard, ContextError>)
        requires
            old(self).wf(),
        ensures
            final(self).wf(),
            create_outcome(old(self).items(), final(self).items(), old(self).keys(), final(self).keys(), input, r),
    {
        self.repository.create_shard(input)
    }

    /// The unit stored under `id`, if any.
    pub fn get_shard(&self, id: u128) -> (r: Result<Option<ContextShard>, ContextError>)
        requires
            self.wf(),
        ensures
            get_outcome(self.items(), id, r),
    {
        self.repository.get_shard_by_id(id)
    }

    /// The unit stored under `id` with its plaintext content. A content
    /// that fails to decrypt is an error, never an empty result.
    pub fn get_shard_with_content(&mut self, id: u128) -> (r: Result<Option<(ContextShard, Vec<u8>)>, ContextError>)
        requires
            old(self).wf(),
        ensures
            final(self).wf(),
            final(self).items() == old(self).items(),
            read_outcome(old(self).items(), old(self).keys(), final(self).keys(), id, r),
    {
        self.repository.get_shard_with_content(id)
    }

    /// The plaintext of `shard`'s content, decrypted under its owner's key.
    pub fn decrypt_shard(&mut self, shard: &ContextShard) -> (r: Result<Vec<u8>, ContextError>)
        requires
            old(self).wf(),
        ensures
            final(self).wf(),
            final(self).items() == old(self).items(),
            opened_content(old(self).keys(), final(self).keys(), shard@, r),
    {
        self.repository.decrypt_shard(shard)
    }

    /// Applies `input` to unit `id` if `input.current_version` is still its
    /// version.
    pub fn update_shard(&mut self, id: u128, input: UpdateShardInput) -> (r: Result<Option<ContextShard>, ContextError>)
        requires
            old(self).wf(),
        ensures
            final(self).wf(),
            update_outcome(old(self).items(), final(self).items(), old(self).keys(), final(self).keys(), id, input, r),
    {
        self.repository.update_shard(id, input)
    }

    /// Removes unit `id`; `true` when there was one.
    pub fn delete_shard(&mut self, id: u128) -> (r: Result<bool, ContextError>)
        requires
            old(self).wf(),
        ensures
            final(self).wf(),
            final(self).keys() == old(self).keys(),
            delete_outcome(old(self).items(), final(self).items(), id, r),
    {
        self.repository.delete_shard(id)
    }

    /// `user`'s units (in `domain` when given) that the store finds for
    /// `query`; at most `limit`, 50 when not given.
    pub fn search_shards(&self, user_id: u128, query: &str, domain: Option<&str>, limit: Option<usize>) -> (r: Result<
        Vec<ContextShard>,
        ContextError,
    >)
        requires
            self.wf(),
        ensures
            search_outcome(
                self.items(),
                self.listed(user_id, Some(query@), opt_view(domain), limit_or_default(limit)),
                user_id,
                opt_view(domain),
                limit,
                r,
            ),
    {
        self.repository.search_shards(user_id, query, domain, limit)
    }

    /// `user`'s units in `domain`; at most `limit`, 50 when not given.
    pub fn get_shards_by_domain(&self, user_id: u128, domain: &str, limit: Option<usize>) -> (r: Result<
        Vec<ContextShard>,
        ContextError,
    >)
        requires
            self.wf(),
        ensures
            search_outcome(
                self.items(),
                self.listed(user_id, None, Some(domain@), limit_or_default(limit)),
                user_id,
                Some(domain@),
                limit,
                r,
            ),
    {
        self.repository.get_shards_by_domain(user_id, domain, limit)
    }
}

} // verus!
