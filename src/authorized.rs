//! Reads of a user's context on behalf of a third-party client, gated by
//! the consent check.

use vstd::prelude::*;
use crate::consent_manager::{checked_now, consent_unchanged, ConsentManager};
use crate::context_models::{ContextShard, ContextShardView};
use crate::context_repository::{opened_content, ContextError};
use crate::context_service::ContextService;
use crate::memory_adapter::MemoryAdapter;

verus! {

/// Why a client's read was refused or failed.
#[derive(Clone, Debug, PartialEq, Eq)]
pub enum AccessError {
    /// No grant in force lets the client read the unit's domain.
    Denied,
    Context(ContextError),
}

/// The scope a read needs.
pub open spec fn read_scope() -> Seq<char> {
    "read"@
}

/// What reading `unit` for `client` did: the consent check ran on the
/// unit's owner and domain with the "read" scope; a refusal is `Denied`
/// and decrypts nothing, an allowed read decrypts the content.
pub open spec fn client_read_outcome(
    consent0: ConsentManager,
    consent1: ConsentManager,
    keys0: Map<u128, Seq<u8>>,
    keys1: Map<u128, Seq<u8>>,
    unit: ContextShardView,
    client: Seq<char>,
    r: Result<(ContextShard, Vec<u8>), AccessError>,
) -> bool {
    match r {
        Err(AccessError::Denied) => {
            &&& checked_now(consent0, consent1, unit.user_id, client, unit.domain, read_scope(), false)
            &&& keys1 == keys0
        },
        Ok((s, p)) => {
            &&& checked_now(consent0, consent1, unit.user_id, client, unit.domain, read_scope(), true)
            &&& s@ == unit
            &&& opened_content(keys0, keys1, unit, Ok(p))
        },
        Err(AccessError::Context(e)) => {
            &&& checked_now(consent0, consent1, unit.user_id, client, unit.domain, read_scope(), true)
            &&& opened_content(keys0, keys1, unit, Err(e))
        },
    }
}

/// Reads the fetched `unit` for `client_id`: its content is decrypted only
/// once the consent check has found a grant in force from the unit's owner,
/// for the unit's domain, with the "read" scope.
pub fn read_fetched<A: MemoryAdapter>(
    consent: &mut ConsentManager,
    service: &mut ContextService<A>,
    client_id: &str,
    unit: ContextShard,
) -> (r: Result<(ContextShard, Vec<u8>), AccessError>)
    requires
        old(service).wf(),
    ensures
        final(service).wf(),
        final(service).items() == old(service).items(),
        client_read_outcome(*old(consent), *final(consent), old(service).keys(), final(service).keys(), unit@, client_id@, r),
{
    if !consent.check_access(unit.user_id, client_id, unit.domain.as_str(), "read") {
        return Err(AccessError::Denied);
    }
    match service.decrypt_shard(&unit) {
        Ok(plain) => Ok((unit, plain)),
        Err(e) => Err(AccessError::Context(e)),
    }
}

/// Reads unit `id` with its plaintext for `client_id`: the unit is fetched,
/// then read as `read_fetched` says.
pub fn read_for_client<A: MemoryAdapter>(
    consent: &mut ConsentManager,
    service: &mut ContextService<A>,
    client_id: &str,
    id: u128,
) -> (r: Result<Option<(ContextShard, Vec<u8>)>, AccessError>)
    requires
        old(service).wf(),
    ensures
        final(service).wf(),
        final(service).items() == old(service).items(),
        match r {
            Ok(None) => {
                &&& !old(service).items().contains_key(id)
                &&& final(service).keys() == old(service).keys()
                &&& consent_unchanged(*old(consent), *final(consent))
            },
            Err(AccessError::Context(ContextError::Store(_))) => {
                &&& final(service).keys() == old(service).keys()
                &&& consent_unchanged(*old(consent), *final(consent))
            },
            Ok(Some(found)) => old(service).items().contains_key(id) && client_read_outcome(
                *old(consent), *final(consent), old(service).keys(), final(service).keys(),
                old(service).items()[id], client_id@, Ok(found)),
            Err(e) => old(service).items().contains_key(id) && client_read_outcome(
                *old(consent), *final(consent), old(service).keys(), final(service).keys(),
                old(service).items()[id], client_id@, Err(e)),
        },
{
    let unit = match service.get_shard(id) {
        Ok(Some(u)) => u,
        Ok(None) => return Ok(None),
        Err(e) => return Err(AccessError::Context(e)),
    };
    match read_fetched(consent, service, client_id, unit) {
        Ok(found) => Ok(Some(found)),
        Err(e) => Err(e),
    }
}

} // verus!
