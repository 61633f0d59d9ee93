use open_context_vault::context_models::{CreateShardInput, UpdateShardInput};
use open_context_vault::context_repository::{apply_update, new_shard, ContextError};
use open_context_vault::context_service::ContextService;
use open_context_vault::encryption::{CipherError, EncryptionService};
use open_context_vault::memory_adapter::{classify_status, MemoryAdapter, MemoryStore, StatusClass};

const OWNER: u128 = 0xabc;

fn service() -> ContextService<MemoryStore> {
    ContextService::new_with_mem0(MemoryStore::new(), EncryptionService::new().unwrap())
}

fn create_input(owner: u128, domain: &str, content: &[u8]) -> CreateShardInput {
    CreateShardInput {
        user_id: owner,
        domain: domain.to_string(),
        content_type: "preferences".to_string(),
        vector_representation: Some(vec![1.5f32.to_bits(), (-2.0f32).to_bits()]),
        metadata: vec![("source".to_string(), "\"survey\"".to_string())],
        content: content.to_vec(),
    }
}

fn no_change(version: i32) -> UpdateShardInput {
    UpdateShardInput {
        domain: None,
        content_type: None,
        vector_representation: None,
        metadata: None,
        content: None,
        current_version: version,
    }
}

#[test]
fn create_starts_at_version_one_encrypted() {
    let mut svc = service();
    let content = b"{\"seat\":\"aisle\"}";
    let unit = svc.create_shard(create_input(OWNER, "travel", content)).unwrap();
    assert_eq!(unit.version, 1);
    assert_eq!(unit.user_id, OWNER);
    assert_eq!(unit.domain, "travel");
    assert_eq!(unit.created_at, unit.updated_at);
    assert_ne!(unit.content, content.to_vec());
    let (read, plain) = svc.get_shard_with_content(unit.id).unwrap().unwrap();
    assert_eq!(read.id, unit.id);
    assert_eq!(plain, content.to_vec());
    let got = svc.get_shard(unit.id).unwrap().unwrap();
    assert_eq!(got.version, 1);
    assert_eq!(got.metadata, vec![("source".to_string(), "\"survey\"".to_string())]);
    assert_eq!(got.vector_representation, Some(vec![1.5f32.to_bits(), (-2.0f32).to_bits()]));
}

#[test]
fn stale_version_conflicts() {
    let mut svc = service();
    let unit = svc.create_shard(create_input(OWNER, "travel", b"{}")).unwrap();
    let first = svc.update_shard(unit.id, no_change(1)).unwrap().unwrap();
    assert_eq!(first.version, 2);
    let second = svc.update_shard(unit.id, no_change(1));
    assert_eq!(second.unwrap_err(), ContextError::VersionConflict);
    assert_eq!(svc.get_shard(unit.id).unwrap().unwrap().version, 2);
}

#[test]
fn successive_updates_step_version_by_one() {
    let mut svc = service();
    let unit = svc.create_shard(create_input(OWNER, "travel", b"{}")).unwrap();
    let mut version = unit.version;
    for _ in 0..4 {
        let next = svc.update_shard(unit.id, no_change(version)).unwrap().unwrap();
        assert_eq!(next.version, version + 1);
        version = next.version;
    }
    assert_eq!(version, 5);
}

#[test]
fn conflicting_update_leaves_unit_unchanged() {
    let mut svc = service();
    let unit = svc.create_shard(create_input(OWNER, "travel", b"{\"a\":1}")).unwrap();
    let mut change = no_change(7);
    change.domain = Some("shopping".to_string());
    change.content = Some(b"{\"a\":2}".to_vec());
    assert_eq!(svc.update_shard(unit.id, change).unwrap_err(), ContextError::VersionConflict);
    let (after, plain) = svc.get_shard_with_content(unit.id).unwrap().unwrap();
    assert_eq!(after.version, 1);
    assert_eq!(after.domain, "travel");
    assert_eq!(after.content, unit.content);
    assert_eq!(plain, b"{\"a\":1}".to_vec());
}

#[test]
fn update_replaces_fields_and_reencrypts() {
    let mut svc = service();
    let unit = svc.create_shard(create_input(OWNER, "travel", b"{\"a\":1}")).unwrap();
    let change = UpdateShardInput {
        domain: Some("shopping".to_string()),
        content_type: None,
        vector_representation: None,
        metadata: Some(vec![]),
        content: Some(b"{\"a\":2}".to_vec()),
        current_version: 1,
    };
    let updated = svc.update_shard(unit.id, change).unwrap().unwrap();
    assert_eq!(updated.domain, "shopping");
    assert_eq!(updated.content_type, "preferences");
    assert!(updated.metadata.is_empty());
    assert_eq!(updated.created_at, unit.created_at);
    assert_ne!(updated.content, unit.content);
    let (_, plain) = svc.get_shard_with_content(unit.id).unwrap().unwrap();
    assert_eq!(plain, b"{\"a\":2}".to_vec());
}

#[test]
fn update_of_missing_unit_is_absent() {
    let mut svc = service();
    assert!(svc.update_shard(42, no_change(1)).unwrap().is_none());
}

#[test]
fn delete_reports_existence() {
    let mut svc = service();
    let unit = svc.create_shard(create_input(OWNER, "travel", b"{}")).unwrap();
    assert_eq!(svc.delete_shard(unit.id), Ok(true));
    assert_eq!(svc.delete_shard(unit.id), Ok(false));
    assert!(svc.get_shard(unit.id).unwrap().is_none());
    assert!(svc.get_shard_with_content(unit.id).unwrap().is_none());
}

#[test]
fn content_under_another_key_is_a_decryption_error() {
    let mut svc = service();
    let unit = svc.create_shard(create_input(OWNER, "travel", b"{}")).unwrap();
    let mut store = MemoryStore::new();
    store.store_item(unit.clone()).unwrap();
    let mut foreign = ContextService::new_with_mem0(store, EncryptionService::new().unwrap());
    assert_eq!(
        foreign.get_shard_with_content(unit.id).unwrap_err(),
        ContextError::DecryptionError(CipherError::AuthenticationFailed)
    );
}

#[test]
fn truncated_content_is_invalid_ciphertext() {
    let mut svc = service();
    let mut unit = svc.create_shard(create_input(OWNER, "travel", b"{}")).unwrap();
    unit.content.truncate(10);
    let mut store = MemoryStore::new();
    store.store_item(unit.clone()).unwrap();
    let mut broken = ContextService::new_with_mem0(store, EncryptionService::new().unwrap());
    assert_eq!(
        broken.get_shard_with_content(unit.id).unwrap_err(),
        ContextError::DecryptionError(CipherError::InvalidCiphertext)
    );
}

#[test]
fn by_domain_and_search_stay_in_scope() {
    let mut svc = service();
    svc.create_shard(create_input(OWNER, "travel", b"{}")).unwrap();
    svc.create_shard(create_input(OWNER, "travel", b"{}")).unwrap();
    svc.create_shard(create_input(OWNER, "shopping", b"{}")).unwrap();
    svc.create_shard(create_input(0xdef, "travel", b"{}")).unwrap();
    let travel = svc.get_shards_by_domain(OWNER, "travel", None).unwrap();
    assert_eq!(travel.len(), 2);
    assert!(travel.iter().all(|u| u.user_id == OWNER && u.domain == "travel"));
    assert_eq!(svc.get_shards_by_domain(OWNER, "travel", Some(1)).unwrap().len(), 1);
    let found = svc.search_shards(OWNER, "survey", None, None).unwrap();
    assert_eq!(found.len(), 3);
    let found = svc.search_shards(OWNER, "shop", None, None).unwrap();
    assert_eq!(found.len(), 1);
    assert_eq!(found[0].domain, "shopping");
    let found = svc.search_shards(OWNER, "survey", Some("shopping"), None).unwrap();
    assert_eq!(found.len(), 1);
    assert!(svc.search_shards(OWNER, "nothing-like-this", None, None).unwrap().is_empty());
}

#[test]
fn search_default_limit_is_fifty() {
    let mut svc = service();
    for _ in 0..55 {
        svc.create_shard(create_input(OWNER, "travel", b"{}")).unwrap();
    }
    assert_eq!(svc.get_shards_by_domain(OWNER, "travel", None).unwrap().len(), 50);
    assert_eq!(svc.search_shards(OWNER, "travel", None, None).unwrap().len(), 50);
    assert_eq!(svc.search_shards(OWNER, "travel", None, Some(55)).unwrap().len(), 55);
}

#[test]
fn largest_version_cannot_grow() {
    let mut svc = service();
    let mut unit = svc.create_shard(create_input(OWNER, "travel", b"{}")).unwrap();
    unit.version = i32::MAX;
    let mut store = MemoryStore::new();
    store.store_item(unit.clone()).unwrap();
    let mut full = ContextService::new_with_mem0(store, EncryptionService::new().unwrap());
    assert_eq!(full.update_shard(unit.id, no_change(i32::MAX)).unwrap_err(), ContextError::VersionOverflow);
    assert_eq!(full.get_shard(unit.id).unwrap().unwrap().version, i32::MAX);
}

#[test]
fn apply_update_decides_on_the_fetched_unit() {
    let input = create_input(OWNER, "travel", b"ignored");
    let unit = new_shard(&input, 9, vec![1, 2, 3], 100);
    assert_eq!(unit.id, 9);
    assert_eq!(unit.version, 1);
    assert_eq!(unit.created_at, 100);
    assert_eq!(unit.updated_at, 100);
    assert_eq!(unit.content, vec![1, 2, 3]);

    assert_eq!(apply_update(&unit, &no_change(2), vec![], 200).unwrap_err(), ContextError::VersionConflict);
    let mut change = no_change(1);
    change.content_type = Some("history".to_string());
    let next = apply_update(&unit, &change, vec![7], 200).unwrap();
    assert_eq!(next.id, 9);
    assert_eq!(next.version, 2);
    assert_eq!(next.content_type, "history");
    assert_eq!(next.domain, "travel");
    assert_eq!(next.content, vec![7]);
    assert_eq!(next.created_at, 100);
    assert_eq!(next.updated_at, 200);

    let mut full = unit.clone();
    full.version = i32::MAX;
    assert_eq!(apply_update(&full, &no_change(i32::MAX), vec![], 200).unwrap_err(), ContextError::VersionOverflow);
}

#[test]
fn store_status_classes() {
    assert_eq!(classify_status(200), StatusClass::Success);
    assert_eq!(classify_status(204), StatusClass::Success);
    assert_eq!(classify_status(404), StatusClass::Absent);
    assert_eq!(classify_status(409), StatusClass::Absent);
    assert_eq!(classify_status(500), StatusClass::Failure);
    assert_eq!(classify_status(301), StatusClass::Failure);
}

#[test]
fn search_passes_on_the_store_answer_in_order() {
    let mut svc = service();
    let a = svc.create_shard(create_input(OWNER, "travel", b"{}")).unwrap();
    let b = svc.create_shard(create_input(OWNER, "travel", b"{}")).unwrap();
    let found = svc.get_shards_by_domain(OWNER, "travel", None).unwrap();
    assert_eq!(found.iter().map(|u| u.id).collect::<Vec<_>>(), vec![a.id, b.id]);
}
