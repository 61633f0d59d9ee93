use open_context_vault::api::{ApiError, ConsentMutation, ConsentQuery, ContextMutation, ContextQuery};
use open_context_vault::consent_manager::ConsentManager;
use open_context_vault::consent_models::GrantAccessInput;
use open_context_vault::context_models::{CreateShardInput, UpdateShardInput};
use open_context_vault::context_repository::ContextError;
use open_context_vault::context_service::ContextService;
use open_context_vault::encryption::EncryptionService;
use open_context_vault::memory_adapter::MemoryStore;
use open_context_vault::policy_engine::PolicyEngine;

const USER_TEXT: &str = "67e55044-10b1-426f-9247-bb680e5fe0c8";
const USER: u128 = 0x67e55044_10b1_426f_9247_bb680e5fe0c8;

fn uuid_text(v: u128) -> String {
    let h = format!("{:032x}", v);
    format!("{}-{}-{}-{}-{}", &h[0..8], &h[8..12], &h[12..16], &h[16..20], &h[20..32])
}

#[test]
fn textual_ids_are_parsed() {
    let mut m = ConsentManager::new(PolicyEngine::new());
    let g = ConsentMutation
        .grant_access(
            &mut m,
            GrantAccessInput {
                user_id: USER,
                client_id: "app1".to_string(),
                scopes: vec!["read".to_string()],
                context_domains: vec!["travel".to_string()],
                expires_at: None,
            },
        )
        .unwrap();
    assert_eq!(ConsentQuery.active_grants(&m, USER_TEXT).unwrap().len(), 1);
    assert_eq!(ConsentQuery.check_access(&mut m, USER_TEXT, "app1", "travel", "read"), Ok(true));
    let braced = format!("{{{}}}", USER_TEXT);
    assert_eq!(ConsentQuery.check_access(&mut m, &braced, "app1", "travel", "read"), Ok(true));
    let logs = ConsentQuery.audit_logs(&m, USER_TEXT, Some(10), None).unwrap();
    assert_eq!(logs.len(), 3);
    assert_eq!(ConsentMutation.revoke_access(&mut m, &uuid_text(g.id), USER_TEXT, "app1"), Ok(true));
    assert_eq!(ConsentQuery.check_access(&mut m, USER_TEXT, "app1", "travel", "read"), Ok(false));
}

#[test]
fn malformed_ids_are_refused() {
    let mut m = ConsentManager::new(PolicyEngine::new());
    assert_eq!(
        ConsentQuery.check_access(&mut m, "not-a-uuid", "app1", "travel", "read"),
        Err(ApiError::InvalidId("not-a-uuid".to_string()))
    );
    assert!(ConsentQuery.active_grants(&m, "").is_err());
    assert_eq!(
        ConsentMutation.revoke_access(&mut m, "x", USER_TEXT, "app1"),
        Err(ApiError::InvalidId("x".to_string()))
    );
    assert!(ConsentQuery.audit_logs(&m, USER_TEXT, None, None).unwrap().is_empty());
}

#[test]
fn negative_limits_are_refused() {
    let m = ConsentManager::new(PolicyEngine::new());
    assert_eq!(ConsentQuery.audit_logs(&m, USER_TEXT, Some(-1), None).unwrap_err(), ApiError::InvalidLimit);
    assert_eq!(ConsentQuery.audit_logs(&m, USER_TEXT, None, Some(-5)).unwrap_err(), ApiError::InvalidLimit);
    let svc = ContextService::new_with_mem0(MemoryStore::new(), EncryptionService::new().unwrap());
    assert_eq!(ContextQuery.search_shards(&svc, USER_TEXT, "x", None, Some(-1)).unwrap_err(), ApiError::InvalidLimit);
}

#[test]
fn context_roots_parse_ids() {
    let mut svc = ContextService::new_with_mem0(MemoryStore::new(), EncryptionService::new().unwrap());
    let unit = ContextMutation
        .create_shard(
            &mut svc,
            CreateShardInput {
                user_id: USER,
                domain: "travel".to_string(),
                content_type: "preferences".to_string(),
                vector_representation: None,
                metadata: vec![],
                content: b"{\"seat\":\"aisle\"}".to_vec(),
            },
        )
        .unwrap();
    let id = uuid_text(unit.id);
    assert_eq!(ContextQuery.context_shard(&svc, &id).unwrap().unwrap().version, 1);
    let (_, plain) = ContextQuery.context_shard_with_content(&mut svc, &id).unwrap().unwrap();
    assert_eq!(plain, b"{\"seat\":\"aisle\"}".to_vec());
    assert_eq!(ContextQuery.shards_by_domain(&svc, USER_TEXT, "travel", Some(5)).unwrap().len(), 1);
    assert_eq!(ContextQuery.search_shards(&svc, USER_TEXT, "pref", None, None).unwrap().len(), 1);
    let change = |v: i32| UpdateShardInput {
        domain: None,
        content_type: None,
        vector_representation: None,
        metadata: None,
        content: None,
        current_version: v,
    };
    assert_eq!(ContextMutation.update_shard(&mut svc, &id, change(1)).unwrap().unwrap().version, 2);
    assert_eq!(
        ContextMutation.update_shard(&mut svc, &id, change(1)).unwrap_err(),
        ApiError::Context(ContextError::VersionConflict)
    );
    assert!(matches!(ContextQuery.context_shard(&svc, "zzz"), Err(ApiError::InvalidId(_))));
    assert_eq!(ContextMutation.delete_shard(&mut svc, &id), Ok(true));
    assert_eq!(ContextMutation.delete_shard(&mut svc, &id), Ok(false));
}
