use open_context_vault::authorized::{read_fetched, read_for_client, AccessError};
use open_context_vault::consent_manager::ConsentManager;
use open_context_vault::consent_models::{AuditAction, GrantAccessInput};
use open_context_vault::context_models::CreateShardInput;
use open_context_vault::context_service::ContextService;
use open_context_vault::encryption::EncryptionService;
use open_context_vault::memory_adapter::MemoryStore;
use open_context_vault::policy_engine::PolicyEngine;

const OWNER: u128 = 77;

fn unit_input(domain: &str) -> CreateShardInput {
    CreateShardInput {
        user_id: OWNER,
        domain: domain.to_string(),
        content_type: "profile".to_string(),
        vector_representation: None,
        metadata: vec![],
        content: b"{\"name\":\"Ada\"}".to_vec(),
    }
}

fn grant(domain: &str, scope: &str) -> GrantAccessInput {
    GrantAccessInput {
        user_id: OWNER,
        client_id: "app1".to_string(),
        scopes: vec![scope.to_string()],
        context_domains: vec![domain.to_string()],
        expires_at: None,
    }
}

#[test]
fn client_reads_only_with_a_read_grant() {
    let mut consent = ConsentManager::new(PolicyEngine::new());
    let mut svc = ContextService::new_with_mem0(MemoryStore::new(), EncryptionService::new().unwrap());
    let unit = svc.create_shard(unit_input("profile")).unwrap();

    assert_eq!(read_for_client(&mut consent, &mut svc, "app1", unit.id).unwrap_err(), AccessError::Denied);
    assert!(consent.get_audit_logs(OWNER, None, None).is_empty());

    consent.grant_access(grant("profile", "write")).unwrap();
    assert_eq!(read_for_client(&mut consent, &mut svc, "app1", unit.id).unwrap_err(), AccessError::Denied);

    consent.grant_access(grant("profile", "read")).unwrap();
    let (read, plain) = read_for_client(&mut consent, &mut svc, "app1", unit.id).unwrap().unwrap();
    assert_eq!(read.id, unit.id);
    assert_eq!(plain, b"{\"name\":\"Ada\"}".to_vec());
    let logs = consent.get_audit_logs(OWNER, None, None);
    assert_eq!(logs[0].action, AuditAction::Access);

    assert_eq!(read_for_client(&mut consent, &mut svc, "app2", unit.id).unwrap_err(), AccessError::Denied);
    assert!(read_for_client(&mut consent, &mut svc, "app1", 999).unwrap().is_none());
}

#[test]
fn read_fetched_checks_before_decrypting() {
    let mut consent = ConsentManager::new(PolicyEngine::new());
    let mut svc = ContextService::new_with_mem0(MemoryStore::new(), EncryptionService::new().unwrap());
    let unit = svc.create_shard(unit_input("profile")).unwrap();
    assert_eq!(read_fetched(&mut consent, &mut svc, "app1", unit.clone()).unwrap_err(), AccessError::Denied);
    consent.grant_access(grant("profile", "read")).unwrap();
    let (same, plain) = read_fetched(&mut consent, &mut svc, "app1", unit.clone()).unwrap();
    assert_eq!(same.id, unit.id);
    assert_eq!(plain, b"{\"name\":\"Ada\"}".to_vec());
}
