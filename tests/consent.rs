use open_context_vault::consent_manager::ConsentManager;
use open_context_vault::consent_models::{AuditAction, AuditDetails, GrantAccessInput};
use open_context_vault::consent_repository::ConsentRepository;
use open_context_vault::policy_engine::PolicyEngine;

const U: u128 = 0x1111;

fn grant_input(user: u128, client: &str, scopes: &[&str], domains: &[&str], expires_at: Option<i64>) -> GrantAccessInput {
    GrantAccessInput {
        user_id: user,
        client_id: client.to_string(),
        scopes: scopes.iter().map(|s| s.to_string()).collect(),
        context_domains: domains.iter().map(|s| s.to_string()).collect(),
        expires_at,
    }
}

fn manager() -> ConsentManager {
    ConsentManager::new(PolicyEngine::new())
}

#[test]
fn end_to_end_grant_check_revoke() {
    let mut m = manager();
    let g = m.grant_access(grant_input(U, "app1", &["read"], &["travel"], None)).unwrap();
    assert_eq!(g.user_id, U);
    assert_eq!(g.client_id, "app1");
    assert_eq!(m.get_audit_logs(U, None, None).len(), 1);

    assert!(m.check_access(U, "app1", "travel", "read"));
    let logs = m.get_audit_logs(U, None, None);
    assert_eq!(logs.len(), 2);
    assert_eq!(logs[0].action, AuditAction::Access);
    match &logs[0].details {
        AuditDetails::Access { domain, scope, success } => {
            assert_eq!(domain, "travel");
            assert_eq!(scope, "read");
            assert!(*success);
        }
        _ => panic!("expected access details"),
    }

    assert!(!m.check_access(U, "app1", "shopping", "read"));
    assert_eq!(m.get_audit_logs(U, None, None).len(), 2);

    assert_eq!(m.revoke_grant(g.id, U, "app1"), Ok(true));
    assert!(!m.check_access(U, "app1", "travel", "read"));
    let logs = m.get_audit_logs(U, None, None);
    assert_eq!(logs.len(), 3);
    assert_eq!(logs[0].action, AuditAction::Revoke);
}

#[test]
fn grant_is_audited_once() {
    let mut m = manager();
    let g = m.grant_access(grant_input(U, "app1", &["read", "write"], &["travel"], Some(99))).unwrap();
    let logs = m.get_audit_logs(U, None, None);
    assert_eq!(logs.len(), 1);
    assert_eq!(logs[0].action, AuditAction::Grant);
    assert_eq!(logs[0].user_id, U);
    assert_eq!(logs[0].client_id, "app1");
    match &logs[0].details {
        AuditDetails::Grant { grant_id, scopes, domains, expires_at } => {
            assert_eq!(*grant_id, g.id);
            assert_eq!(scopes, &vec!["read".to_string(), "write".to_string()]);
            assert_eq!(domains, &vec!["travel".to_string()]);
            assert_eq!(*expires_at, Some(99));
        }
        _ => panic!("expected grant details"),
    }
}

#[test]
fn revoke_is_audited_with_prior_scopes() {
    let mut m = manager();
    let g = m.grant_access(grant_input(U, "app1", &["read"], &["travel"], None)).unwrap();
    assert_eq!(m.revoke_grant(g.id, U, "app1"), Ok(true));
    let logs = m.get_audit_logs(U, None, None);
    assert_eq!(logs.len(), 2);
    assert_eq!(logs[0].action, AuditAction::Revoke);
    assert_eq!(logs[0].user_id, U);
    match &logs[0].details {
        AuditDetails::Revoke { grant_id, scopes, domains } => {
            assert_eq!(*grant_id, g.id);
            assert_eq!(scopes, &vec!["read".to_string()]);
            assert_eq!(domains, &vec!["travel".to_string()]);
        }
        _ => panic!("expected revoke details"),
    }
}

#[test]
fn revoking_inactive_grant_is_a_no_op() {
    let mut m = manager();
    let g = m.grant_access(grant_input(U, "app1", &["read"], &["travel"], None)).unwrap();
    assert_eq!(m.revoke_grant(12345, U, "app1"), Ok(false));
    assert_eq!(m.revoke_grant(g.id, 0x2222, "app1"), Ok(false));
    assert_eq!(m.get_audit_logs(U, None, None).len(), 1);
    assert_eq!(m.revoke_grant(g.id, U, "app1"), Ok(true));
    assert_eq!(m.revoke_grant(g.id, U, "app1"), Ok(false));
    assert_eq!(m.get_audit_logs(U, None, None).len(), 2);
}

#[test]
fn expired_grant_is_inactive_and_denies_access() {
    let mut m = manager();
    let g = m.grant_access_at(grant_input(U, "app1", &["read"], &["travel"], Some(1_000)), 500).unwrap();
    assert_eq!(m.get_active_grants_at(U, 999).len(), 1);
    assert!(m.check_access_at(U, "app1", "travel", "read", 999));
    assert_eq!(m.get_active_grants_at(U, 1_000).len(), 0);
    assert!(!m.check_access_at(U, "app1", "travel", "read", 1_000));
    assert!(!m.check_access_at(U, "app1", "travel", "read", 5_000));
    assert_eq!(m.revoke_grant_at(g.id, U, "app1", 2_000), Ok(false));
}

#[test]
fn grant_in_the_past_never_active_now() {
    let mut m = manager();
    m.grant_access(grant_input(U, "app1", &["read"], &["travel"], Some(1))).unwrap();
    assert!(m.get_active_grants(U).is_empty());
    assert!(!m.check_access(U, "app1", "travel", "read"));
    assert_eq!(m.get_audit_logs(U, None, None).len(), 1);
}

#[test]
fn check_access_needs_matching_client_domain_and_scope() {
    let mut m = manager();
    m.grant_access_at(grant_input(U, "app1", &["read"], &["travel", "food"], None), 0).unwrap();
    assert!(m.check_access_at(U, "app1", "food", "read", 10));
    assert!(!m.check_access_at(U, "app2", "food", "read", 10));
    assert!(!m.check_access_at(U, "app1", "food", "write", 10));
    assert!(!m.check_access_at(0x2222, "app1", "food", "read", 10));
}

#[test]
fn active_grants_are_per_user() {
    let mut m = manager();
    m.grant_access_at(grant_input(U, "app1", &["read"], &["travel"], None), 0).unwrap();
    m.grant_access_at(grant_input(0x2222, "app1", &["read"], &["travel"], None), 0).unwrap();
    m.grant_access_at(grant_input(U, "app2", &["write"], &["food"], Some(50)), 0).unwrap();
    let active = m.get_active_grants_at(U, 10);
    assert_eq!(active.len(), 2);
    assert!(active.iter().all(|g| g.user_id == U));
    assert_eq!(m.get_active_grants_at(U, 60).len(), 1);
}

#[test]
fn audit_logs_page_newest_first() {
    let mut m = manager();
    for i in 0..5 {
        m.grant_access_at(grant_input(U, "app1", &["read"], &["travel"], None), i).unwrap();
    }
    m.grant_access_at(grant_input(0x2222, "app1", &["read"], &["travel"], None), 9).unwrap();
    let all = m.get_audit_logs(U, None, None);
    assert_eq!(all.len(), 5);
    let times: Vec<i64> = all.iter().map(|l| l.timestamp).collect();
    assert_eq!(times, vec![4, 3, 2, 1, 0]);
    let page: Vec<i64> = m.get_audit_logs(U, Some(2), Some(1)).iter().map(|l| l.timestamp).collect();
    assert_eq!(page, vec![3, 2]);
    assert!(m.get_audit_logs(U, Some(2), Some(10)).is_empty());
    assert!(m.get_audit_logs(U, Some(0), None).is_empty());
}

#[test]
fn audit_logs_default_limit_is_fifty() {
    let mut m = manager();
    for i in 0..60 {
        m.grant_access_at(grant_input(U, "app1", &["read"], &["travel"], None), i).unwrap();
    }
    let logs = m.get_audit_logs(U, None, None);
    assert_eq!(logs.len(), 50);
    assert_eq!(logs[0].timestamp, 59);
}

#[test]
fn repository_revoke_removes_row() {
    let mut r = ConsentRepository::new();
    let g = r.create_grant(&grant_input(U, "app1", &["read"], &["travel"], Some(10)), 0);
    assert_eq!(g.created_at, 0);
    assert_eq!(r.get_active_grants(U, 20).len(), 0);
    assert!(r.revoke_grant(g.id));
    assert!(!r.revoke_grant(g.id));
}

#[test]
fn audit_logs_order_by_time_even_when_clock_steps_back() {
    let mut m = manager();
    for t in [5, 3, 9, 3] {
        m.grant_access_at(grant_input(U, "app1", &["read"], &["travel"], None), t).unwrap();
    }
    let logs = m.get_audit_logs(U, None, None);
    let times: Vec<i64> = logs.iter().map(|l| l.timestamp).collect();
    assert_eq!(times, vec![9, 5, 3, 3]);
    let grant_ids: Vec<u128> = logs
        .iter()
        .map(|l| match &l.details {
            AuditDetails::Grant { grant_id, .. } => *grant_id,
            _ => panic!("expected grant details"),
        })
        .collect();
    let active = m.get_active_grants_at(U, 0);
    assert_eq!(grant_ids[2], active[3].id);
    assert_eq!(grant_ids[3], active[1].id);
}
