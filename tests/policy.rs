use open_context_vault::policy_engine::{PolicyAction, PolicyEngine, PolicyError, PolicyInput};

fn input(action: PolicyAction, user: Option<u128>, grant_id: Option<u128>) -> PolicyInput {
    PolicyInput {
        user,
        action,
        client: Some("app1".to_string()),
        grant_id,
        domains: vec!["travel".to_string()],
        scopes: vec!["read".to_string()],
    }
}

#[test]
fn consent_allows_grant_with_user() {
    let engine = PolicyEngine::new();
    assert_eq!(engine.evaluate("consent", &input(PolicyAction::Grant, Some(1), None)), Ok(true));
}

#[test]
fn consent_denies_grant_without_user() {
    let engine = PolicyEngine::new();
    assert_eq!(engine.evaluate("consent", &input(PolicyAction::Grant, None, None)), Ok(false));
}

#[test]
fn consent_revoke_needs_user_and_grant() {
    let engine = PolicyEngine::new();
    assert_eq!(engine.evaluate("consent", &input(PolicyAction::Revoke, Some(1), Some(9))), Ok(true));
    assert_eq!(engine.evaluate("consent", &input(PolicyAction::Revoke, Some(1), None)), Ok(false));
    assert_eq!(engine.evaluate("consent", &input(PolicyAction::Revoke, None, Some(9))), Ok(false));
}

#[test]
fn consent_denies_other_actions() {
    let engine = PolicyEngine::new();
    let other = input(PolicyAction::Other("share".to_string()), Some(1), Some(9));
    assert_eq!(engine.evaluate("consent", &other), Ok(false));
}

#[test]
fn unknown_policy_is_not_found() {
    let engine = PolicyEngine::new();
    let r = engine.evaluate("billing", &input(PolicyAction::Grant, Some(1), None));
    assert_eq!(r, Err(PolicyError::PolicyNotFound("billing".to_string())));
}

#[test]
fn registered_other_policy_denies() {
    let mut engine = PolicyEngine::new();
    engine.update_policy("billing", "default allow = true");
    assert_eq!(engine.evaluate("billing", &input(PolicyAction::Grant, Some(1), None)), Ok(false));
    engine.update_policy("consent", "default allow = false");
    assert_eq!(engine.evaluate("consent", &input(PolicyAction::Grant, Some(1), None)), Ok(true));
}
