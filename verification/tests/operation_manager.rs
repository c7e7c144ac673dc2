use dexlauncher::engine::operation_manager::OperationManager;

#[test]
fn test_register_and_cancel() {
    let mut manager = OperationManager::new();
    let op_id = "test-op-1".to_string();

    let token = manager.register_operation(op_id.clone());
    assert!(!token.is_cancelled());

    let cancelled = manager.cancel_operation(&op_id);
    assert!(cancelled);
    assert!(token.is_cancelled());
}

#[test]
fn test_unregister() {
    let mut manager = OperationManager::new();
    let op_id = "test-op-2".to_string();

    manager.register_operation(op_id.clone());
    manager.unregister_operation(&op_id);

    let cancelled = manager.cancel_operation(&op_id);
    assert!(!cancelled); // Should return false as operation doesn't exist
}

#[test]
fn test_multiple_operations() {
    let mut manager = OperationManager::new();

    let token1 = manager.register_operation("op1".to_string());
    let token2 = manager.register_operation("op2".to_string());

    manager.cancel_operation("op1");

    assert!(token1.is_cancelled());
    assert!(!token2.is_cancelled());
}

#[test]
fn active_operations_and_clear_all() {
    let mut manager = OperationManager::new();
    let a = manager.register_operation("a".to_string());
    let b = manager.register_operation("b".to_string());
    let mut ids = manager.get_active_operations();
    ids.sort();
    assert_eq!(ids, vec!["a".to_string(), "b".to_string()]);
    assert!(!manager.is_cancelled("a"));
    manager.clear_all();
    assert!(a.is_cancelled());
    assert!(b.is_cancelled());
    assert!(manager.get_active_operations().is_empty());
    assert!(!manager.cancel_operation("a"));
}

#[test]
fn registering_an_id_again_replaces_it() {
    let mut manager = OperationManager::new();
    let first = manager.register_operation("x".to_string());
    let second = manager.register_operation("x".to_string());
    assert_eq!(manager.get_active_operations().len(), 1);
    assert!(manager.cancel_operation("x"));
    assert!(second.is_cancelled());
    assert!(!first.is_cancelled());
}

#[test]
fn a_cancelled_operation_reports_cancelled_until_registered_again() {
    let mut manager = OperationManager::new();
    let first = manager.register_operation("job".to_string());
    assert!(!manager.is_cancelled("job"));
    assert!(manager.cancel_operation("job"));
    assert!(manager.is_cancelled("job"));
    assert!(first.is_cancelled());
    let second = manager.register_operation("job".to_string());
    assert!(!manager.is_cancelled("job"));
    assert!(!second.is_cancelled());
    manager.unregister_operation("job");
    assert!(!manager.is_cancelled("job"));
}

#[test]
fn a_token_cancelled_by_its_holder_is_seen_by_the_manager() {
    let mut manager = OperationManager::new();
    let token = manager.register_operation("job".to_string());
    token.cancel();
    assert!(manager.is_cancelled("job"));
}
