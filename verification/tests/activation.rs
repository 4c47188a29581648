use dragon_bot::activation::{ModuleManager, ModuleManagerError};
use dragon_bot::errors::ConfigError;

fn store() -> ModuleManager {
    ModuleManager::new()
}

#[test]
fn orchestration_module_is_always_active() {
    let m = store();
    assert!(m.is_module_id_active(1, "module-manager"));
    assert!(m.is_module_id_active(2, "module-manager"));
    let mut m = store();
    m.set_module_active(1, "database-bridge").unwrap();
    assert!(m.is_module_id_active(1, "module-manager"));
    m.set_module_inactive(1, "database-bridge").unwrap();
    assert!(m.is_module_id_active(1, "module-manager"));
}

#[test]
fn activate_then_query_then_second_activate_fails() {
    let mut m = store();
    assert!(!m.is_module_id_active(7, "database-bridge"));
    let record = m.set_module_active(7, "database-bridge").unwrap();
    assert_eq!(record, vec!["database-bridge".to_owned()]);
    assert!(m.is_module_id_active(7, "database-bridge"));
    let second = m.set_module_active(7, "database-bridge");
    assert!(matches!(second, Err(ModuleManagerError::ModuleAlreadyActive)));
    // the failed call must not have mutated the record
    assert!(m.is_module_id_active(7, "database-bridge"));
    assert_eq!(
        m.get_all_active_module_ids(7),
        vec!["database-bridge".to_owned(), "module-manager".to_owned()]
    );
}

#[test]
fn activate_unknown_module_fails_not_found() {
    let mut m = store();
    let r = m.set_module_active(7, "no-such-module");
    assert!(matches!(r, Err(ModuleManagerError::ModuleNotFound)));
    assert_eq!(m.get_all_active_module_ids(7), vec!["module-manager".to_owned()]);
}

#[test]
fn deactivating_the_orchestration_module_fails_and_mutates_nothing() {
    let mut m = store();
    m.set_module_active(3, "tg-verify").unwrap();
    let before = m.get_all_active_module_ids(3);
    for tenant in [3u64, 4, 5] {
        let r = m.set_module_inactive(tenant, "module-manager");
        assert!(matches!(r, Err(ModuleManagerError::CannotInactivateManager)));
    }
    assert_eq!(m.get_all_active_module_ids(3), before);
}

#[test]
fn deactivate_inactive_module_fails() {
    let mut m = store();
    let r = m.set_module_inactive(3, "tg-verify");
    assert!(matches!(r, Err(ModuleManagerError::ModuleAlreadyInactive)));
    let r = m.set_module_inactive(3, "no-such-module");
    assert!(matches!(r, Err(ModuleManagerError::ModuleNotFound)));
}

#[test]
fn deactivate_removes_only_that_module() {
    let mut m = store();
    m.set_module_active(3, "tg-verify").unwrap();
    m.set_module_active(3, "database-bridge").unwrap();
    let record = m.set_module_inactive(3, "tg-verify").unwrap();
    assert_eq!(record, vec!["database-bridge".to_owned()]);
    assert!(!m.is_module_id_active(3, "tg-verify"));
    assert!(m.is_module_id_active(3, "database-bridge"));
}

#[test]
fn listing_is_sorted_duplicate_free_and_stable() {
    let mut m = store();
    m.set_module_active(9, "tg-verify").unwrap();
    m.set_module_active(9, "config-manager").unwrap();
    m.set_module_active(9, "database-bridge").unwrap();
    let first = m.get_all_active_module_ids(9);
    assert_eq!(
        first,
        vec![
            "config-manager".to_owned(),
            "database-bridge".to_owned(),
            "module-manager".to_owned(),
            "tg-verify".to_owned(),
        ]
    );
    let mut sorted = first.clone();
    sorted.sort();
    sorted.dedup();
    assert_eq!(first, sorted);
    // stable across repeated calls with no intervening mutation
    let second = m.get_all_active_module_ids(9);
    assert_eq!(first, second);
}

#[test]
fn tenants_are_isolated() {
    let mut m = store();
    m.set_module_active(1, "database-bridge").unwrap();
    assert!(m.is_module_id_active(1, "database-bridge"));
    assert!(!m.is_module_id_active(2, "database-bridge"));
    assert_eq!(m.get_all_active_module_ids(2), vec!["module-manager".to_owned()]);
}

#[test]
fn concurrent_activations_commute() {
    // two activations for one tenant serialize on the write lock; the
    // final record holds both ids whichever completes first
    let mut ab = store();
    ab.set_module_active(1, "database-bridge").unwrap();
    ab.set_module_active(1, "tg-verify").unwrap();
    let mut ba = store();
    ba.set_module_active(1, "tg-verify").unwrap();
    ba.set_module_active(1, "database-bridge").unwrap();
    // the sorted listings agree
    assert_eq!(ab.get_all_active_module_ids(1), ba.get_all_active_module_ids(1));
}

#[test]
fn init_tenant_sanitizes_loaded_records() {
    let mut m = store();
    let loaded = vec![
        "tg-verify".to_owned(),
        "not-a-module".to_owned(),
        "module-manager".to_owned(),
        "tg-verify".to_owned(),
        "database-bridge".to_owned(),
    ];
    m.init_tenant(4, &loaded);
    assert_eq!(
        m.get_all_active_module_ids(4),
        vec![
            "database-bridge".to_owned(),
            "module-manager".to_owned(),
            "tg-verify".to_owned(),
        ]
    );
    // the persisted record never stores the orchestration module
    let doc = m.activation_document(4);
    assert!(!doc.contains("module-manager"));
}

#[test]
fn record_document_round_trips() {
    let mut m = store();
    m.set_module_active(4, "database-bridge").unwrap();
    m.set_module_active(4, "error-manager").unwrap();
    let doc = m.activation_document(4);
    let mut rebuilt = store();
    rebuilt.init_tenant_from_json(4, &doc).unwrap();
    assert_eq!(
        rebuilt.get_all_active_module_ids(4),
        m.get_all_active_module_ids(4)
    );
}

#[test]
fn corrupt_document_is_fatal_for_that_tenant_only() {
    let mut m = store();
    m.set_module_active(1, "tg-verify").unwrap();
    let r = m.init_tenant_from_json(2, "{not json");
    assert!(matches!(r, Err(ConfigError::SerdeError(_))));
    // tenant 1 is untouched, tenant 2 stayed at the default
    assert!(m.is_module_id_active(1, "tg-verify"));
    assert_eq!(m.get_all_active_module_ids(2), vec!["module-manager".to_owned()]);
}

#[test]
fn document_of_the_wrong_shape_is_rejected() {
    let mut m = store();
    assert!(matches!(
        m.init_tenant_from_json(2, "5"),
        Err(ConfigError::SerdeError(_))
    ));
    assert!(matches!(
        m.init_tenant_from_json(2, "{\"active\": []}"),
        Err(ConfigError::SerdeError(_))
    ));
    assert!(m.init_tenant_from_json(2, "[]").is_ok());
    assert!(m.init_tenant_from_json(2, " [ \"tg-verify\" ] ").is_ok());
    assert!(m.is_module_id_active(2, "tg-verify"));
}

#[test]
fn absent_document_means_orchestration_only() {
    let m = store();
    assert_eq!(m.get_all_active_module_ids(42), vec!["module-manager".to_owned()]);
    assert_eq!(m.activation_document(42), "[]");
}
