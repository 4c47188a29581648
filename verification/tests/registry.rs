use dragon_bot::activation::ModuleManagerError;
use dragon_bot::errors::{GetModuleError, ModuleError};
use dragon_bot::registry::ModuleRegistry;

#[test]
fn unknown_module_is_not_found() {
    let mut reg = ModuleRegistry::new();
    assert!(matches!(
        reg.try_acquire_read("no-such-module"),
        Err(GetModuleError::ModuleNotFound)
    ));
    assert!(matches!(
        reg.try_acquire_write("no-such-module"),
        Err(GetModuleError::ModuleNotFound)
    ));
    assert!(matches!(
        reg.get_module_by_id("no-such-module"),
        Err(GetModuleError::ModuleNotFound)
    ));
}

#[test]
fn lookup_returns_the_named_module() {
    let reg = ModuleRegistry::new();
    let inst = reg.get_module_by_id("database-bridge").unwrap();
    assert_eq!(inst.module_id(), "database-bridge");
    let inst = reg.get_module_by_id("module-manager").unwrap();
    assert_eq!(inst.module_id(), "module-manager");
}

#[test]
fn writer_waits_for_readers_and_zero_timeout_fails_immediately() {
    let mut reg = ModuleRegistry::new();
    // two concurrent readers
    let r1 = reg.try_acquire_read("tg-verify").unwrap();
    let r2 = reg.try_acquire_read("tg-verify").unwrap();
    // a write-lock request on a read-locked slot fails at once under a
    // zero timeout: it must wait until all readers release
    assert!(matches!(
        reg.try_acquire_write("tg-verify"),
        Err(GetModuleError::ModuleBlocked)
    ));
    reg.release(r1);
    assert!(matches!(
        reg.try_acquire_write("tg-verify"),
        Err(GetModuleError::ModuleBlocked)
    ));
    reg.release(r2);
    // all readers released: the writer gets in, exclusively
    let w = reg.try_acquire_write("tg-verify").unwrap();
    assert!(matches!(
        reg.try_acquire_read("tg-verify"),
        Err(GetModuleError::ModuleBlocked)
    ));
    assert!(matches!(
        reg.try_acquire_write("tg-verify"),
        Err(GetModuleError::ModuleBlocked)
    ));
    reg.release(w);
    // and a release frees the slot again
    let r3 = reg.try_acquire_read("tg-verify").unwrap();
    reg.release(r3);
}

#[test]
fn locks_are_per_slot() {
    let mut reg = ModuleRegistry::new();
    let w = reg.try_acquire_write("tgdb-ish-no").err();
    assert!(w.is_some());
    let w = reg.try_acquire_write("database-bridge").unwrap();
    // a writer on one slot does not block readers of another
    let r = reg.try_acquire_read("config-manager").unwrap();
    reg.release(r);
    reg.release(w);
}

#[test]
fn end_to_end_activation_flow() {
    // tenant with no persisted record: only the orchestration module
    let mut reg = ModuleRegistry::new();
    let record = reg.activate_module(77, "database-bridge").unwrap();
    assert_eq!(record, vec!["database-bridge".to_owned()]);
    let h = reg.try_acquire_read("module-manager").unwrap();
    let all = reg.get_all_active_module_ids(&h, 77);
    assert_eq!(
        all,
        vec!["database-bridge".to_owned(), "module-manager".to_owned()]
    );
    reg.release(h);
    // deactivating the orchestration module fails and changes nothing
    let r = reg.deactivate_module(77, "module-manager");
    assert!(matches!(
        r,
        Err(ModuleError::ModuleManagerError(
            ModuleManagerError::CannotInactivateManager
        ))
    ));
    let h = reg.try_acquire_read("module-manager").unwrap();
    let all = reg.get_all_active_module_ids(&h, 77);
    assert_eq!(
        all,
        vec!["database-bridge".to_owned(), "module-manager".to_owned()]
    );
    reg.release(h);
}

#[test]
fn activation_is_blocked_while_the_slot_is_held() {
    let mut reg = ModuleRegistry::new();
    let h = reg.try_acquire_read("module-manager").unwrap();
    let r = reg.activate_module(1, "database-bridge");
    assert!(matches!(
        r,
        Err(ModuleError::GetModuleError(GetModuleError::ModuleBlocked))
    ));
    reg.release(h);
    assert!(reg.activate_module(1, "database-bridge").is_ok());
}

#[test]
fn serialized_activations_end_with_both_modules() {
    let mut ab = ModuleRegistry::new();
    ab.activate_module(5, "database-bridge").unwrap();
    let final_ab = ab.activate_module(5, "tg-verify").unwrap();
    let mut ba = ModuleRegistry::new();
    ba.activate_module(5, "tg-verify").unwrap();
    let final_ba = ba.activate_module(5, "database-bridge").unwrap();
    assert!(final_ab.contains(&"database-bridge".to_owned()));
    assert!(final_ab.contains(&"tg-verify".to_owned()));
    assert!(final_ba.contains(&"database-bridge".to_owned()));
    assert!(final_ba.contains(&"tg-verify".to_owned()));
    let ha = ab.try_acquire_read("module-manager").unwrap();
    let hb = ba.try_acquire_read("module-manager").unwrap();
    assert_eq!(
        ab.get_all_active_module_ids(&ha, 5),
        ba.get_all_active_module_ids(&hb, 5)
    );
    ab.release(ha);
    ba.release(hb);
}

#[test]
fn registry_init_tenant_sanitizes() {
    let mut reg = ModuleRegistry::new();
    reg.init_tenant(8, &vec!["bogus".to_owned(), "error-manager".to_owned()])
        .unwrap();
    let h = reg.try_acquire_read("module-manager").unwrap();
    assert!(reg.is_module_id_active(&h, 8, "error-manager"));
    assert!(!reg.is_module_id_active(&h, 8, "bogus"));
    assert!(reg.is_module_id_active(&h, 8, "module-manager"));
    reg.release(h);
}
