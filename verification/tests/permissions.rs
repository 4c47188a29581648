use dragon_bot::errors::ConfigError;
use dragon_bot::permissions::{
    assert_permission, denial_notice, ModulePermission, PermissionsError, PermissionsManager,
    PermissionsManagerConfig,
};

fn perm() -> ModulePermission {
    ModulePermission::new("module-manager", "module-activate", "activate a module")
}

#[test]
fn permission_accessors() {
    let p = ModulePermission::new("config-manager", "edit-config", "edit configs");
    assert_eq!(p.module(), "config-manager");
    assert_eq!(p.id(), "edit-config");
    assert_eq!(p.desc(), "edit configs");
}

#[test]
fn permission_equality_ignores_description() {
    let a = ModulePermission::new("m", "p", "one description");
    let b = ModulePermission::new("m", "p", "another description");
    let c = ModulePermission::new("m", "q", "one description");
    let d = ModulePermission::new("n", "p", "one description");
    assert!(a == b);
    assert!(!(a == c));
    assert!(!(a == d));
}

#[test]
fn administrator_always_passes() {
    let manager = PermissionsManager::default();
    let config = PermissionsManagerConfig::new();
    let r = assert_permission(&manager, true, Ok(config), 10, &vec![], &perm());
    assert_eq!(r.unwrap(), true);
    // even when the grant table could not be loaded
    let r = assert_permission(
        &manager,
        true,
        Err(ConfigError::IoError("disk gone".to_owned())),
        10,
        &vec![],
        &perm(),
    );
    assert_eq!(r.unwrap(), true);
}

#[test]
fn direct_grant_passes() {
    let manager = PermissionsManager::default();
    let mut config = PermissionsManagerConfig::new();
    manager
        .give_permission_str(&mut config, 10, "module-manager", "module-activate")
        .unwrap();
    let r = assert_permission(&manager, false, Ok(config), 10, &vec![], &perm());
    assert_eq!(r.unwrap(), true);
}

#[test]
fn role_grant_passes() {
    let manager = PermissionsManager::default();
    let mut config = PermissionsManagerConfig::new();
    manager
        .give_permission_str(&mut config, 555, "module-manager", "module-activate")
        .unwrap();
    // actor 10 holds role 555
    let r = assert_permission(&manager, false, Ok(config), 10, &vec![444, 555], &perm());
    assert_eq!(r.unwrap(), true);
}

#[test]
fn without_any_grant_the_check_denies() {
    let manager = PermissionsManager::default();
    let mut config = PermissionsManagerConfig::new();
    manager
        .give_permission_str(&mut config, 10, "module-manager", "module-deactivate")
        .unwrap();
    // right actor, wrong permission id
    let r = assert_permission(&manager, false, Ok(config), 10, &vec![], &perm());
    assert_eq!(r.unwrap(), false);
}

#[test]
fn grant_in_another_namespace_does_not_pass() {
    let manager = PermissionsManager::default();
    let mut config = PermissionsManagerConfig::new();
    manager
        .give_permission_str(&mut config, 10, "config-manager", "module-activate")
        .unwrap();
    let r = assert_permission(&manager, false, Ok(config), 10, &vec![], &perm());
    assert_eq!(r.unwrap(), false);
}

#[test]
fn storage_failure_fails_closed() {
    let manager = PermissionsManager::default();
    let r = assert_permission(
        &manager,
        false,
        Err(ConfigError::SerdeError("bad json".to_owned())),
        10,
        &vec![],
        &perm(),
    );
    assert!(r.is_err());
}

#[test]
fn exactly_one_denial_notice_per_false_result() {
    assert!(denial_notice(true).is_none());
    let notice = denial_notice(false).unwrap();
    assert_eq!(notice, "You do not have permission to use this command.");
}

#[test]
fn give_twice_fails_already_given() {
    let manager = PermissionsManager::default();
    let mut config = PermissionsManagerConfig::new();
    manager
        .give_permission_str(&mut config, 1, "ns", "p")
        .unwrap();
    let r = manager.give_permission_str(&mut config, 1, "ns", "p");
    assert!(matches!(r, Err(PermissionsError::PermissionAlreadyGiven)));
}

#[test]
fn take_removes_exactly_one_grant() {
    let manager = PermissionsManager::default();
    let mut config = PermissionsManagerConfig::new();
    manager.give_permission_str(&mut config, 1, "ns", "p").unwrap();
    manager.give_permission_str(&mut config, 1, "ns", "q").unwrap();
    manager.give_permission_str(&mut config, 2, "ns", "p").unwrap();
    manager.take_permission_str(&mut config, 1, "ns", "p").unwrap();
    assert!(!manager.has_permission_str(&config, 1, &vec![], "ns", "p"));
    assert!(manager.has_permission_str(&config, 1, &vec![], "ns", "q"));
    assert!(manager.has_permission_str(&config, 2, &vec![], "ns", "p"));
}

#[test]
fn take_absent_grant_fails_not_given() {
    let manager = PermissionsManager::default();
    let mut config = PermissionsManagerConfig::new();
    let r = manager.take_permission_str(&mut config, 1, "ns", "p");
    assert!(matches!(r, Err(PermissionsError::PermissionNotGiven)));
}

#[test]
fn give_and_take_by_permission_value() {
    let manager = PermissionsManager::default();
    let mut config = PermissionsManagerConfig::new();
    let p = perm();
    manager.give_permission(&mut config, 9, &p).unwrap();
    assert!(manager.has_permission(&config, 9, &vec![], &p));
    manager.take_permission(&mut config, 9, &p).unwrap();
    assert!(!manager.has_permission(&config, 9, &vec![], &p));
}
