use dragon_bot::activation::ModuleManagerError;
use dragon_bot::config::ConfigEntryType;
use dragon_bot::errors::{
    CommandError, ConfigError, ErrorManager, GetModuleError, ModuleError, TgDbError,
};
use dragon_bot::modules::{all_module_ids, is_known_module_id, DragonBotModuleInstance};
use dragon_bot::permissions::{PermissionsManager, PermissionsManagerConfig};
use dragon_bot::registry::ModuleRegistry;
use dragon_bot::sync::{
    ModuleEventHandler, ModuleManagerCommand, SyncAction,
};
use dragon_bot::tgdb::TgDbConfig;
use dragon_bot::str_eq;

#[test]
fn string_equality_is_by_content() {
    assert!(str_eq("abc", "abc"));
    assert!(!str_eq("abc", "abd"));
    assert!(!str_eq("abc", "abcd"));
    assert!(str_eq("", ""));
}

#[test]
fn module_id_listing_is_fixed_and_sorted() {
    let ids = all_module_ids();
    assert_eq!(
        ids,
        vec![
            "config-manager",
            "database-bridge",
            "error-manager",
            "module-manager",
            "permissions-manager",
            "tg-verify",
        ]
    );
    assert!(is_known_module_id("database-bridge"));
    assert!(!is_known_module_id("dragonfly"));
}

#[test]
fn instance_ids_and_command_names() {
    let inst = DragonBotModuleInstance::TgDb(dragon_bot::tgdb::TgDb);
    assert_eq!(inst.module_id(), "database-bridge");
    assert!(inst.command_name().is_none());
    let inst = DragonBotModuleInstance::ConfigManager(dragon_bot::config::ConfigManager);
    assert_eq!(inst.command_name().unwrap(), "config-manager");
}

#[test]
fn full_resync_deletes_everything_and_creates_for_active_commands() {
    let current = vec!["stale-one".to_owned(), "stale-two".to_owned()];
    let active = vec![
        "config-manager".to_owned(),
        "database-bridge".to_owned(),  // known, but has no command
        "module-manager".to_owned(),
        "ghost-module".to_owned(),     // unknown: skipped, not fatal
    ];
    let plan = ModuleEventHandler::full_resync_plan(&current, &active);
    assert_eq!(plan.deletes, current);
    assert_eq!(
        plan.creates,
        vec!["config-manager".to_owned(), "module-manager".to_owned()]
    );
}

#[test]
fn batch_results_are_recorded_without_aborting() {
    let creates = vec!["a".to_owned(), "b".to_owned(), "c".to_owned()];
    let results = vec![true, false, true];
    let report = ModuleEventHandler::record_sync_results(&creates, &results);
    assert_eq!(report.created, vec!["a".to_owned(), "c".to_owned()]);
    assert_eq!(report.failed, vec!["b".to_owned()]);
}

#[test]
fn incremental_sync_names() {
    assert_eq!(
        ModuleEventHandler::activation_create_name("module-manager").unwrap(),
        "module-manager"
    );
    assert!(ModuleEventHandler::activation_create_name("database-bridge").is_none());
    assert!(ModuleEventHandler::activation_create_name("bogus").is_none());
    let current = vec!["x".to_owned(), "tg-verify".to_owned(), "tg-verify".to_owned()];
    assert_eq!(
        ModuleEventHandler::deactivation_delete_index(&current, "tg-verify"),
        Some(1)
    );
    assert_eq!(
        ModuleEventHandler::deactivation_delete_index(&current, "absent"),
        None
    );
}

#[test]
fn dispatch_gate() {
    assert!(ModuleEventHandler::should_dispatch(Some(1), &Ok(true)));
    assert!(!ModuleEventHandler::should_dispatch(Some(1), &Ok(false)));
    assert!(!ModuleEventHandler::should_dispatch(None, &Ok(true)));
    assert!(!ModuleEventHandler::should_dispatch(
        Some(1),
        &Err(ModuleError::ConfigError(ConfigError::IoError("io".to_owned())))
    ));
}

#[test]
fn orchestration_command_activate() {
    let mut reg = ModuleRegistry::new();
    let outcome = ModuleEventHandler::handle_module_manager_command(
        &mut reg,
        4,
        &ModuleManagerCommand::Activate("database-bridge".to_owned()),
        true,
    )
    .unwrap();
    assert_eq!(outcome.response.unwrap(), "Module `database-bridge` activated.");
    assert!(matches!(outcome.action, SyncAction::NoRemoteChange));
    assert_eq!(outcome.record.unwrap(), vec!["database-bridge".to_owned()]);
    // a module with a command leaves a remote registration behind
    let outcome = ModuleEventHandler::handle_module_manager_command(
        &mut reg,
        4,
        &ModuleManagerCommand::Activate("permissions-manager".to_owned()),
        true,
    )
    .unwrap();
    match outcome.action {
        SyncAction::CreateCommand(name) => assert_eq!(name, "permissions-manager"),
        _ => panic!("expected a remote registration"),
    }
}

#[test]
fn orchestration_command_without_permission_does_nothing() {
    let mut reg = ModuleRegistry::new();
    let outcome = ModuleEventHandler::handle_module_manager_command(
        &mut reg,
        4,
        &ModuleManagerCommand::Activate("database-bridge".to_owned()),
        false,
    )
    .unwrap();
    assert!(outcome.response.is_none());
    assert!(outcome.record.is_none());
    assert!(matches!(outcome.action, SyncAction::NoRemoteChange));
    let h = reg.try_acquire_read("module-manager").unwrap();
    assert!(!reg.is_module_id_active(&h, 4, "database-bridge"));
    reg.release(h);
}

#[test]
fn orchestration_command_deactivate() {
    let mut reg = ModuleRegistry::new();
    reg.activate_module(4, "tg-verify").unwrap();
    let outcome = ModuleEventHandler::handle_module_manager_command(
        &mut reg,
        4,
        &ModuleManagerCommand::Deactivate("tg-verify".to_owned()),
        true,
    )
    .unwrap();
    assert_eq!(outcome.response.unwrap(), "Module `tg-verify` deactivated.");
    match outcome.action {
        SyncAction::DeleteCommand(name) => assert_eq!(name, "tg-verify"),
        _ => panic!("expected a remote deletion"),
    }
    assert_eq!(outcome.record.unwrap(), Vec::<String>::new());
    let r = ModuleEventHandler::handle_module_manager_command(
        &mut reg,
        4,
        &ModuleManagerCommand::Deactivate("module-manager".to_owned()),
        true,
    );
    assert!(matches!(
        r,
        Err(ModuleError::ModuleManagerError(
            ModuleManagerError::CannotInactivateManager
        ))
    ));
}

#[test]
fn orchestration_command_listings() {
    let mut reg = ModuleRegistry::new();
    reg.activate_module(4, "database-bridge").unwrap();
    let outcome = ModuleEventHandler::handle_module_manager_command(
        &mut reg,
        4,
        &ModuleManagerCommand::ListActive,
        false,
    )
    .unwrap();
    assert_eq!(
        outcome.response.unwrap(),
        "```diff\n+ database-bridge\n+ module-manager\n```\n"
    );
    let outcome = ModuleEventHandler::handle_module_manager_command(
        &mut reg,
        4,
        &ModuleManagerCommand::ListAll,
        false,
    )
    .unwrap();
    assert_eq!(
        outcome.response.unwrap(),
        "```diff\nconfig-manager\ndatabase-bridge\nerror-manager\nmodule-manager\npermissions-manager\ntg-verify\n```\n"
    );
}

#[test]
fn config_field_command_reads_and_writes() {
    let mut c = TgDbConfig::new();
    let reply = ModuleEventHandler::handle_config_field_command(
        &mut c,
        ConfigEntryType::U64,
        "port",
        Some(dragon_bot::config::ConfigValue::U64(5432)),
    )
    .unwrap();
    assert_eq!(reply, "Updated config entry.");
    let reply = ModuleEventHandler::handle_config_field_command(
        &mut c,
        ConfigEntryType::U64,
        "port",
        None,
    )
    .unwrap();
    assert_eq!(reply, "Current value: 5432");
}

#[test]
fn permission_command_grants_and_revokes() {
    let manager = PermissionsManager::default();
    let mut config = PermissionsManagerConfig::new();
    let reply = ModuleEventHandler::handle_permission_command(
        &manager,
        &mut config,
        true,
        42,
        "module-manager",
        "module-activate",
        true,
    )
    .unwrap();
    assert_eq!(
        reply.unwrap(),
        "Granted `module-manager:module-activate` to 42"
    );
    let reply = ModuleEventHandler::handle_permission_command(
        &manager,
        &mut config,
        false,
        42,
        "module-manager",
        "module-activate",
        true,
    )
    .unwrap();
    assert_eq!(
        reply.unwrap(),
        "Revoked `module-manager:module-activate` from 42"
    );
    // without permission nothing happens
    let reply = ModuleEventHandler::handle_permission_command(
        &manager,
        &mut config,
        true,
        42,
        "module-manager",
        "module-activate",
        false,
    )
    .unwrap();
    assert!(reply.is_none());
}

#[test]
fn error_manager_records_per_module() {
    let mut log = ErrorManager::new();
    log.module_error(
        "database-bridge",
        &ModuleError::TgDbError(TgDbError::NotConnected),
    );
    log.module_error(
        "module-manager",
        &ModuleError::ModuleManagerError(ModuleManagerError::ModuleNotFound),
    );
    log.module_error(
        "database-bridge",
        &ModuleError::CommandError(CommandError::RemoteError("timeout".to_owned())),
    );
    assert_eq!(log.all_error_log.len(), 3);
    assert_eq!(
        log.module_errors("database-bridge"),
        vec![
            "[database-bridge][TgDbError]".to_owned(),
            "[database-bridge][CommandError]".to_owned(),
        ]
    );
    assert_eq!(
        log.module_errors("module-manager"),
        vec!["[module-manager][ModuleManagerError]".to_owned()]
    );
    assert!(log.module_errors("tg-verify").is_empty());
}

#[test]
fn module_error_labels() {
    assert_eq!(
        ModuleError::GetModuleError(GetModuleError::ModuleBlocked).label(),
        "GetModuleError"
    );
    assert_eq!(
        ModuleError::ConfigError(ConfigError::SerdeError("x".to_owned())).label(),
        "ConfigError"
    );
    assert_eq!(
        ModuleError::PermissionsError(
            dragon_bot::permissions::PermissionsError::PermissionNotFound
        )
        .label(),
        "PermissionsError"
    );
}
