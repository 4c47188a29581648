use dragon_bot::config::{
    ConfigEntry, ConfigEntryType, ConfigField, ConfigFieldError, ConfigManager, ConfigValue,
    ModuleConfig, NoConfig,
};
use dragon_bot::tg_verify::TgVerifyConfig;
use dragon_bot::tgdb::TgDbConfig;

#[test]
fn value_accessors_unwrap_their_own_kind() {
    assert_eq!(
        ConfigValue::String("x".to_owned()).to_string().unwrap(),
        "x"
    );
    assert_eq!(ConfigValue::U64(9).to_u64().unwrap(), 9);
    let v = ConfigValue::Vec(Box::new(vec![ConfigValue::U64(1)]));
    assert_eq!(v.to_vec().unwrap().len(), 1);
}

#[test]
fn value_accessors_reject_other_kinds() {
    assert!(matches!(
        ConfigValue::U64(9).to_string(),
        Err(ConfigFieldError::ValueWrongType)
    ));
    assert!(matches!(
        ConfigValue::String("x".to_owned()).to_u64(),
        Err(ConfigFieldError::ValueWrongType)
    ));
    assert!(matches!(
        ConfigValue::U64(9).to_vec(),
        Err(ConfigFieldError::ValueWrongType)
    ));
}

#[test]
fn config_field_new_keeps_type_and_description() {
    let f = ConfigField::new(ConfigEntryType::U64, "a number");
    assert!(matches!(f.field_type, ConfigEntryType::U64));
    assert_eq!(f.description, "a number");
}

#[test]
fn entry_decodes_text_as_is() {
    let mut e = ConfigEntry::new(ConfigEntryType::String, "hello");
    assert!(matches!(*e.value_type(), ConfigEntryType::String));
    assert!(e.value().is_none());
    e.init_value().unwrap();
    match e.value().unwrap() {
        ConfigValue::String(s) => assert_eq!(s, "hello"),
        _ => panic!("expected a text value"),
    }
}

#[test]
fn entry_decodes_numeric_types_as_decimal() {
    for t in [
        ConfigEntryType::U64,
        ConfigEntryType::Role,
        ConfigEntryType::User,
        ConfigEntryType::ChannelText,
    ] {
        let mut e = ConfigEntry::new(t, "12345");
        e.init_value().unwrap();
        match e.value().unwrap() {
            ConfigValue::U64(v) => assert_eq!(*v, 12345),
            _ => panic!("expected a numeric value"),
        }
    }
}

#[test]
fn entry_rejects_malformed_numbers() {
    let mut e = ConfigEntry::new(ConfigEntryType::U64, "12x");
    assert!(matches!(e.init_value(), Err(ConfigFieldError::MalformedData)));
    assert!(e.value().is_none());
    let mut e = ConfigEntry::new(ConfigEntryType::U64, "");
    assert!(matches!(e.init_value(), Err(ConfigFieldError::MalformedData)));
    // one past u64::MAX does not fit
    let mut e = ConfigEntry::new(ConfigEntryType::U64, "18446744073709551616");
    assert!(matches!(e.init_value(), Err(ConfigFieldError::MalformedData)));
    // u64::MAX itself does
    let mut e = ConfigEntry::new(ConfigEntryType::U64, "18446744073709551615");
    e.init_value().unwrap();
    match e.value().unwrap() {
        ConfigValue::U64(v) => assert_eq!(*v, u64::MAX),
        _ => panic!("expected a numeric value"),
    }
    // a leading plus sign is accepted
    let mut e = ConfigEntry::new(ConfigEntryType::U64, "+42");
    e.init_value().unwrap();
}

#[test]
fn rendering_mentions_and_numbers() {
    assert_eq!(
        ConfigManager::render_value(ConfigEntryType::U64, ConfigValue::U64(120)).unwrap(),
        "120"
    );
    assert_eq!(
        ConfigManager::render_value(ConfigEntryType::User, ConfigValue::U64(5)).unwrap(),
        "<@5>"
    );
    assert_eq!(
        ConfigManager::render_value(ConfigEntryType::Role, ConfigValue::U64(7)).unwrap(),
        "<@&7>"
    );
    assert_eq!(
        ConfigManager::render_value(ConfigEntryType::ChannelText, ConfigValue::U64(9)).unwrap(),
        "<#9>"
    );
    assert_eq!(
        ConfigManager::render_value(
            ConfigEntryType::String,
            ConfigValue::String("tables".to_owned())
        )
        .unwrap(),
        "tables"
    );
    assert!(matches!(
        ConfigManager::render_value(ConfigEntryType::U64, ConfigValue::String("x".to_owned())),
        Err(ConfigFieldError::ValueWrongType)
    ));
}

#[test]
fn no_config_has_no_fields() {
    assert!(NoConfig::get_config_fields().is_empty());
    let mut c = NoConfig::default();
    assert!(matches!(
        c.get_config_entry("anything"),
        Err(ConfigFieldError::FieldNotFound)
    ));
    assert!(matches!(
        c.set_config_entry("anything", ConfigValue::U64(1)),
        Err(ConfigFieldError::FieldNotFound)
    ));
}

#[test]
fn tgdb_config_round_trips_every_field() {
    let mut c = TgDbConfig::new();
    c.set_config_entry("address", ConfigValue::String("db.example".to_owned()))
        .unwrap();
    c.set_config_entry("port", ConfigValue::U64(3306)).unwrap();
    c.set_config_entry("user", ConfigValue::String("bot".to_owned()))
        .unwrap();
    c.set_config_entry("password_b64", ConfigValue::String("aGVsbG8=".to_owned()))
        .unwrap();
    c.set_config_entry("database", ConfigValue::String("game".to_owned()))
        .unwrap();
    assert_eq!(
        c.get_config_entry("address").unwrap().to_string().unwrap(),
        "db.example"
    );
    assert_eq!(c.get_config_entry("port").unwrap().to_u64().unwrap(), 3306);
    assert_eq!(c.get_config_entry("user").unwrap().to_string().unwrap(), "bot");
    assert_eq!(
        c.get_config_entry("database").unwrap().to_string().unwrap(),
        "game"
    );
}

#[test]
fn tgdb_config_rejects_bad_fields_and_types() {
    let mut c = TgDbConfig::new();
    assert!(matches!(
        c.get_config_entry("nope"),
        Err(ConfigFieldError::FieldNotFound)
    ));
    assert!(matches!(
        c.set_config_entry("port", ConfigValue::String("x".to_owned())),
        Err(ConfigFieldError::ValueWrongType)
    ));
    assert!(matches!(
        c.set_config_entry("address", ConfigValue::U64(1)),
        Err(ConfigFieldError::ValueWrongType)
    ));
}

#[test]
fn tgdb_config_declares_five_fields() {
    let fields = TgDbConfig::get_config_fields();
    let names: Vec<&str> = fields.iter().map(|(n, _)| n.as_str()).collect();
    assert_eq!(
        names,
        vec!["address", "user", "password_b64", "database", "port"]
    );
    assert!(matches!(fields[4].1.field_type, ConfigEntryType::U64));
    assert_eq!(fields[0].1.description, "address to the database");
}

#[test]
fn tg_verify_config_round_trips() {
    let mut c = TgVerifyConfig::new();
    c.set_config_entry("role_verified_linked", ConfigValue::U64(1001))
        .unwrap();
    c.set_config_entry("living_minutes_required", ConfigValue::U64(600))
        .unwrap();
    c.set_config_entry("table_linking", ConfigValue::String("links".to_owned()))
        .unwrap();
    assert_eq!(
        c.get_config_entry("role_verified_linked")
            .unwrap()
            .to_u64()
            .unwrap(),
        1001
    );
    assert_eq!(
        c.get_config_entry("living_minutes_required")
            .unwrap()
            .to_u64()
            .unwrap(),
        600
    );
    assert_eq!(
        c.get_config_entry("table_linking")
            .unwrap()
            .to_string()
            .unwrap(),
        "links"
    );
    let fields = TgVerifyConfig::get_config_fields();
    assert_eq!(fields.len(), 5);
    assert_eq!(fields[0].0, "role_verified_linked");
}
