//! Per-module configuration: typed fields and values, the trait that each
//! module's persisted configuration implements, and the config-manager
//! module that exposes those fields to users.

use vstd::prelude::*;
use crate::permissions::{DragonModulePermission, ModulePermission};
use crate::text::{dec_string, parse_u64, spec_parse_u64, str_eq, u64_to_dec};

verus! {

#[derive(Debug, PartialEq, Eq, Structural)]
pub enum ConfigFieldError {
    FieldNotFound,
    ValueWrongType,
    MalformedData,
    NotInit,
}

#[derive(Debug, Clone, Copy, PartialEq, Eq, Structural)]
pub enum ConfigEntryType {
    String,
    U64,
    Role,
    User,
    ChannelText,
}

/// A configuration value: text, a number, or a nested collection.
pub enum ConfigValue {
    String(String),
    U64(u64),
    Vec(Box<Vec<ConfigValue>>),
    HashMap(Box<Vec<(String, ConfigValue)>>),
}

impl ConfigValue {
    /// The contained text; `ValueWrongType` for any other kind of value.
    pub fn to_string(self) -> (r: Result<String, ConfigFieldError>)
        ensures
            match self {
                ConfigValue::String(s) => r matches Ok(v) && v == s,
                _ => r matches Err(e) && e == ConfigFieldError::ValueWrongType,
            },
    {
        match self {
            ConfigValue::String(value) => Ok(value),
            _ => Err(ConfigFieldError::ValueWrongType),
        }
    }

    /// The contained number; `ValueWrongType` for any other kind of value.
    pub fn to_u64(self) -> (r: Result<u64, ConfigFieldError>)
        ensures
            match self {
                ConfigValue::U64(u) => r matches Ok(v) && v == u,
                _ => r matches Err(e) && e == ConfigFieldError::ValueWrongType,
            },
    {
        match self {
            ConfigValue::U64(value) => Ok(value),
            _ => Err(ConfigFieldError::ValueWrongType),
        }
    }

    /// The contained list; `ValueWrongType` for any other kind of value.
    pub fn to_vec(self) -> (r: Result<Vec<ConfigValue>, ConfigFieldError>)
        ensures
            match self {
                ConfigValue::Vec(b) => r matches Ok(v) && v == *b,
                _ => r matches Err(e) && e == ConfigFieldError::ValueWrongType,
            },
    {
        match self {
            ConfigValue::Vec(value) => Ok(*value),
            _ => Err(ConfigFieldError::ValueWrongType),
        }
    }
}

/// The declaration of one configuration field: its type and a
/// user-visible description.
pub struct ConfigField {
    pub field_type: ConfigEntryType,
    pub description: String,
}

impl ConfigField {
    pub fn new(field_type: ConfigEntryType, description: &str) -> (r: Self)
        ensures
            r.field_type == field_type,
            r.description@ == description@,
    {
        ConfigField { field_type, description: String::from_str(description) }
    }
}

/// One stored configuration entry: its declared type, the raw persisted
/// text, and the decoded value once initialized.
pub struct ConfigEntry {
    pub value_type: ConfigEntryType,
    pub raw: String,
    pub data: Option<ConfigValue>,
}

impl ConfigEntry {
    pub fn new(value_type: ConfigEntryType, raw: &str) -> (r: Self)
        ensures
            r.value_type == value_type,
            r.raw@ == raw@,
            r.data is None,
    {
        ConfigEntry { value_type, raw: String::from_str(raw), data: None }
    }

    pub fn value_type(&self) -> (r: &ConfigEntryType)
        ensures
            *r == self.value_type,
    {
        &self.value_type
    }

    /// The decoded value, if `init_value` has run.
    pub fn value(&self) -> (r: Option<&ConfigValue>)
        ensures
            (r is Some) == (self.data is Some),
            self.data matches Some(v) ==> (r matches Some(x) && *x == v),
    {
        self.data.as_ref()
    }

    /// Decode the raw text according to the declared type: text is taken
    /// as is, every numeric type parses as a decimal number. A raw text
    /// that does not parse fails `MalformedData` and leaves the entry
    /// undecoded; an already decoded entry is left alone.
    pub fn init_value(&mut self) -> (r: Result<(), ConfigFieldError>)
        ensures
            old(self).data is Some ==> (r is Ok && *final(self) == *old(self)),
            old(self).data is None ==> ({
                &&& final(self).value_type == old(self).value_type
                &&& final(self).raw == old(self).raw
                &&& match old(self).value_type {
                    ConfigEntryType::String => r is Ok && (final(self).data matches Some(v)
                        && v matches ConfigValue::String(sv) && sv@ == old(self).raw@),
                    _ => (match spec_parse_u64(old(self).raw@) {
                        Some(n) => r is Ok && (final(self).data matches Some(v)
                            && v matches ConfigValue::U64(m) && m == n),
                        None => r matches Err(ConfigFieldError::MalformedData)
                            && final(self).data is None,
                    }),
                }
            }),
    {
        if self.data.is_some() {
            return Ok(());
        }
        match self.value_type {
            ConfigEntryType::String => {
                self.data = Some(ConfigValue::String(self.raw.clone()));
                Ok(())
            },
            ConfigEntryType::U64 | ConfigEntryType::Role | ConfigEntryType::User
                | ConfigEntryType::ChannelText => {
                match parse_u64(self.raw.as_str()) {
                    Some(n) => {
                        self.data = Some(ConfigValue::U64(n));
                        Ok(())
                    },
                    None => Err(ConfigFieldError::MalformedData),
                }
            },
        }
    }
}

/// The persisted configuration of a module: a set of named, typed fields
/// read and written one at a time.
pub trait ModuleConfig: Sized {
    /// What the field listing of this configuration contains.
    spec fn spec_fields(r: Seq<(String, ConfigField)>) -> bool;

    /// What reading a field returns.
    spec fn ens_get(&self, field: Seq<char>, r: Result<ConfigValue, ConfigFieldError>) -> bool;

    /// What writing a field does.
    spec fn ens_set(
        pre: Self,
        field: Seq<char>,
        value: ConfigValue,
        post: Self,
        r: Result<(), ConfigFieldError>,
    ) -> bool;

    /// The declared fields, with their types and descriptions.
    fn get_config_fields() -> (r: Vec<(String, ConfigField)>)
        ensures
            Self::spec_fields(r@),
    ;

    /// Read one field's current value.
    fn get_config_entry(&self, field: &str) -> (r: Result<ConfigValue, ConfigFieldError>)
        ensures
            self.ens_get(field@, r),
    ;

    /// Write one field.
    fn set_config_entry(&mut self, field: &str, value: ConfigValue) -> (r: Result<
        (),
        ConfigFieldError,
    >)
        ensures
            Self::ens_set(*old(self), field@, value, *final(self), r),
    ;
}

/// A module with no user-facing configuration.
#[derive(Default)]
pub struct NoConfig;

impl ModuleConfig for NoConfig {
    open spec fn spec_fields(r: Seq<(String, ConfigField)>) -> bool {
        r.len() == 0
    }

    open spec fn ens_get(&self, field: Seq<char>, r: Result<ConfigValue, ConfigFieldError>) -> bool {
        r matches Err(e) && e == ConfigFieldError::FieldNotFound
    }

    open spec fn ens_set(
        pre: Self,
        field: Seq<char>,
        value: ConfigValue,
        post: Self,
        r: Result<(), ConfigFieldError>,
    ) -> bool {
        post == pre && (r matches Err(e) && e == ConfigFieldError::FieldNotFound)
    }

    fn get_config_fields() -> (r: Vec<(String, ConfigField)>) {
        Vec::new()
    }

    fn get_config_entry(&self, _field: &str) -> (r: Result<ConfigValue, ConfigFieldError>) {
        Err(ConfigFieldError::FieldNotFound)
    }

    fn set_config_entry(&mut self, _field: &str, _value: ConfigValue) -> (r: Result<
        (),
        ConfigFieldError,
    >) {
        Err(ConfigFieldError::FieldNotFound)
    }
}

/// The config-manager module: exposes every active module's configuration
/// fields through one externally visible command.
#[derive(Default)]
pub struct ConfigManager;

/// The user-visible rendering of a field value: users, roles and
/// channels render as platform mentions of their numeric id, numbers in
/// decimal, text as itself; a value whose kind does not match the
/// declared field type is `ValueWrongType`.
pub open spec fn spec_render(field_type: ConfigEntryType, value: ConfigValue) -> Result<
    Seq<char>,
    ConfigFieldError,
> {
    match field_type {
        ConfigEntryType::String => (match value {
            ConfigValue::String(s) => Ok(s@),
            _ => Err(ConfigFieldError::ValueWrongType),
        }),
        _ => (match value {
            ConfigValue::U64(u) => Ok(
                match field_type {
                    ConfigEntryType::User => "<@"@ + dec_string(u as nat) + ">"@,
                    ConfigEntryType::Role => "<@&"@ + dec_string(u as nat) + ">"@,
                    ConfigEntryType::ChannelText => "<#"@ + dec_string(u as nat) + ">"@,
                    _ => dec_string(u as nat),
                },
            ),
            _ => Err(ConfigFieldError::ValueWrongType),
        }),
    }
}

impl ConfigManager {
    /// Render one field value for the user; see `spec_render`.
    pub fn render_value(field_type: ConfigEntryType, value: ConfigValue) -> (r: Result<
        String,
        ConfigFieldError,
    >)
        ensures
            match spec_render(field_type, value) {
                Ok(t) => r matches Ok(out) && out@ == t,
                Err(e) => r matches Err(e2) && e2 == e,
            },
    {
        match field_type {
            ConfigEntryType::String => value.to_string(),
            ConfigEntryType::U64 => {
                let u = value.to_u64()?;
                Ok(u64_to_dec(u))
            },
            ConfigEntryType::User => {
                let u = value.to_u64()?;
                let mut out = String::from_str("<@");
                out.append(u64_to_dec(u).as_str());
                out.append(">");
                Ok(out)
            },
            ConfigEntryType::Role => {
                let u = value.to_u64()?;
                let mut out = String::from_str("<@&");
                out.append(u64_to_dec(u).as_str());
                out.append(">");
                Ok(out)
            },
            ConfigEntryType::ChannelText => {
                let u = value.to_u64()?;
                let mut out = String::from_str("<#");
                out.append(u64_to_dec(u).as_str());
                out.append(">");
                Ok(out)
            },
        }
    }
}

impl DragonModulePermission for ConfigManager {
    open spec fn spec_all_permissions(&self) -> Seq<ModulePermission> {
        seq![
            ModulePermission(
                "config-manager",
                "edit-config",
                "update the configs for a guild's modules",
            ),
        ]
    }

    fn all_permissions(&self) -> (r: Vec<ModulePermission>) {
        let mut r: Vec<ModulePermission> = Vec::new();
        r.push(
            ModulePermission::new(
                "config-manager",
                "edit-config",
                "update the configs for a guild's modules",
            ),
        );
        proof {
            assert(r@ =~= self.spec_all_permissions());
        }
        r
    }
}

} // verus!
