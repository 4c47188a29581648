//! The database bridge module: connects tenants to their game database.
//!
//! The connection pool itself lives outside the library; here is the
//! module's identity and its per-tenant configuration.

use vstd::prelude::*;
use crate::config::{ConfigEntryType, ConfigField, ConfigFieldError, ConfigValue, ModuleConfig};
use crate::permissions::{DragonModulePermission, ModulePermission};
use crate::text::str_eq;

verus! {

/// The database bridge module.
#[derive(Default)]
pub struct TgDb;

impl DragonModulePermission for TgDb {
    open spec fn spec_all_permissions(&self) -> Seq<ModulePermission> {
        Seq::empty()
    }

    fn all_permissions(&self) -> (r: Vec<ModulePermission>) {
        let r: Vec<ModulePermission> = Vec::new();
        proof {
            assert(r@ =~= Seq::<ModulePermission>::empty());
        }
        r
    }
}

/// Connection settings for a tenant's game database.
pub struct TgDbConfig {
    pub address: String,
    pub port: u64,
    pub user: String,
    pub password_b64: String,
    pub database: String,
}

impl TgDbConfig {
    /// A configuration with every text field empty and port zero.
    pub fn new() -> (r: Self)
        ensures
            r.address@.len() == 0,
            r.port == 0,
            r.user@.len() == 0,
            r.password_b64@.len() == 0,
            r.database@.len() == 0,
    {
        TgDbConfig {
            address: String::new(),
            port: 0,
            user: String::new(),
            password_b64: String::new(),
            database: String::new(),
        }
    }
}

impl ModuleConfig for TgDbConfig {
    open spec fn spec_fields(r: Seq<(String, ConfigField)>) -> bool {
        &&& r.len() == 5
        &&& r[0].0@ == "address"@ && r[0].1.field_type == ConfigEntryType::String
            && r[0].1.description@ == "address to the database"@
        &&& r[1].0@ == "user"@ && r[1].1.field_type == ConfigEntryType::String
            && r[1].1.description@ == "username for the client"@
        &&& r[2].0@ == "password_b64"@ && r[2].1.field_type == ConfigEntryType::String
            && r[2].1.description@ == "base64 hash of the password for the client"@
        &&& r[3].0@ == "database"@ && r[3].1.field_type == ConfigEntryType::String
            && r[3].1.description@ == "name of the database to use"@
        &&& r[4].0@ == "port"@ && r[4].1.field_type == ConfigEntryType::U64
            && r[4].1.description@ == "port to use for the database"@
    }

    open spec fn ens_get(&self, field: Seq<char>, r: Result<ConfigValue, ConfigFieldError>) -> bool {
        if field == "address"@ {
            r matches Ok(v) && v matches ConfigValue::String(s) && s@ == self.address@
        } else if field == "port"@ {
            r matches Ok(v) && v matches ConfigValue::U64(u) && u == self.port
        } else if field == "user"@ {
            r matches Ok(v) && v matches ConfigValue::String(s) && s@ == self.user@
        } else if field == "password_b64"@ {
            r matches Ok(v) && v matches ConfigValue::String(s) && s@ == self.password_b64@
        } else if field == "database"@ {
            r matches Ok(v) && v matches ConfigValue::String(s) && s@ == self.database@
        } else {
            r matches Err(e) && e == ConfigFieldError::FieldNotFound
        }
    }

    open spec fn ens_set(
        pre: Self,
        field: Seq<char>,
        value: ConfigValue,
        post: Self,
        r: Result<(), ConfigFieldError>,
    ) -> bool {
        if field == "address"@ {
            match value {
                ConfigValue::String(s) => r is Ok && post == (TgDbConfig { address: s, ..pre }),
                _ => (r matches Err(e) && e == ConfigFieldError::ValueWrongType) && post == pre,
            }
        } else if field == "port"@ {
            match value {
                ConfigValue::U64(u) => r is Ok && post == (TgDbConfig { port: u, ..pre }),
                _ => (r matches Err(e) && e == ConfigFieldError::ValueWrongType) && post == pre,
            }
        } else if field == "user"@ {
            match value {
                ConfigValue::String(s) => r is Ok && post == (TgDbConfig { user: s, ..pre }),
                _ => (r matches Err(e) && e == ConfigFieldError::ValueWrongType) && post == pre,
            }
        } else if field == "password_b64"@ {
            match value {
                ConfigValue::String(s) => r is Ok && post == (TgDbConfig { password_b64: s, ..pre }),
                _ => (r matches Err(e) && e == ConfigFieldError::ValueWrongType) && post == pre,
            }
        } else if field == "database"@ {
            match value {
                ConfigValue::String(s) => r is Ok && post == (TgDbConfig { database: s, ..pre }),
                _ => (r matches Err(e) && e == ConfigFieldError::ValueWrongType) && post == pre,
            }
        } else {
            (r matches Err(e) && e == ConfigFieldError::FieldNotFound) && post == pre
        }
    }

    fn get_config_fields() -> (r: Vec<(String, ConfigField)>) {
        let mut r: Vec<(String, ConfigField)> = Vec::new();
        r.push(
            (
                String::from_str("address"),
                ConfigField::new(ConfigEntryType::String, "address to the database"),
            ),
        );
        r.push(
            (
                String::from_str("user"),
                ConfigField::new(ConfigEntryType::String, "username for the client"),
            ),
        );
        r.push(
            (
                String::from_str("password_b64"),
                ConfigField::new(
                    ConfigEntryType::String,
                    "base64 hash of the password for the client",
                ),
            ),
        );
        r.push(
            (
                String::from_str("database"),
                ConfigField::new(ConfigEntryType::String, "name of the database to use"),
            ),
        );
        r.push(
            (
                String::from_str("port"),
                ConfigField::new(ConfigEntryType::U64, "port to use for the database"),
            ),
        );
        r
    }

    fn get_config_entry(&self, field: &str) -> (r: Result<ConfigValue, ConfigFieldError>) {
        if str_eq(field, "address") {
            Ok(ConfigValue::String(self.address.clone()))
        } else if str_eq(field, "port") {
            Ok(ConfigValue::U64(self.port))
        } else if str_eq(field, "user") {
            Ok(ConfigValue::String(self.user.clone()))
        } else if str_eq(field, "password_b64") {
            Ok(ConfigValue::String(self.password_b64.clone()))
        } else if str_eq(field, "database") {
            Ok(ConfigValue::String(self.database.clone()))
        } else {
            Err(ConfigFieldError::FieldNotFound)
        }
    }

    fn set_config_entry(&mut self, field: &str, value: ConfigValue) -> (r: Result<
        (),
        ConfigFieldError,
    >) {
        if str_eq(field, "address") {
            self.address = value.to_string()?;
        } else if str_eq(field, "port") {
            self.port = value.to_u64()?;
        } else if str_eq(field, "user") {
            self.user = value.to_string()?;
        } else if str_eq(field, "password_b64") {
            self.password_b64 = value.to_string()?;
        } else if str_eq(field, "database") {
            self.database = value.to_string()?;
        } else {
            return Err(ConfigFieldError::FieldNotFound);
        }
        Ok(())
    }
}

} // verus!
