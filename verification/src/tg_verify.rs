//! The verification module: links platform accounts to game accounts.
//!
//! The database queries live outside the library, behind the database
//! bridge; here is the module's identity and its per-tenant configuration.

use vstd::prelude::*;
use crate::config::{ConfigEntryType, ConfigField, ConfigFieldError, ConfigValue, ModuleConfig};
use crate::permissions::{DragonModulePermission, ModulePermission};
use crate::text::str_eq;

verus! {

/// The account-verification module.
#[derive(Default)]
pub struct TgVerify;

impl DragonModulePermission for TgVerify {
    open spec fn spec_all_permissions(&self) -> Seq<ModulePermission> {
        Seq::empty()
    }

    fn all_permissions(&self) -> (r: Vec<ModulePermission>) {
        let r: Vec<ModulePermission> = Vec::new();
        proof {
            assert(r@ =~= Seq::<ModulePermission>::empty());
        }
        r
    }
}

/// Settings for the verification module: the roles it assigns and the
/// database tables it reads.
pub struct TgVerifyConfig {
    pub role_verified_linked: u64,
    pub role_verified_living: u64,
    pub living_minutes_required: u64,
    pub table_playtime: String,
    pub table_linking: String,
}

impl TgVerifyConfig {
    /// A configuration with zero role ids and empty table names.
    pub fn new() -> (r: Self)
        ensures
            r.role_verified_linked == 0,
            r.role_verified_living == 0,
            r.living_minutes_required == 0,
            r.table_playtime@.len() == 0,
            r.table_linking@.len() == 0,
    {
        TgVerifyConfig {
            role_verified_linked: 0,
            role_verified_living: 0,
            living_minutes_required: 0,
            table_playtime: String::new(),
            table_linking: String::new(),
        }
    }
}

impl ModuleConfig for TgVerifyConfig {
    open spec fn spec_fields(r: Seq<(String, ConfigField)>) -> bool {
        &&& r.len() == 5
        &&& r[0].0@ == "role_verified_linked"@ && r[0].1.field_type == ConfigEntryType::U64
            && r[0].1.description@ == "role to give users for linking their BYOND account"@
        &&& r[1].0@ == "role_verified_living"@ && r[1].1.field_type == ConfigEntryType::U64
            && r[1].1.description@
            == "role to give users who meet the minimum playtime threshold"@
        &&& r[2].0@ == "living_minutes_required"@ && r[2].1.field_type == ConfigEntryType::U64
            && r[2].1.description@ == "the playtime threshold for the verified living role"@
        &&& r[3].0@ == "table_linking"@ && r[3].1.field_type == ConfigEntryType::String
            && r[3].1.description@ == "the table to query for discord links"@
        &&& r[4].0@ == "table_playtime"@ && r[4].1.field_type == ConfigEntryType::String
            && r[4].1.description@ == "the table to query for player playtime"@
    }

    open spec fn ens_get(&self, field: Seq<char>, r: Result<ConfigValue, ConfigFieldError>) -> bool {
        if field == "role_verified_linked"@ {
            r matches Ok(v) && v matches ConfigValue::U64(u) && u == self.role_verified_linked
        } else if field == "role_verified_living"@ {
            r matches Ok(v) && v matches ConfigValue::U64(u) && u == self.role_verified_living
        } else if field == "living_minutes_required"@ {
            r matches Ok(v) && v matches ConfigValue::U64(u) && u == self.living_minutes_required
        } else if field == "table_linking"@ {
            r matches Ok(v) && v matches ConfigValue::String(s) && s@ == self.table_linking@
        } else if field == "table_playtime"@ {
            r matches Ok(v) && v matches ConfigValue::String(s) && s@ == self.table_playtime@
        } else {
            r matches Err(e) && e == ConfigFieldError::FieldNotFound
        }
    }

    open spec fn ens_set(
        pre: Self,
        field: Seq<char>,
        value: ConfigValue,
        post: Self,
        r: Result<(), ConfigFieldError>,
    ) -> bool {
        if field == "role_verified_linked"@ {
            match value {
                ConfigValue::U64(u) => r is Ok && post == (TgVerifyConfig {
                    role_verified_linked: u,
                    ..pre
                }),
                _ => (r matches Err(e) && e == ConfigFieldError::ValueWrongType) && post == pre,
            }
        } else if field == "role_verified_living"@ {
            match value {
                ConfigValue::U64(u) => r is Ok && post == (TgVerifyConfig {
                    role_verified_living: u,
                    ..pre
                }),
                _ => (r matches Err(e) && e == ConfigFieldError::ValueWrongType) && post == pre,
            }
        } else if field == "living_minutes_required"@ {
            match value {
                ConfigValue::U64(u) => r is Ok && post == (TgVerifyConfig {
                    living_minutes_required: u,
                    ..pre
                }),
                _ => (r matches Err(e) && e == ConfigFieldError::ValueWrongType) && post == pre,
            }
        } else if field == "table_linking"@ {
            match value {
                ConfigValue::String(s) => r is Ok && post == (TgVerifyConfig {
                    table_linking: s,
                    ..pre
                }),
                _ => (r matches Err(e) && e == ConfigFieldError::ValueWrongType) && post == pre,
            }
        } else if field == "table_playtime"@ {
            match value {
                ConfigValue::String(s) => r is Ok && post == (TgVerifyConfig {
                    table_playtime: s,
                    ..pre
                }),
                _ => (r matches Err(e) && e == ConfigFieldError::ValueWrongType) && post == pre,
            }
        } else {
            (r matches Err(e) && e == ConfigFieldError::FieldNotFound) && post == pre
        }
    }

    fn get_config_fields() -> (r: Vec<(String, ConfigField)>) {
        let mut r: Vec<(String, ConfigField)> = Vec::new();
        r.push(
            (
                String::from_str("role_verified_linked"),
                ConfigField::new(
                    ConfigEntryType::U64,
                    "role to give users for linking their BYOND account",
                ),
            ),
        );
        r.push(
            (
                String::from_str("role_verified_living"),
                ConfigField::new(
                    ConfigEntryType::U64,
                    "role to give users who meet the minimum playtime threshold",
                ),
            ),
        );
        r.push(
            (
                String::from_str("living_minutes_required"),
                ConfigField::new(
                    ConfigEntryType::U64,
                    "the playtime threshold for the verified living role",
                ),
            ),
        );
        r.push(
            (
                String::from_str("table_linking"),
                ConfigField::new(ConfigEntryType::String, "the table to query for discord links"),
            ),
        );
        r.push(
            (
                String::from_str("table_playtime"),
                ConfigField::new(ConfigEntryType::String, "the table to query for player playtime"),
            ),
        );
        r
    }

    fn get_config_entry(&self, field: &str) -> (r: Result<ConfigValue, ConfigFieldError>) {
        if str_eq(field, "role_verified_linked") {
            Ok(ConfigValue::U64(self.role_verified_linked))
        } else if str_eq(field, "role_verified_living") {
            Ok(ConfigValue::U64(self.role_verified_living))
        } else if str_eq(field, "living_minutes_required") {
            Ok(ConfigValue::U64(self.living_minutes_required))
        } else if str_eq(field, "table_linking") {
            Ok(ConfigValue::String(self.table_linking.clone()))
        } else if str_eq(field, "table_playtime") {
            Ok(ConfigValue::String(self.table_playtime.clone()))
        } else {
            Err(ConfigFieldError::FieldNotFound)
        }
    }

    fn set_config_entry(&mut self, field: &str, value: ConfigValue) -> (r: Result<
        (),
        ConfigFieldError,
    >) {
        if str_eq(field, "role_verified_linked") {
            self.role_verified_linked = value.to_u64()?;
        } else if str_eq(field, "role_verified_living") {
            self.role_verified_living = value.to_u64()?;
        } else if str_eq(field, "living_minutes_required") {
            self.living_minutes_required = value.to_u64()?;
        } else if str_eq(field, "table_linking") {
            self.table_linking = value.to_string()?;
        } else if str_eq(field, "table_playtime") {
            self.table_playtime = value.to_string()?;
        } else {
            return Err(ConfigFieldError::FieldNotFound);
        }
        Ok(())
    }
}

} // verus!
