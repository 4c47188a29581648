//! Error taxonomy of the library, and the error-manager module that
//! collects reported failures.

use vstd::prelude::*;
use crate::config::{ConfigField, ConfigFieldError, ConfigValue, ModuleConfig};
use crate::permissions::{DragonModulePermission, ModulePermission, PermissionsError};
use crate::activation::ModuleManagerError;
use crate::text::str_eq;

verus! {

/// Storage-layer failure: a persisted document could not be decoded
/// (`SerdeError`) or could not be read or written (`IoError`). The payload
/// is the underlying failure rendered as text.
#[derive(Debug)]
pub enum ConfigError {
    SerdeError(String),
    IoError(String),
}

/// Failure inside the database bridge module. The game-database connection
/// itself lives outside the library; its errors arrive rendered as text.
#[derive(Debug)]
pub enum TgDbError {
    MysqlError(String),
    InternalError(String),
    NotConnected,
}

/// Failure reported by the remote command registry during command
/// synchronization; best effort, recorded per item.
#[derive(Debug)]
pub enum CommandError {
    RemoteError(String),
}

/// Failure while acquiring a module from the registry: the id names no
/// known module, or the slot could not be locked in time.
#[derive(Debug, PartialEq, Eq, Structural)]
pub enum GetModuleError {
    ModuleNotFound,
    ModuleBlocked,
}

/// Any failure a module can report.
#[derive(Debug)]
pub enum ModuleError {
    TgDbError(TgDbError),
    ModuleManagerError(ModuleManagerError),
    PermissionsError(PermissionsError),
    ConfigError(ConfigError),
    CommandError(CommandError),
    GetModuleError(GetModuleError),
}

impl ModuleError {
    /// The label naming this error's category.
    pub open spec fn spec_label(&self) -> Seq<char> {
        match self {
            ModuleError::TgDbError(_) => "TgDbError"@,
            ModuleError::ModuleManagerError(_) => "ModuleManagerError"@,
            ModuleError::PermissionsError(_) => "PermissionsError"@,
            ModuleError::ConfigError(_) => "ConfigError"@,
            ModuleError::CommandError(_) => "CommandError"@,
            ModuleError::GetModuleError(_) => "GetModuleError"@,
        }
    }

    /// The label naming this error's category.
    pub fn label(&self) -> (r: &'static str)
        ensures
            r@ == self.spec_label(),
    {
        match self {
            ModuleError::TgDbError(_) => "TgDbError",
            ModuleError::ModuleManagerError(_) => "ModuleManagerError",
            ModuleError::PermissionsError(_) => "PermissionsError",
            ModuleError::ConfigError(_) => "ConfigError",
            ModuleError::CommandError(_) => "CommandError",
            ModuleError::GetModuleError(_) => "GetModuleError",
        }
    }
}

/// The log line recorded for one module failure.
pub open spec fn spec_error_line(module: Seq<char>, error: &ModuleError) -> Seq<char> {
    "["@ + module + "]["@ + error.spec_label() + "]"@
}

/// The error-manager module: keeps a log of every reported failure, and
/// one log per reporting module.
pub struct ErrorManager {
    pub all_error_log: Vec<String>,
    pub module_error_log: Vec<(String, String)>,
}

/// The lines recorded for one module, in order.
pub open spec fn entries_for(log: Seq<(Seq<char>, Seq<char>)>, module: Seq<char>) -> Seq<Seq<char>>
    decreases log.len(),
{
    if log.len() == 0 {
        Seq::empty()
    } else {
        let prev = entries_for(log.drop_last(), module);
        if log.last().0 == module {
            prev.push(log.last().1)
        } else {
            prev
        }
    }
}

impl ErrorManager {
    /// An empty log.
    pub fn new() -> (r: Self)
        ensures
            r.all_error_log@.len() == 0,
            r.module_error_log@.len() == 0,
    {
        ErrorManager { all_error_log: Vec::new(), module_error_log: Vec::new() }
    }

    /// Record one module failure: the rendered line is appended to the
    /// overall log and attributed to the reporting module; every other
    /// module's entries are untouched.
    pub fn module_error(&mut self, module_id: &str, error: &ModuleError)
        ensures
            final(self).all_error_log.deep_view() == old(self).all_error_log.deep_view().push(
                spec_error_line(module_id@, error),
            ),
            final(self).module_error_log.deep_view() == old(self).module_error_log.deep_view().push(
                (module_id@, spec_error_line(module_id@, error)),
            ),
    {
        let mut line = String::from_str("[");
        line.append(module_id);
        line.append("][");
        line.append(error.label());
        line.append("]");
        let copy = line.clone();
        self.all_error_log.push(line);
        self.module_error_log.push((String::from_str(module_id), copy));
        proof {
            assert(self.all_error_log.deep_view() =~= old(self).all_error_log.deep_view().push(
                spec_error_line(module_id@, error),
            ));
            assert(self.module_error_log.deep_view() =~= old(
                self,
            ).module_error_log.deep_view().push((module_id@, spec_error_line(module_id@, error))));
        }
    }

    /// The lines recorded for one module, in order.
    pub fn module_errors(&self, module: &str) -> (r: Vec<String>)
        ensures
            r.deep_view() == entries_for(self.module_error_log.deep_view(), module@),
    {
        let mut r: Vec<String> = Vec::new();
        let mut i: usize = 0;
        proof {
            assert(self.module_error_log.deep_view().take(0) =~= Seq::<
                (Seq<char>, Seq<char>),
            >::empty());
        }
        while i < self.module_error_log.len()
            invariant
                i <= self.module_error_log@.len(),
                r.deep_view() == entries_for(
                    self.module_error_log.deep_view().take(i as int),
                    module@,
                ),
            decreases self.module_error_log@.len() - i,
        {
            let ghost pre = r.deep_view();
            let ghost log = self.module_error_log.deep_view();
            proof {
                assert(log.take(i + 1).drop_last() =~= log.take(i as int));
                assert(log.take(i + 1).last() == log[i as int]);
                assert(self.module_error_log@[i as int].0@ == log[i as int].0);
                assert(self.module_error_log@[i as int].1@ == log[i as int].1);
            }
            if str_eq(self.module_error_log[i].0.as_str(), module) {
                r.push(self.module_error_log[i].1.clone());
                proof {
                    assert(r.deep_view() =~= pre.push(log[i as int].1));
                }
            }
            i += 1;
        }
        proof {
            assert(self.module_error_log.deep_view().take(self.module_error_log@.len() as int)
                =~= self.module_error_log.deep_view());
        }
        r
    }
}

impl DragonModulePermission for ErrorManager {
    open spec fn spec_all_permissions(&self) -> Seq<ModulePermission> {
        Seq::empty()
    }

    fn all_permissions(&self) -> (r: Vec<ModulePermission>) {
        let r: Vec<ModulePermission> = Vec::new();
        proof {
            assert(r@ =~= Seq::<ModulePermission>::empty());
        }
        r
    }
}

/// The error manager has no user-facing configuration.
#[derive(Default)]
pub struct ErrorManagerConfig;

impl ModuleConfig for ErrorManagerConfig {
    open spec fn spec_fields(r: Seq<(String, ConfigField)>) -> bool {
        r.len() == 0
    }

    open spec fn ens_get(&self, field: Seq<char>, r: Result<ConfigValue, ConfigFieldError>) -> bool {
        r matches Err(e) && e == ConfigFieldError::FieldNotFound
    }

    open spec fn ens_set(
        pre: Self,
        field: Seq<char>,
        value: ConfigValue,
        post: Self,
        r: Result<(), ConfigFieldError>,
    ) -> bool {
        post == pre && (r matches Err(e) && e == ConfigFieldError::FieldNotFound)
    }

    fn get_config_fields() -> (r: Vec<(String, ConfigField)>) {
        Vec::new()
    }

    fn get_config_entry(&self, _field: &str) -> (r: Result<ConfigValue, ConfigFieldError>) {
        Err(ConfigFieldError::FieldNotFound)
    }

    fn set_config_entry(&mut self, _field: &str, _value: ConfigValue) -> (r: Result<
        (),
        ConfigFieldError,
    >) {
        Err(ConfigFieldError::FieldNotFound)
    }
}

} // verus!
