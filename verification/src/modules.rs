//! The fixed set of modules hosted by the process.
//!
//! Module ids are stable strings chosen at build time; the id list is kept
//! here in sorted order, together with the facts the rest of the library
//! needs about it: which ids exist, which id names the orchestration
//! module, and which modules expose an externally visible command.

use vstd::prelude::*;
use crate::activation::ModuleManager;
use crate::config::ConfigManager;
use crate::errors::ErrorManager;
use crate::permissions::PermissionsManager;
use crate::text::{lex_le, lex_lt, str_eq};
use crate::tg_verify::TgVerify;
use crate::tgdb::TgDb;

verus! {

/// One hosted module instance. Exactly one instance of each module exists
/// process-wide; tenant-specific state lives in the persisted stores, not
/// in the instance (the orchestration module holds the in-memory cache of
/// those stores).
pub enum DragonBotModuleInstance {
    TgDb(TgDb),
    TgVerify(TgVerify),
    ConfigManager(ConfigManager),
    PermissionsManager(PermissionsManager),
    ErrorManager(ErrorManager),
    ModuleManager(ModuleManager),
}

impl DragonBotModuleInstance {
    /// The id of the module this instance hosts.
    pub open spec fn spec_module_id(&self) -> Seq<char> {
        match self {
            DragonBotModuleInstance::TgDb(_) => "database-bridge"@,
            DragonBotModuleInstance::TgVerify(_) => "tg-verify"@,
            DragonBotModuleInstance::ConfigManager(_) => "config-manager"@,
            DragonBotModuleInstance::PermissionsManager(_) => "permissions-manager"@,
            DragonBotModuleInstance::ErrorManager(_) => "error-manager"@,
            DragonBotModuleInstance::ModuleManager(_) => "module-manager"@,
        }
    }

    /// The id of the module this instance hosts.
    pub fn module_id(&self) -> (r: &'static str)
        ensures
            r@ == self.spec_module_id(),
    {
        match self {
            DragonBotModuleInstance::TgDb(_) => "database-bridge",
            DragonBotModuleInstance::TgVerify(_) => "tg-verify",
            DragonBotModuleInstance::ConfigManager(_) => "config-manager",
            DragonBotModuleInstance::PermissionsManager(_) => "permissions-manager",
            DragonBotModuleInstance::ErrorManager(_) => "error-manager",
            DragonBotModuleInstance::ModuleManager(_) => "module-manager",
        }
    }

    /// Whether this module exposes an externally visible command.
    pub fn command_name(&self) -> (r: Option<&'static str>)
        ensures
            match r {
                Some(name) => has_command(self.spec_module_id()) && name@ == self.spec_module_id(),
                None => !has_command(self.spec_module_id()),
            },
    {
        proof {
            lemma_distinct_module_ids();
            assert(module_ids()[0] == "config-manager"@);
            assert(module_ids()[1] == "database-bridge"@);
            assert(module_ids()[2] == "error-manager"@);
            assert(module_ids()[3] == "module-manager"@);
            assert(module_ids()[4] == "permissions-manager"@);
            assert(module_ids()[5] == "tg-verify"@);
        }
        match self {
            DragonBotModuleInstance::ConfigManager(_) => Some("config-manager"),
            DragonBotModuleInstance::PermissionsManager(_) => Some("permissions-manager"),
            DragonBotModuleInstance::ModuleManager(_) => Some("module-manager"),
            _ => None,
        }
    }
}

/// The six module ids are pairwise distinct.
pub proof fn lemma_distinct_module_ids()
    ensures
        forall|i: int, j: int|
            0 <= i < j < module_ids().len() ==> #[trigger] module_ids()[i]
                != #[trigger] module_ids()[j],
{
    lemma_module_ids_sorted();
}

/// The module ids, in sorted order.
pub open spec fn module_ids() -> Seq<Seq<char>> {
    seq![
        "config-manager"@,
        "database-bridge"@,
        "error-manager"@,
        "module-manager"@,
        "permissions-manager"@,
        "tg-verify"@,
    ]
}

/// An id names one of the built-in modules.
pub open spec fn known_module_id(id: Seq<char>) -> bool {
    module_ids().contains(id)
}

/// The id of the orchestration module, which owns per-tenant activation
/// state and is always reported active.
pub open spec fn orchestration_id() -> Seq<char> {
    "module-manager"@
}

/// The modules that expose an externally visible command; the remote
/// command entry of a module is named exactly by its id.
pub open spec fn has_command(id: Seq<char>) -> bool {
    id == "config-manager"@ || id == "module-manager"@ || id == "permissions-manager"@
}

/// Every module id, in sorted order.
pub fn all_module_ids() -> (r: Vec<&'static str>)
    ensures
        r.deep_view() == module_ids(),
{
    let mut ids: Vec<&'static str> = Vec::new();
    ids.push("config-manager");
    ids.push("database-bridge");
    ids.push("error-manager");
    ids.push("module-manager");
    ids.push("permissions-manager");
    ids.push("tg-verify");
    proof {
        assert(ids.deep_view() =~= module_ids());
    }
    ids
}

/// Whether an id names a built-in module.
pub fn is_known_module_id(id: &str) -> (r: bool)
    ensures
        r == known_module_id(id@),
{
    let r = str_eq(id, "config-manager") || str_eq(id, "database-bridge")
        || str_eq(id, "error-manager") || str_eq(id, "module-manager")
        || str_eq(id, "permissions-manager") || str_eq(id, "tg-verify");
    proof {
        lemma_known_module_id_cases(id@);
    }
    r
}

/// Whether an id names the orchestration module.
pub fn is_orchestration_id(id: &str) -> (r: bool)
    ensures
        r == (id@ == orchestration_id()),
{
    str_eq(id, "module-manager")
}

/// Whether the module named by a known id has a command.
pub fn module_id_has_command(id: &str) -> (r: bool)
    ensures
        r == has_command(id@),
{
    str_eq(id, "config-manager") || str_eq(id, "module-manager")
        || str_eq(id, "permissions-manager")
}

/// Membership in the id list is exactly the disjunction of the six ids.
pub proof fn lemma_known_module_id_cases(id: Seq<char>)
    ensures
        known_module_id(id) == (id == "config-manager"@ || id == "database-bridge"@
            || id == "error-manager"@ || id == "module-manager"@
            || id == "permissions-manager"@ || id == "tg-verify"@),
{
    let ids = module_ids();
    if id == "config-manager"@ {
        assert(ids[0] == id);
    } else if id == "database-bridge"@ {
        assert(ids[1] == id);
    } else if id == "error-manager"@ {
        assert(ids[2] == id);
    } else if id == "module-manager"@ {
        assert(ids[3] == id);
    } else if id == "permissions-manager"@ {
        assert(ids[4] == id);
    } else if ids.contains(id) {
        let i = choose|i: int| 0 <= i < ids.len() && ids[i] == id;
        assert(i == 5 || ids[i] == id && 0 <= i < 5);
        assert(ids[5] == "tg-verify"@);
    }
}

/// The id list is strictly sorted: earlier ids are lexicographically
/// smaller, so the list also holds no duplicates.
pub proof fn lemma_module_ids_sorted()
    ensures
        forall|i: int, j: int|
            0 <= i < j < module_ids().len() ==> lex_lt(
                #[trigger] module_ids()[i],
                #[trigger] module_ids()[j],
            ),
{
    reveal_strlit("config-manager");
    reveal_strlit("database-bridge");
    reveal_strlit("error-manager");
    reveal_strlit("module-manager");
    reveal_strlit("permissions-manager");
    reveal_strlit("tg-verify");
    let ids = module_ids();
    assert forall|i: int, j: int| 0 <= i < j < ids.len() implies lex_lt(
        #[trigger] ids[i],
        #[trigger] ids[j],
    ) by {
        // Every pair of ids differs in its first character, which decides
        // the lexicographic order outright.
        assert(ids[i].len() > 0 && ids[j].len() > 0);
        assert(ids[i][0] < ids[j][0]);
        assert(lex_le(ids[i], ids[j]));
        assert(ids[i] != ids[j]);
    }
}

} // verus!
