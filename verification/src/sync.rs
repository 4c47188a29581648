//! Command synchronization and the decision spine of inbound commands.
//!
//! The remote command registry is an external, eventually consistent
//! collaborator reached over the network; everything here computes plans
//! and records outcomes over plain values, and the host performs the
//! remote creations and deletions. A resync for one tenant runs under the
//! orchestration module's write lock; resyncs of different tenants are
//! independent.

use vstd::prelude::*;
use crate::activation::ModuleManagerError;
use crate::config::{
    spec_render, ConfigFieldError, ConfigEntryType, ConfigManager, ConfigValue, ModuleConfig,
};
use crate::errors::{GetModuleError, ModuleError};
use crate::modules::{
    has_command, is_known_module_id, known_module_id, module_id_has_command, module_ids,
    orchestration_id,
};
use crate::permissions::{PermissionsError, PermissionsManager, PermissionsManagerConfig};
use crate::registry::ModuleRegistry;
use crate::text::{clone_strings, kept_ids, str_eq, u64_to_dec, dec_string};

verus! {

/// The plan of a full resync for one tenant: delete every currently
/// registered command unconditionally, then create one command per active
/// module that has one. Ids in the active listing that name no known
/// module are skipped rather than failing the plan.
pub struct SyncPlan {
    pub deletes: Vec<String>,
    pub creates: Vec<String>,
}

/// The per-command outcomes of a create batch: which commands were
/// created and which failed. A failure never aborts the remaining items.
pub struct SyncReport {
    pub created: Vec<String>,
    pub failed: Vec<String>,
}

/// The names whose paired outcome equals `want`, in order.
pub open spec fn selected(names: Seq<Seq<char>>, results: Seq<bool>, want: bool) -> Seq<Seq<char>>
    recommends
        names.len() == results.len(),
    decreases names.len(),
{
    if names.len() == 0 {
        Seq::empty()
    } else {
        let prev = selected(names.drop_last(), results.drop_last(), want);
        if results.last() == want {
            prev.push(names.last())
        } else {
            prev
        }
    }
}

/// One `"{prefix}{id}\n"` line per id.
pub open spec fn listing_lines(ids: Seq<Seq<char>>, prefix: Seq<char>) -> Seq<char>
    decreases ids.len(),
{
    if ids.len() == 0 {
        Seq::empty()
    } else {
        listing_lines(ids.drop_last(), prefix) + prefix + ids.last() + "\n"@
    }
}

/// The handler that stands between the transport layer and the modules.
pub struct ModuleEventHandler;

impl ModuleEventHandler {
    /// Whether an inbound command interaction reaches its module: only
    /// inside a tenant, and only when the activation query answered that
    /// the target module is active; a failed query drops the event.
    pub fn should_dispatch(guild: Option<u64>, active: &Result<bool, ModuleError>) -> (r: bool)
        ensures
            r == (guild is Some && (active matches Ok(b) && *b)),
    {
        match guild {
            Some(_) => match active {
                Ok(b) => *b,
                Err(_) => false,
            },
            None => false,
        }
    }

    /// Plan a full resync from the currently registered command names and
    /// the tenant's active-module listing.
    pub fn full_resync_plan(current: &Vec<String>, active: &Vec<String>) -> (r: SyncPlan)
        ensures
            r.deletes.deep_view() == current.deep_view(),
            r.creates.deep_view() == kept_ids(
                active.deep_view(),
                |x: Seq<char>| known_module_id(x) && has_command(x),
            ),
    {
        let ghost keep = |x: Seq<char>| known_module_id(x) && has_command(x);
        let mut creates: Vec<String> = Vec::new();
        let mut i: usize = 0;
        proof {
            assert(active.deep_view().skip(0) =~= active.deep_view());
            assert(creates.deep_view() + kept_ids(active.deep_view(), keep) =~= kept_ids(
                active.deep_view(),
                keep,
            ));
        }
        while i < active.len()
            invariant
                i <= active@.len(),
                keep == (|x: Seq<char>| known_module_id(x) && has_command(x)),
                creates.deep_view() + kept_ids(active.deep_view().skip(i as int), keep) == kept_ids(
                    active.deep_view(),
                    keep,
                ),
            decreases active@.len() - i,
        {
            let ghost pre = creates.deep_view();
            let ghost tail = active.deep_view().skip(i as int);
            proof {
                assert(tail.len() > 0);
                assert(tail.first() == active.deep_view()[i as int]);
                assert(tail.drop_first() =~= active.deep_view().skip(i + 1));
                assert(active@[i as int]@ == active.deep_view()[i as int]);
            }
            let id = active[i].as_str();
            if is_known_module_id(id) && module_id_has_command(id) {
                creates.push(String::from_str(id));
                proof {
                    assert(creates.deep_view() =~= pre.push(active.deep_view()[i as int]));
                    assert(kept_ids(tail, keep) == seq![tail.first()] + kept_ids(
                        tail.drop_first(),
                        keep,
                    ));
                    assert(creates.deep_view() + kept_ids(active.deep_view().skip(i + 1), keep)
                        =~= pre + kept_ids(tail, keep));
                }
            } else {
                proof {
                    assert(kept_ids(tail, keep) == kept_ids(tail.drop_first(), keep));
                }
            }
            i += 1;
        }
        proof {
            assert(active.deep_view().skip(active@.len() as int) =~= Seq::<Seq<char>>::empty());
            assert(creates.deep_view() =~= creates.deep_view() + kept_ids(
                active.deep_view().skip(active@.len() as int),
                keep,
            ));
        }
        SyncPlan { deletes: clone_strings(current), creates }
    }

    /// The command to register after one module was activated: a module's
    /// remote command entry is named exactly by its id, and a module
    /// without a command registers nothing.
    pub fn activation_create_name(module: &str) -> (r: Option<String>)
        ensures
            match r {
                Some(name) => known_module_id(module@) && has_command(module@) && name@ == module@,
                None => !(known_module_id(module@) && has_command(module@)),
            },
    {
        if is_known_module_id(module) && module_id_has_command(module) {
            Some(String::from_str(module))
        } else {
            None
        }
    }

    /// Which registered command to delete after one module was
    /// deactivated: the first whose name equals the module's id exactly,
    /// and only that one.
    pub fn deactivation_delete_index(current: &Vec<String>, module: &str) -> (r: Option<usize>)
        ensures
            match r {
                Some(i) => i < current@.len() && current.deep_view()[i as int] == module@
                    && (forall|j: int| 0 <= j < i ==> current.deep_view()[j] != module@),
                None => !current.deep_view().contains(module@),
            },
    {
        let mut i: usize = 0;
        while i < current.len()
            invariant
                i <= current@.len(),
                forall|j: int| 0 <= j < i ==> #[trigger] current.deep_view()[j] != module@,
            decreases current@.len() - i,
        {
            if str_eq(current[i].as_str(), module) {
                proof {
                    assert(current.deep_view()[i as int] == module@);
                }
                return Some(i);
            }
            i += 1;
        }
        proof {
            if current.deep_view().contains(module@) {
                let j = choose|j: int|
                    0 <= j < current.deep_view().len() && current.deep_view()[j] == module@;
                assert(current.deep_view()[j] != module@);
            }
        }
        None
    }

    /// Record the outcome of each attempted creation: successes and
    /// failures are both kept, and a failure never aborts the rest of the
    /// batch.
    pub fn record_sync_results(creates: &Vec<String>, results: &Vec<bool>) -> (r: SyncReport)
        requires
            creates@.len() == results@.len(),
        ensures
            r.created.deep_view() == selected(creates.deep_view(), results@, true),
            r.failed.deep_view() == selected(creates.deep_view(), results@, false),
    {
        let mut created: Vec<String> = Vec::new();
        let mut failed: Vec<String> = Vec::new();
        let mut i: usize = 0;
        proof {
            assert(creates.deep_view().take(0) =~= Seq::<Seq<char>>::empty());
            assert(results@.take(0) =~= Seq::<bool>::empty());
        }
        while i < creates.len()
            invariant
                i <= creates@.len(),
                creates@.len() == results@.len(),
                created.deep_view() == selected(
                    creates.deep_view().take(i as int),
                    results@.take(i as int),
                    true,
                ),
                failed.deep_view() == selected(
                    creates.deep_view().take(i as int),
                    results@.take(i as int),
                    false,
                ),
            decreases creates@.len() - i,
        {
            let ghost pre_c = created.deep_view();
            let ghost pre_f = failed.deep_view();
            proof {
                assert(creates.deep_view().take(i + 1).drop_last() =~= creates.deep_view().take(
                    i as int,
                ));
                assert(results@.take(i + 1).drop_last() =~= results@.take(i as int));
                assert(creates.deep_view().take(i + 1).last() == creates.deep_view()[i as int]);
                assert(results@.take(i + 1).last() == results@[i as int]);
                assert(creates@[i as int]@ == creates.deep_view()[i as int]);
            }
            if results[i] {
                created.push(creates[i].clone());
                proof {
                    assert(created.deep_view() =~= pre_c.push(creates.deep_view()[i as int]));
                }
            } else {
                failed.push(creates[i].clone());
                proof {
                    assert(failed.deep_view() =~= pre_f.push(creates.deep_view()[i as int]));
                }
            }
            i += 1;
        }
        proof {
            assert(creates.deep_view().take(creates@.len() as int) =~= creates.deep_view());
            assert(results@.take(results@.len() as int) =~= results@);
        }
        SyncReport { created, failed }
    }
}

/// One parsed orchestration-module command, as the transport layer hands
/// it over.
pub enum ModuleManagerCommand {
    Activate(String),
    Deactivate(String),
    ListActive,
    ListAll,
}

/// The remote follow-up an orchestration command leaves for the host:
/// register one command, delete the one registered under a name, or
/// nothing.
pub enum SyncAction {
    CreateCommand(String),
    DeleteCommand(String),
    NoRemoteChange,
}

/// Everything one handled orchestration command produces: the reply to
/// show the user, the remote follow-up, and the new activation record to
/// persist when the command mutated it.
pub struct CommandOutcome {
    pub response: Option<String>,
    pub action: SyncAction,
    pub record: Option<Vec<String>>,
}

impl ModuleEventHandler {
    /// The reply of the list-active subcommand: a diff-style block with
    /// one `+ id` line per active module.
    pub fn list_active_response(active: &Vec<String>) -> (r: String)
        ensures
            r@ == "```diff\n"@ + listing_lines(active.deep_view(), "+ "@) + "```\n"@,
    {
        let mut out = String::from_str("```diff\n");
        let mut i: usize = 0;
        proof {
            assert(active.deep_view().take(0) =~= Seq::<Seq<char>>::empty());
            assert(out@ =~= "```diff\n"@ + listing_lines(active.deep_view().take(0), "+ "@));
        }
        while i < active.len()
            invariant
                i <= active@.len(),
                out@ == "```diff\n"@ + listing_lines(active.deep_view().take(i as int), "+ "@),
            decreases active@.len() - i,
        {
            let ghost pre = out@;
            proof {
                assert(active.deep_view().take(i + 1).drop_last() =~= active.deep_view().take(
                    i as int,
                ));
                assert(active.deep_view().take(i + 1).last() == active.deep_view()[i as int]);
                assert(active@[i as int]@ == active.deep_view()[i as int]);
            }
            out.append("+ ");
            out.append(active[i].as_str());
            out.append("\n");
            proof {
                assert(out@ =~= "```diff\n"@ + listing_lines(
                    active.deep_view().take(i + 1),
                    "+ "@,
                ));
            }
            i += 1;
        }
        proof {
            assert(active.deep_view().take(active@.len() as int) =~= active.deep_view());
        }
        out.append("```\n");
        proof {
            assert(out@ =~= "```diff\n"@ + listing_lines(active.deep_view(), "+ "@) + "```\n"@);
        }
        out
    }

    /// The reply of the list-all subcommand: one line per built-in module
    /// id, in sorted order.
    pub fn list_all_response() -> (r: String)
        ensures
            r@ == "```diff\n"@ + listing_lines(module_ids(), ""@) + "```\n"@,
    {
        let ids = crate::modules::all_module_ids();
        let mut out = String::from_str("```diff\n");
        let mut i: usize = 0;
        proof {
            reveal_strlit("");
            assert(ids.deep_view().take(0) =~= Seq::<Seq<char>>::empty());
            assert(out@ =~= "```diff\n"@ + listing_lines(ids.deep_view().take(0), ""@));
        }
        while i < ids.len()
            invariant
                i <= ids@.len(),
                ids.deep_view() == module_ids(),
                out@ == "```diff\n"@ + listing_lines(ids.deep_view().take(i as int), ""@),
            decreases ids@.len() - i,
        {
            proof {
                reveal_strlit("");
                assert(ids.deep_view().take(i + 1).drop_last() =~= ids.deep_view().take(i as int));
                assert(ids.deep_view().take(i + 1).last() == ids.deep_view()[i as int]);
                assert(ids@[i as int]@ == ids.deep_view()[i as int]);
            }
            out.append(ids[i]);
            out.append("\n");
            proof {
                assert(out@ =~= "```diff\n"@ + listing_lines(ids.deep_view().take(i + 1), ""@));
            }
            i += 1;
        }
        proof {
            assert(ids.deep_view().take(ids@.len() as int) =~= ids.deep_view());
        }
        out.append("```\n");
        proof {
            assert(out@ =~= "```diff\n"@ + listing_lines(module_ids(), ""@) + "```\n"@);
        }
        out
    }

    /// Handle one orchestration-module command: the decision spine between
    /// the transport layer, the permission gate's verdict, and the
    /// registry. A mutating command without permission does nothing; a
    /// mutating command runs under the orchestration module's write lock
    /// and hands back the record to persist and the remote follow-up; the
    /// lock state the caller saw before the call is restored on every
    /// path.
    pub fn handle_module_manager_command(
        registry: &mut ModuleRegistry,
        tenant: u64,
        command: &ModuleManagerCommand,
        permitted: bool,
    ) -> (r: Result<CommandOutcome, ModuleError>)
        requires
            old(registry).wf(),
        ensures
            final(registry).wf(),
            forall|i: int|
                0 <= i < 6 ==> (#[trigger] final(registry).slots@[i]).readers == old(registry).slots@[i].readers && final(registry).slots@[i].writer == old(registry).slots@[i].writer,
            (match command {
                ModuleManagerCommand::Activate(m) => {
                    &&& !permitted ==> (r matches Ok(p) && p.response is None
                        && p.action is NoRemoteChange && p.record is None && final(registry).spec_manager() == old(registry).spec_manager())
                    &&& permitted && !old(registry).spec_writer(3) && old(registry).spec_readers(3)
                        == 0 ==> ({
                        let m0 = old(registry).spec_manager();
                        &&& (!m0.spec_is_active(tenant, m@) && known_module_id(m@)) ==> (
                        r matches Ok(p) && (p.response matches Some(t) && t@ == "Module `"@ + m@
                            + "` activated."@) && (has_command(m@)
                            ==> (p.action matches SyncAction::CreateCommand(n) && n@ == m@)) && (
                        !has_command(m@) ==> p.action is NoRemoteChange) && (
                        p.record matches Some(rec) && rec.deep_view() == m0.spec_active_set(
                            tenant,
                        ).push(m@)) && final(registry).spec_manager().spec_active_set(tenant)
                            == m0.spec_active_set(tenant).push(m@))
                        &&& m0.spec_is_active(tenant, m@) ==> (r matches Err(
                            ModuleError::ModuleManagerError(e),
                        ) && e == ModuleManagerError::ModuleAlreadyActive && final(registry).spec_manager() == m0)
                        &&& (!m0.spec_is_active(tenant, m@) && !known_module_id(m@)) ==> (
                        r matches Err(ModuleError::ModuleManagerError(e)) && e
                            == ModuleManagerError::ModuleNotFound && final(registry).spec_manager()
                            == m0)
                    })
                },
                ModuleManagerCommand::Deactivate(m) => {
                    &&& !permitted ==> (r matches Ok(p) && p.response is None
                        && p.action is NoRemoteChange && p.record is None && final(registry).spec_manager() == old(registry).spec_manager())
                    &&& permitted && !old(registry).spec_writer(3) && old(registry).spec_readers(3)
                        == 0 ==> ({
                        let m0 = old(registry).spec_manager();
                        &&& (m@ != orchestration_id() && known_module_id(m@) && m0.spec_is_active(
                            tenant,
                            m@,
                        )) ==> (r matches Ok(p) && (p.response matches Some(t) && t@ == "Module `"@
                            + m@ + "` deactivated."@) && (
                        p.action matches SyncAction::DeleteCommand(n) && n@ == m@) && (
                        p.record matches Some(rec) && rec.deep_view() == kept_ids(
                            m0.spec_active_set(tenant),
                            |x: Seq<char>| x != m@,
                        )) && !final(registry).spec_manager().spec_is_active(tenant, m@))
                        &&& m@ == orchestration_id() ==> (r matches Err(
                            ModuleError::ModuleManagerError(e),
                        ) && e == ModuleManagerError::CannotInactivateManager && final(registry).spec_manager() == m0)
                        &&& (m@ != orchestration_id() && !known_module_id(m@)) ==> (r matches Err(
                            ModuleError::ModuleManagerError(e),
                        ) && e == ModuleManagerError::ModuleNotFound && final(registry).spec_manager() == m0)
                        &&& (m@ != orchestration_id() && known_module_id(m@) && !m0.spec_is_active(
                            tenant,
                            m@,
                        )) ==> (r matches Err(ModuleError::ModuleManagerError(e)) && e
                            == ModuleManagerError::ModuleAlreadyInactive && final(registry).spec_manager() == m0)
                    })
                },
                ModuleManagerCommand::ListActive => {
                    !old(registry).spec_writer(3) && old(registry).spec_readers(3) < u64::MAX ==> (
                    r matches Ok(p) && (p.response matches Some(t) && t@ == "```diff\n"@
                        + listing_lines(
                        old(registry).spec_manager().spec_all_active(tenant),
                        "+ "@,
                    ) + "```\n"@) && p.action is NoRemoteChange && p.record is None && final(registry).spec_manager() == old(registry).spec_manager())
                },
                ModuleManagerCommand::ListAll => (r matches Ok(p) && (
                p.response matches Some(t) && t@ == "```diff\n"@ + listing_lines(module_ids(), ""@)
                    + "```\n"@) && p.action is NoRemoteChange && p.record is None && final(registry).spec_manager() == old(registry).spec_manager()),
            }),
    {
        match command {
            ModuleManagerCommand::Activate(m) => {
                if !permitted {
                    return Ok(
                        CommandOutcome {
                            response: None,
                            action: SyncAction::NoRemoteChange,
                            record: None,
                        },
                    );
                }
                match registry.activate_module(tenant, m.as_str()) {
                    Ok(rec) => {
                        let mut text = String::from_str("Module `");
                        text.append(m.as_str());
                        text.append("` activated.");
                        proof {
                            assert(text@ =~= "Module `"@ + m@ + "` activated."@);
                        }
                        let action = match Self::activation_create_name(m.as_str()) {
                            Some(name) => SyncAction::CreateCommand(name),
                            None => SyncAction::NoRemoteChange,
                        };
                        Ok(CommandOutcome { response: Some(text), action, record: Some(rec) })
                    },
                    Err(e) => Err(e),
                }
            },
            ModuleManagerCommand::Deactivate(m) => {
                if !permitted {
                    return Ok(
                        CommandOutcome {
                            response: None,
                            action: SyncAction::NoRemoteChange,
                            record: None,
                        },
                    );
                }
                match registry.deactivate_module(tenant, m.as_str()) {
                    Ok(rec) => {
                        let mut text = String::from_str("Module `");
                        text.append(m.as_str());
                        text.append("` deactivated.");
                        proof {
                            assert(text@ =~= "Module `"@ + m@ + "` deactivated."@);
                        }
                        Ok(
                            CommandOutcome {
                                response: Some(text),
                                action: SyncAction::DeleteCommand(String::from_str(m.as_str())),
                                record: Some(rec),
                            },
                        )
                    },
                    Err(e) => Err(e),
                }
            },
            ModuleManagerCommand::ListActive => {
                let ghost s0 = *registry;
                proof {
                    crate::registry::lemma_orchestration_known();
                }
                let holder = match registry.try_acquire_read("module-manager") {
                    Ok(h) => h,
                    Err(e) => {
                        return Err(ModuleError::GetModuleError(e));
                    },
                };
                let active = registry.get_all_active_module_ids(&holder, tenant);
                registry.release(holder);
                proof {
                    assert(registry.slots@ =~= s0.slots@);
                }
                let text = Self::list_active_response(&active);
                Ok(
                    CommandOutcome {
                        response: Some(text),
                        action: SyncAction::NoRemoteChange,
                        record: None,
                    },
                )
            },
            ModuleManagerCommand::ListAll => {
                let text = Self::list_all_response();
                Ok(
                    CommandOutcome {
                        response: Some(text),
                        action: SyncAction::NoRemoteChange,
                        record: None,
                    },
                )
            },
        }
    }

    /// Handle one config-manager field command against a module's loaded
    /// configuration: without a new value the current value is read and
    /// rendered, with one the field is written; either way the reply (or
    /// the field error, which the caller reports) comes back, and the
    /// caller persists the configuration after a successful write.
    pub fn handle_config_field_command<C: ModuleConfig>(
        config: &mut C,
        field_type: ConfigEntryType,
        field: &str,
        new_value: Option<ConfigValue>,
    ) -> (r: Result<String, ConfigFieldError>)
        ensures
            new_value matches Some(v) ==> exists|rs: Result<(), ConfigFieldError>|
                C::ens_set(*old(config), field@, v, *final(config), rs) && (match rs {
                    Ok(_) => r matches Ok(out) && out@ == "Updated config entry."@,
                    Err(e) => r matches Err(e2) && e2 == e,
                }),
            new_value is None ==> (*final(config) == *old(config) && exists|
                rg: Result<ConfigValue, ConfigFieldError>,
            |
                old(config).ens_get(field@, rg) && (match rg {
                    Ok(v) => (match spec_render(field_type, v) {
                        Ok(t) => r matches Ok(out) && out@ == "Current value: "@ + t,
                        Err(e) => r matches Err(e2) && e2 == e,
                    }),
                    Err(e) => r matches Err(e2) && e2 == e,
                })),
    {
        match new_value {
            Some(v) => {
                match config.set_config_entry(field, v) {
                    Ok(_) => Ok(String::from_str("Updated config entry.")),
                    Err(e) => Err(e),
                }
            },
            None => {
                match config.get_config_entry(field) {
                    Ok(v) => {
                        match ConfigManager::render_value(field_type, v) {
                            Ok(rendered) => {
                                let mut out = String::from_str("Current value: ");
                                out.append(rendered.as_str());
                                Ok(out)
                            },
                            Err(e) => Err(e),
                        }
                    },
                    Err(e) => Err(e),
                }
            },
        }
    }

    /// Handle one permissions-manager command against a tenant's loaded
    /// grant table: grant or revoke one permission id for one actor, with
    /// the reply to show; the caller persists the table after a
    /// successful mutation. A command without permission does nothing.
    pub fn handle_permission_command(
        manager: &PermissionsManager,
        config: &mut PermissionsManagerConfig,
        grant: bool,
        target: u64,
        namespace: &str,
        permission: &str,
        permitted: bool,
    ) -> (r: Result<Option<String>, PermissionsError>)
        ensures
            !permitted ==> (r matches Ok(o) && o is None && *final(config) == *old(config)),
            permitted && grant ==> (match r {
                Ok(o) => old(config).spec_granted(namespace@, target, permission@) == false && (
                o matches Some(t) && t@ == "Granted `"@ + namespace@ + ":"@ + permission@
                    + "` to "@ + dec_string(target as nat)) && final(config).spec_granted(
                    namespace@,
                    target,
                    permission@,
                ),
                Err(e) => e == PermissionsError::PermissionAlreadyGiven && old(config).spec_granted(namespace@, target, permission@) && *final(config) == *old(config),
            }),
            permitted && !grant ==> (match r {
                Ok(o) => old(config).spec_granted(namespace@, target, permission@) && (
                o matches Some(t) && t@ == "Revoked `"@ + namespace@ + ":"@ + permission@
                    + "` from "@ + dec_string(target as nat)) && !final(config).spec_granted(
                    namespace@,
                    target,
                    permission@,
                ),
                Err(e) => e == PermissionsError::PermissionNotGiven && !old(config).spec_granted(
                    namespace@,
                    target,
                    permission@,
                ) && *final(config) == *old(config),
            }),
    {
        if !permitted {
            return Ok(None);
        }
        if grant {
            match manager.give_permission_str(config, target, namespace, permission) {
                Ok(_) => {
                    let mut out = String::from_str("Granted `");
                    out.append(namespace);
                    out.append(":");
                    out.append(permission);
                    out.append("` to ");
                    out.append(u64_to_dec(target).as_str());
                    proof {
                        assert(out@ =~= "Granted `"@ + namespace@ + ":"@ + permission@ + "` to "@
                            + dec_string(target as nat));
                    }
                    Ok(Some(out))
                },
                Err(e) => Err(e),
            }
        } else {
            match manager.take_permission_str(config, target, namespace, permission) {
                Ok(_) => {
                    let mut out = String::from_str("Revoked `");
                    out.append(namespace);
                    out.append(":");
                    out.append(permission);
                    out.append("` from ");
                    out.append(u64_to_dec(target).as_str());
                    proof {
                        assert(out@ =~= "Revoked `"@ + namespace@ + ":"@ + permission@ + "` from "@
                            + dec_string(target as nat));
                    }
                    Ok(Some(out))
                },
                Err(e) => Err(e),
            }
        }
    }
}

} // verus!
