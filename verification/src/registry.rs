//! The module registry: one lock-guarded slot per module, constructed
//! once and never resized.
//!
//! Each slot models its reader-writer lock by a reader count and a writer
//! flag: any number of concurrent readers, or exactly one writer, never
//! both. The registry decides each acquisition immediately — exactly what
//! a zero-timeout request needs: under contention it fails with
//! `ModuleBlocked` and never blocks. A caller that may wait (an untimed or
//! timed acquisition) retries around these immediate attempts; the
//! scheduling of that waiting lives with the host, not here.

use vstd::prelude::*;
use crate::activation::{sanitized_record, ModuleManager, ModuleManagerError};
use crate::config::ConfigManager;
use crate::errors::{ErrorManager, GetModuleError, ModuleError};
use crate::modules::{
    known_module_id, lemma_distinct_module_ids, module_ids, orchestration_id,
    DragonBotModuleInstance,
};
use crate::permissions::PermissionsManager;
use crate::text::{kept_ids, str_eq};
use crate::tg_verify::TgVerify;
use crate::tgdb::TgDb;

verus! {

/// One slot: a module instance behind a reader-writer lock.
pub struct ModuleSlot {
    pub instance: DragonBotModuleInstance,
    pub readers: u64,
    pub writer: bool,
}

/// A scoped-acquisition handle: which slot is held, and in which mode.
/// The handle is consumed by `release`; every accessor demands that the
/// lock it names is really held.
pub struct ModuleHolder {
    pub slot: usize,
    pub write: bool,
}

/// The registry: one slot per module id, in sorted id order.
pub struct ModuleRegistry {
    pub slots: Vec<ModuleSlot>,
}

/// The slot index a known module id maps to.
pub open spec fn index_of_id(id: Seq<char>) -> int {
    choose|i: int| 0 <= i < module_ids().len() && module_ids()[i] == id
}

impl ModuleRegistry {
    /// The orchestration module's in-memory state.
    pub open spec fn spec_manager(&self) -> ModuleManager {
        self.slots@[3].instance->ModuleManager_0
    }

    pub open spec fn spec_readers(&self, i: int) -> u64 {
        self.slots@[i].readers
    }

    pub open spec fn spec_writer(&self, i: int) -> bool {
        self.slots@[i].writer
    }

    /// Well-formedness: six slots in sorted id order, reader-writer
    /// exclusion on every slot, and a well-formed orchestration store.
    pub open spec fn wf(&self) -> bool {
        &&& self.slots@.len() == 6
        &&& self.slots@[0].instance is ConfigManager
        &&& self.slots@[1].instance is TgDb
        &&& self.slots@[2].instance is ErrorManager
        &&& self.slots@[3].instance is ModuleManager
        &&& self.slots@[4].instance is PermissionsManager
        &&& self.slots@[5].instance is TgVerify
        &&& forall|i: int|
            0 <= i < self.slots@.len() ==> (#[trigger] self.slots@[i]).instance.spec_module_id()
                == module_ids()[i]
        &&& forall|i: int|
            0 <= i < self.slots@.len() ==> ((#[trigger] self.slots@[i]).writer
                ==> self.slots@[i].readers == 0)
        &&& self.spec_manager().wf()
    }

    /// Construct the registry: every slot unlocked, no tenant records yet.
    pub fn new() -> (r: Self)
        ensures
            r.wf(),
            forall|i: int| 0 <= i < 6 ==> #[trigger] r.spec_readers(i) == 0 && !r.spec_writer(i),
            forall|t: u64| #[trigger] r.spec_manager().spec_active_set(t) == Seq::<
                Seq<char>,
            >::empty(),
    {
        let mut slots: Vec<ModuleSlot> = Vec::new();
        slots.push(
            ModuleSlot {
                instance: DragonBotModuleInstance::ConfigManager(ConfigManager),
                readers: 0,
                writer: false,
            },
        );
        slots.push(
            ModuleSlot {
                instance: DragonBotModuleInstance::TgDb(TgDb),
                readers: 0,
                writer: false,
            },
        );
        slots.push(
            ModuleSlot {
                instance: DragonBotModuleInstance::ErrorManager(ErrorManager::new()),
                readers: 0,
                writer: false,
            },
        );
        slots.push(
            ModuleSlot {
                instance: DragonBotModuleInstance::ModuleManager(ModuleManager::new()),
                readers: 0,
                writer: false,
            },
        );
        slots.push(
            ModuleSlot {
                instance: DragonBotModuleInstance::PermissionsManager(PermissionsManager),
                readers: 0,
                writer: false,
            },
        );
        slots.push(
            ModuleSlot {
                instance: DragonBotModuleInstance::TgVerify(TgVerify),
                readers: 0,
                writer: false,
            },
        );
        let r = ModuleRegistry { slots };
        proof {
            assert forall|i: int| 0 <= i < r.slots@.len() implies (
            #[trigger] r.slots@[i]).instance.spec_module_id() == module_ids()[i] by {
            }
        }
        r
    }

    /// Locate a module's slot by id.
    fn find_slot(&self, id: &str) -> (r: Option<usize>)
        requires
            self.wf(),
        ensures
            match r {
                Some(i) => i < 6 && module_ids()[i as int] == id@ && index_of_id(id@) == i
                    && known_module_id(id@),
                None => !known_module_id(id@),
            },
    {
        let mut i: usize = 0;
        while i < self.slots.len()
            invariant
                self.wf(),
                i <= self.slots@.len(),
                forall|j: int| 0 <= j < i ==> #[trigger] module_ids()[j] != id@,
            decreases self.slots@.len() - i,
        {
            if str_eq(self.slots[i].instance.module_id(), id) {
                proof {
                    lemma_distinct_module_ids();
                    assert(module_ids()[i as int] == id@);
                    let k = index_of_id(id@);
                    assert(0 <= k < module_ids().len() && module_ids()[k] == id@);
                    assert(module_ids().contains(id@));
                }
                return Some(i);
            }
            i += 1;
        }
        proof {
            if known_module_id(id@) {
                let k = choose|k: int| 0 <= k < module_ids().len() && module_ids()[k] == id@;
                assert(module_ids()[k] != id@);
            }
        }
        None
    }

    /// Attempt a read acquisition, deciding immediately: `ModuleNotFound`
    /// for an unknown id; `ModuleBlocked` when a writer holds the slot (or
    /// the reader count is saturated); otherwise one more reader holds it.
    pub fn try_acquire_read(&mut self, id: &str) -> (r: Result<ModuleHolder, GetModuleError>)
        requires
            old(self).wf(),
        ensures
            final(self).wf(),
            !known_module_id(id@) ==> (r matches Err(e) && e == GetModuleError::ModuleNotFound
                && *final(self) == *old(self)),
            known_module_id(id@) ==> ({
                let i = index_of_id(id@);
                &&& (old(self).spec_writer(i) || old(self).spec_readers(i) == u64::MAX) ==> (
                r matches Err(e) && e == GetModuleError::ModuleBlocked && *final(self) == *old(
                    self,
                ))
                &&& (!old(self).spec_writer(i) && old(self).spec_readers(i) < u64::MAX) ==> (
                r matches Ok(h) && h.slot == i && h.write == false && final(self).slots@ == old(
                    self,
                ).slots@.update(
                    i,
                    ModuleSlot {
                        readers: (old(self).spec_readers(i) + 1) as u64,
                        ..old(self).slots@[i]
                    },
                ))
            }),
    {
        let i = match self.find_slot(id) {
            Some(i) => i,
            None => {
                return Err(GetModuleError::ModuleNotFound);
            },
        };
        if self.slots[i].writer || self.slots[i].readers == u64::MAX {
            return Err(GetModuleError::ModuleBlocked);
        }
        let mut slot = self.slots.remove(i);
        slot.readers = slot.readers + 1;
        self.slots.insert(i, slot);
        proof {
            assert(self.slots@ =~= old(self).slots@.update(
                i as int,
                ModuleSlot {
                    readers: (old(self).spec_readers(i as int) + 1) as u64,
                    ..old(self).slots@[i as int]
                },
            ));
            assert forall|j: int| 0 <= j < self.slots@.len() implies (
            #[trigger] self.slots@[j]).instance.spec_module_id() == module_ids()[j] by {
                if j != i {
                    assert(self.slots@[j] == old(self).slots@[j]);
                }
            }
        }
        Ok(ModuleHolder { slot: i, write: false })
    }

    /// Attempt a write acquisition, deciding immediately: `ModuleNotFound`
    /// for an unknown id; `ModuleBlocked` whenever any reader or writer
    /// holds the slot — a writer waits until every reader has released,
    /// and a zero-timeout request fails here and now; otherwise the writer
    /// holds the slot exclusively.
    pub fn try_acquire_write(&mut self, id: &str) -> (r: Result<ModuleHolder, GetModuleError>)
        requires
            old(self).wf(),
        ensures
            final(self).wf(),
            !known_module_id(id@) ==> (r matches Err(e) && e == GetModuleError::ModuleNotFound
                && *final(self) == *old(self)),
            known_module_id(id@) ==> ({
                let i = index_of_id(id@);
                &&& (old(self).spec_writer(i) || old(self).spec_readers(i) > 0) ==> (r matches Err(
                    e,
                ) && e == GetModuleError::ModuleBlocked && *final(self) == *old(self))
                &&& (!old(self).spec_writer(i) && old(self).spec_readers(i) == 0) ==> (
                r matches Ok(h) && h.slot == i && h.write == true && final(self).slots@ == old(
                    self,
                ).slots@.update(i, ModuleSlot { writer: true, ..old(self).slots@[i] }))
            }),
    {
        let i = match self.find_slot(id) {
            Some(i) => i,
            None => {
                return Err(GetModuleError::ModuleNotFound);
            },
        };
        if self.slots[i].writer || self.slots[i].readers > 0 {
            return Err(GetModuleError::ModuleBlocked);
        }
        let mut slot = self.slots.remove(i);
        slot.writer = true;
        self.slots.insert(i, slot);
        proof {
            assert(self.slots@ =~= old(self).slots@.update(
                i as int,
                ModuleSlot { writer: true, ..old(self).slots@[i as int] },
            ));
            assert forall|j: int| 0 <= j < self.slots@.len() implies (
            #[trigger] self.slots@[j]).instance.spec_module_id() == module_ids()[j] by {
                if j != i {
                    assert(self.slots@[j] == old(self).slots@[j]);
                }
            }
        }
        Ok(ModuleHolder { slot: i, write: true })
    }

    /// Release a held lock: the holder is consumed, and the slot drops
    /// one reader or its writer.
    pub fn release(&mut self, holder: ModuleHolder)
        requires
            old(self).wf(),
            holder.slot < 6,
            holder.write ==> old(self).spec_writer(holder.slot as int),
            !holder.write ==> old(self).spec_readers(holder.slot as int) > 0,
        ensures
            final(self).wf(),
            holder.write ==> final(self).slots@ == old(self).slots@.update(
                holder.slot as int,
                ModuleSlot { writer: false, ..old(self).slots@[holder.slot as int] },
            ),
            !holder.write ==> final(self).slots@ == old(self).slots@.update(
                holder.slot as int,
                ModuleSlot {
                    readers: (old(self).spec_readers(holder.slot as int) - 1) as u64,
                    ..old(self).slots@[holder.slot as int]
                },
            ),
    {
        let i = holder.slot;
        let mut slot = self.slots.remove(i);
        if holder.write {
            slot.writer = false;
        } else {
            slot.readers = slot.readers - 1;
        }
        self.slots.insert(i, slot);
        proof {
            if holder.write {
                assert(self.slots@ =~= old(self).slots@.update(
                    i as int,
                    ModuleSlot { writer: false, ..old(self).slots@[i as int] },
                ));
            } else {
                assert(self.slots@ =~= old(self).slots@.update(
                    i as int,
                    ModuleSlot {
                        readers: (old(self).spec_readers(i as int) - 1) as u64,
                        ..old(self).slots@[i as int]
                    },
                ));
            }
            assert forall|j: int| 0 <= j < self.slots@.len() implies (
            #[trigger] self.slots@[j]).instance.spec_module_id() == module_ids()[j] by {
                if j != i {
                    assert(self.slots@[j] == old(self).slots@[j]);
                }
            }
        }
    }

    /// The instance behind a held slot.
    pub fn instance(&self, holder: &ModuleHolder) -> (r: &DragonBotModuleInstance)
        requires
            self.wf(),
            holder.slot < 6,
            holder.write ==> self.spec_writer(holder.slot as int),
            !holder.write ==> self.spec_readers(holder.slot as int) > 0,
        ensures
            *r == self.slots@[holder.slot as int].instance,
    {
        &self.slots[holder.slot].instance
    }

    /// The module instance registered under an id, without acquiring its
    /// lock; `ModuleNotFound` for an unknown id.
    pub fn get_module_by_id(&self, id: &str) -> (r: Result<&DragonBotModuleInstance, GetModuleError>)
        requires
            self.wf(),
        ensures
            known_module_id(id@) ==> (r matches Ok(inst) && *inst == self.slots@[index_of_id(
                id@,
            )].instance && inst.spec_module_id() == id@),
            !known_module_id(id@) ==> (r matches Err(e) && e == GetModuleError::ModuleNotFound),
    {
        match self.find_slot(id) {
            Some(i) => Ok(&self.slots[i].instance),
            None => Err(GetModuleError::ModuleNotFound),
        }
    }
}

impl ModuleRegistry {
    /// The orchestration module's store, readable under any lock on its
    /// slot.
    pub fn manager(&self, holder: &ModuleHolder) -> (r: &ModuleManager)
        requires
            self.wf(),
            holder.slot == 3,
            holder.write ==> self.spec_writer(3),
            !holder.write ==> self.spec_readers(3) > 0,
        ensures
            *r == self.spec_manager(),
    {
        match &self.slots[3].instance {
            DragonBotModuleInstance::ModuleManager(mm) => mm,
            _ => vstd::pervasive::unreached(),
        }
    }

    /// Whether a module is reported active for a tenant, read under a
    /// lock on the orchestration module's slot.
    pub fn is_module_id_active(&self, holder: &ModuleHolder, tenant: u64, module: &str) -> (r: bool)
        requires
            self.wf(),
            holder.slot == 3,
            holder.write ==> self.spec_writer(3),
            !holder.write ==> self.spec_readers(3) > 0,
        ensures
            r == self.spec_manager().spec_is_active(tenant, module@),
    {
        self.manager(holder).is_module_id_active(tenant, module)
    }

    /// The sorted listing of a tenant's active modules, read under a lock
    /// on the orchestration module's slot.
    pub fn get_all_active_module_ids(&self, holder: &ModuleHolder, tenant: u64) -> (r: Vec<String>)
        requires
            self.wf(),
            holder.slot == 3,
            holder.write ==> self.spec_writer(3),
            !holder.write ==> self.spec_readers(3) > 0,
        ensures
            r.deep_view() == self.spec_manager().spec_all_active(tenant),
    {
        self.manager(holder).get_all_active_module_ids(tenant)
    }

    /// Enable a module for a tenant, holding the orchestration module's
    /// write lock for the whole mutation; that lock serializes every
    /// activation change across tenants. Under contention the call fails
    /// `ModuleBlocked` at once and changes nothing; the lock state the
    /// caller saw before the call is restored on every path.
    pub fn activate_module(&mut self, tenant: u64, module: &str) -> (r: Result<
        Vec<String>,
        ModuleError,
    >)
        requires
            old(self).wf(),
        ensures
            final(self).wf(),
            forall|i: int|
                0 <= i < 6 ==> (#[trigger] final(self).slots@[i]).readers == old(
                    self,
                ).slots@[i].readers && final(self).slots@[i].writer == old(self).slots@[i].writer,
            forall|i: int|
                0 <= i < 6 && i != 3 ==> (#[trigger] final(self).slots@[i]).instance == old(
                    self,
                ).slots@[i].instance,
            (old(self).spec_writer(3) || old(self).spec_readers(3) > 0) ==> (r matches Err(
                ModuleError::GetModuleError(e),
            ) && e == GetModuleError::ModuleBlocked && final(self).spec_manager() == old(
                self,
            ).spec_manager()),
            (!old(self).spec_writer(3) && old(self).spec_readers(3) == 0) ==> ({
                let m0 = old(self).spec_manager();
                &&& m0.spec_is_active(tenant, module@) ==> (r matches Err(
                    ModuleError::ModuleManagerError(e),
                ) && e == ModuleManagerError::ModuleAlreadyActive && final(self).spec_manager()
                    == m0)
                &&& (!m0.spec_is_active(tenant, module@) && !known_module_id(module@)) ==> (
                r matches Err(ModuleError::ModuleManagerError(e)) && e
                    == ModuleManagerError::ModuleNotFound && final(self).spec_manager() == m0)
                &&& (!m0.spec_is_active(tenant, module@) && known_module_id(module@)) ==> ({
                    &&& r matches Ok(rec) && rec.deep_view() == m0.spec_active_set(tenant).push(
                        module@,
                    )
                    &&& final(self).spec_manager().spec_active_set(tenant) == m0.spec_active_set(
                        tenant,
                    ).push(module@)
                    &&& forall|u: u64|
                        u != tenant ==> #[trigger] final(self).spec_manager().spec_active_set(u)
                            == m0.spec_active_set(u)
                })
            }),
    {
        proof {
            lemma_orchestration_known();
        }
        let holder = match self.try_acquire_write("module-manager") {
            Ok(h) => h,
            Err(e) => {
                return Err(ModuleError::GetModuleError(e));
            },
        };
        let ghost s1 = *self;
        let mut slot = self.slots.remove(3);
        let result = match &mut slot.instance {
            DragonBotModuleInstance::ModuleManager(mm) => mm.set_module_active(tenant, module),
            _ => vstd::pervasive::unreached(),
        };
        self.slots.insert(3, slot);
        proof {
            assert(self.slots@ =~= s1.slots@.update(3, self.slots@[3]));
            assert forall|j: int| 0 <= j < self.slots@.len() implies (
            #[trigger] self.slots@[j]).instance.spec_module_id() == module_ids()[j] by {
                if j != 3 {
                    assert(self.slots@[j] == s1.slots@[j]);
                }
            }
        }
        self.release(holder);
        proof {
            assert forall|j: int| 0 <= j < self.slots@.len() implies (
            #[trigger] self.slots@[j]).instance.spec_module_id() == module_ids()[j] by {}
        }
        match result {
            Ok(rec) => Ok(rec),
            Err(e) => Err(ModuleError::ModuleManagerError(e)),
        }
    }

    /// Disable a module for a tenant, holding the orchestration module's
    /// write lock for the whole mutation; the orchestration module itself
    /// is refused (`CannotInactivateManager`) and nothing is mutated then.
    pub fn deactivate_module(&mut self, tenant: u64, module: &str) -> (r: Result<
        Vec<String>,
        ModuleError,
    >)
        requires
            old(self).wf(),
        ensures
            final(self).wf(),
            forall|i: int|
                0 <= i < 6 ==> (#[trigger] final(self).slots@[i]).readers == old(
                    self,
                ).slots@[i].readers && final(self).slots@[i].writer == old(self).slots@[i].writer,
            forall|i: int|
                0 <= i < 6 && i != 3 ==> (#[trigger] final(self).slots@[i]).instance == old(
                    self,
                ).slots@[i].instance,
            (old(self).spec_writer(3) || old(self).spec_readers(3) > 0) ==> (r matches Err(
                ModuleError::GetModuleError(e),
            ) && e == GetModuleError::ModuleBlocked && final(self).spec_manager() == old(
                self,
            ).spec_manager()),
            (!old(self).spec_writer(3) && old(self).spec_readers(3) == 0) ==> ({
                let m0 = old(self).spec_manager();
                &&& module@ == orchestration_id() ==> (r matches Err(
                    ModuleError::ModuleManagerError(e),
                ) && e == ModuleManagerError::CannotInactivateManager && final(self).spec_manager()
                    == m0)
                &&& (module@ != orchestration_id() && !known_module_id(module@)) ==> (
                r matches Err(ModuleError::ModuleManagerError(e)) && e
                    == ModuleManagerError::ModuleNotFound && final(self).spec_manager() == m0)
                &&& (module@ != orchestration_id() && known_module_id(module@)
                    && !m0.spec_is_active(tenant, module@)) ==> (r matches Err(
                    ModuleError::ModuleManagerError(e),
                ) && e == ModuleManagerError::ModuleAlreadyInactive && final(self).spec_manager()
                    == m0)
                &&& (module@ != orchestration_id() && known_module_id(module@)
                    && m0.spec_is_active(tenant, module@)) ==> ({
                    &&& r matches Ok(rec) && rec.deep_view() == kept_ids(
                        m0.spec_active_set(tenant),
                        |x: Seq<char>| x != module@,
                    )
                    &&& !final(self).spec_manager().spec_is_active(tenant, module@)
                    &&& final(self).spec_manager().spec_active_set(tenant) == kept_ids(
                        m0.spec_active_set(tenant),
                        |x: Seq<char>| x != module@,
                    )
                    &&& forall|u: u64|
                        u != tenant ==> #[trigger] final(self).spec_manager().spec_active_set(u)
                            == m0.spec_active_set(u)
                })
            }),
    {
        proof {
            lemma_orchestration_known();
        }
        let holder = match self.try_acquire_write("module-manager") {
            Ok(h) => h,
            Err(e) => {
                return Err(ModuleError::GetModuleError(e));
            },
        };
        let ghost s1 = *self;
        let mut slot = self.slots.remove(3);
        let result = match &mut slot.instance {
            DragonBotModuleInstance::ModuleManager(mm) => mm.set_module_inactive(tenant, module),
            _ => vstd::pervasive::unreached(),
        };
        self.slots.insert(3, slot);
        proof {
            assert(self.slots@ =~= s1.slots@.update(3, self.slots@[3]));
            assert forall|j: int| 0 <= j < self.slots@.len() implies (
            #[trigger] self.slots@[j]).instance.spec_module_id() == module_ids()[j] by {
                if j != 3 {
                    assert(self.slots@[j] == s1.slots@[j]);
                }
            }
        }
        self.release(holder);
        proof {
            assert forall|j: int| 0 <= j < self.slots@.len() implies (
            #[trigger] self.slots@[j]).instance.spec_module_id() == module_ids()[j] by {}
        }
        match result {
            Ok(rec) => Ok(rec),
            Err(e) => Err(ModuleError::ModuleManagerError(e)),
        }
    }

    /// Install one tenant's activation record from a loaded document,
    /// holding the orchestration module's write lock for the mutation.
    pub fn init_tenant(&mut self, tenant: u64, loaded: &Vec<String>) -> (r: Result<
        (),
        ModuleError,
    >)
        requires
            old(self).wf(),
        ensures
            final(self).wf(),
            forall|i: int|
                0 <= i < 6 ==> (#[trigger] final(self).slots@[i]).readers == old(
                    self,
                ).slots@[i].readers && final(self).slots@[i].writer == old(self).slots@[i].writer,
            forall|i: int|
                0 <= i < 6 && i != 3 ==> (#[trigger] final(self).slots@[i]).instance == old(
                    self,
                ).slots@[i].instance,
            (old(self).spec_writer(3) || old(self).spec_readers(3) > 0) ==> (r matches Err(
                ModuleError::GetModuleError(e),
            ) && e == GetModuleError::ModuleBlocked && final(self).spec_manager() == old(
                self,
            ).spec_manager()),
            (!old(self).spec_writer(3) && old(self).spec_readers(3) == 0) ==> ({
                &&& r is Ok
                &&& final(self).spec_manager().spec_active_set(tenant) == sanitized_record(
                    loaded.deep_view(),
                )
                &&& forall|u: u64|
                    u != tenant ==> #[trigger] final(self).spec_manager().spec_active_set(u) == old(
                        self,
                    ).spec_manager().spec_active_set(u)
            }),
    {
        proof {
            lemma_orchestration_known();
        }
        let holder = match self.try_acquire_write("module-manager") {
            Ok(h) => h,
            Err(e) => {
                return Err(ModuleError::GetModuleError(e));
            },
        };
        let ghost s1 = *self;
        let mut slot = self.slots.remove(3);
        match &mut slot.instance {
            DragonBotModuleInstance::ModuleManager(mm) => mm.init_tenant(tenant, loaded),
            _ => vstd::pervasive::unreached(),
        };
        self.slots.insert(3, slot);
        proof {
            assert(self.slots@ =~= s1.slots@.update(3, self.slots@[3]));
            assert forall|j: int| 0 <= j < self.slots@.len() implies (
            #[trigger] self.slots@[j]).instance.spec_module_id() == module_ids()[j] by {
                if j != 3 {
                    assert(self.slots@[j] == s1.slots@[j]);
                }
            }
        }
        self.release(holder);
        proof {
            assert forall|j: int| 0 <= j < self.slots@.len() implies (
            #[trigger] self.slots@[j]).instance.spec_module_id() == module_ids()[j] by {}
        }
        Ok(())
    }
}

/// The orchestration module's id is a known module id, mapped to its
/// slot.
pub proof fn lemma_orchestration_known()
    ensures
        known_module_id(orchestration_id()),
        index_of_id(orchestration_id()) == 3,
{
    lemma_distinct_module_ids();
    assert(module_ids()[3] == orchestration_id());
    assert(module_ids().contains(orchestration_id()));
    let k = index_of_id(orchestration_id());
    assert(0 <= k < module_ids().len() && module_ids()[k] == orchestration_id());
}

/// LAW: a held write lock excludes every reader.
pub proof fn lemma_write_lock_excludes(reg: &ModuleRegistry, i: int)
    requires
        reg.wf(),
        0 <= i < 6,
        reg.spec_writer(i),
    ensures
        reg.spec_readers(i) == 0,
{
}

} // verus!
