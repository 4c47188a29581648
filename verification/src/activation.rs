//! The orchestration module: a per-tenant activation state machine.
//!
//! Every tenant owns a set of enabled module ids, persisted as a flat list
//! of strings (one document per tenant). The orchestration module's own id
//! is never stored in the persisted set but is always reported active. The
//! store here is the in-memory authority; after every mutation the caller
//! persists the record that the mutating operation hands back.

use vstd::prelude::*;
use crate::modules::{
    all_module_ids, is_known_module_id, is_orchestration_id, known_module_id,
    lemma_module_ids_sorted, module_ids, orchestration_id,
};
use crate::text::{
    clone_strings, contains_str, kept_ids, lemma_kept_ids_distinct, lemma_kept_ids_membership,
    lemma_kept_ids_sorted, remove_str, sorted_module_listing, str_eq,
};
use crate::config::{ConfigField, ConfigFieldError, ConfigValue, ModuleConfig};
use crate::permissions::{DragonModulePermission, ModulePermission};

verus! {

#[derive(Debug, PartialEq, Eq, Structural)]
pub enum ModuleManagerError {
    ModuleNotActive,
    ModuleAlreadyActive,
    ModuleAlreadyInactive,
    CannotInactivateManager,
    LoadActiveFailed,
    ModuleNotFound,
}

/// The persisted activation document of one tenant: the ids of its enabled
/// modules as a flat list.
pub struct ModuleManagerConfig {
    pub active: Vec<String>,
}

/// One tenant's activation record as held in memory.
pub struct TenantActivation {
    pub tenant: u64,
    pub config: ModuleManagerConfig,
}

/// The orchestration module: tracks, per tenant, the set of enabled module
/// ids, and answers activation queries.
pub struct ModuleManager {
    pub records: Vec<TenantActivation>,
}

/// A well-formed activation record: every stored id names a known module,
/// none is the orchestration module's own id, and no id repeats.
pub open spec fn wf_activation_record(active: Seq<Seq<char>>) -> bool {
    &&& forall|k: int|
        0 <= k < active.len() ==> known_module_id(#[trigger] active[k]) && active[k]
            != orchestration_id()
    &&& forall|k: int, l: int|
        0 <= k < l < active.len() ==> #[trigger] active[k] != #[trigger] active[l]
}

/// The sanitized form of a loaded activation list: ids that name no known
/// module are dropped, as are the orchestration module's own id and any
/// repetition of an id already kept.
pub open spec fn sanitized_record(s: Seq<Seq<char>>) -> Seq<Seq<char>>
    decreases s.len(),
{
    if s.len() == 0 {
        Seq::empty()
    } else {
        let prev = sanitized_record(s.drop_last());
        let x = s.last();
        if known_module_id(x) && x != orchestration_id() && !prev.contains(x) {
            prev.push(x)
        } else {
            prev
        }
    }
}

/// Sanitizing always yields a well-formed record.
pub proof fn lemma_sanitized_record_wf(s: Seq<Seq<char>>)
    ensures
        wf_activation_record(sanitized_record(s)),
    decreases s.len(),
{
    if s.len() > 0 {
        lemma_sanitized_record_wf(s.drop_last());
    }
}

/// Sanitizing keeps exactly the known, non-orchestration ids.
pub proof fn lemma_sanitized_record_membership(s: Seq<Seq<char>>)
    ensures
        forall|x: Seq<char>|
            #[trigger] sanitized_record(s).contains(x) <==> (s.contains(x) && known_module_id(x)
                && x != orchestration_id()),
    decreases s.len(),
{
    if s.len() == 0 {
    } else {
        lemma_sanitized_record_membership(s.drop_last());
        let prev = sanitized_record(s.drop_last());
        let out = sanitized_record(s);
        assert forall|x: Seq<char>| s.contains(x) implies (s.drop_last().contains(x) || x
            == s.last()) by {
            let i = choose|i: int| 0 <= i < s.len() && s[i] == x;
            if i < s.len() - 1 {
                assert(s.drop_last()[i] == x);
            }
        }
        assert forall|x: Seq<char>| s.drop_last().contains(x) implies s.contains(x) by {
            let i = choose|i: int| 0 <= i < s.drop_last().len() && s.drop_last()[i] == x;
            assert(s[i] == x);
        }
        assert(s.contains(s.last()));
        assert forall|x: Seq<char>| #[trigger] out.contains(x) implies (s.contains(x)
            && known_module_id(x) && x != orchestration_id()) by {
            if prev.contains(x) {
            } else {
                assert(out.len() > 0 && out.last() == x);
            }
        }
        assert forall|x: Seq<char>|
            s.contains(x) && known_module_id(x) && x != orchestration_id() implies #[trigger] out
            .contains(x) by {
            if s.drop_last().contains(x) {
                assert(prev.contains(x));
                let i = choose|i: int| 0 <= i < prev.len() && prev[i] == x;
                assert(out[i] == x);
            } else {
                if !prev.contains(x) {
                    assert(out.last() == x);
                }
            }
        }
    }
}

impl ModuleManager {
    /// Whether the store holds a record for this tenant.
    pub open spec fn spec_has_tenant(&self, tenant: u64) -> bool {
        exists|i: int| #![auto] 0 <= i < self.records@.len() && self.records@[i].tenant == tenant
    }

    /// Index of this tenant's record.
    pub open spec fn spec_tenant_at(&self, tenant: u64) -> int {
        choose|i: int| #![auto] 0 <= i < self.records@.len() && self.records@[i].tenant == tenant
    }

    /// The persisted activation set of a tenant: its record if one exists,
    /// else empty (a tenant never seen has nothing but the orchestration
    /// module active).
    pub open spec fn spec_active_set(&self, tenant: u64) -> Seq<Seq<char>> {
        if self.spec_has_tenant(tenant) {
            self.records@[self.spec_tenant_at(tenant)].config.active.deep_view()
        } else {
            Seq::empty()
        }
    }

    /// Whether a module is reported active for a tenant: the orchestration
    /// module always is; any other id is active exactly when the persisted
    /// set holds it.
    pub open spec fn spec_is_active(&self, tenant: u64, id: Seq<char>) -> bool {
        id == orchestration_id() || self.spec_active_set(tenant).contains(id)
    }

    /// The full listing a tenant sees: every known module id that is
    /// active, in sorted order.
    pub open spec fn spec_all_active(&self, tenant: u64) -> Seq<Seq<char>> {
        kept_ids(module_ids(), |id: Seq<char>| self.spec_is_active(tenant, id))
    }

    /// Well-formedness: one record per tenant, every record well formed.
    pub open spec fn wf(&self) -> bool {
        &&& forall|i: int, j: int|
            0 <= i < j < self.records@.len() ==> (#[trigger] self.records@[i]).tenant != (
            #[trigger] self.records@[j]).tenant
        &&& forall|i: int|
            0 <= i < self.records@.len() ==> wf_activation_record(
                (#[trigger] self.records@[i]).config.active.deep_view(),
            )
    }

    /// An empty store: no tenant has a record yet.
    pub fn new() -> (r: Self)
        ensures
            r.wf(),
            forall|t: u64| #[trigger] r.spec_active_set(t) == Seq::<Seq<char>>::empty(),
    {
        let r = ModuleManager { records: Vec::new() };
        proof {
            assert forall|t: u64| #[trigger] r.spec_active_set(t) == Seq::<Seq<char>>::empty() by {
                assert(!r.spec_has_tenant(t));
            }
        }
        r
    }

    /// In a well-formed store, the record at index `i` is the record of its
    /// tenant.
    pub(crate) proof fn lemma_active_set_at(&self, i: int)
        requires
            self.wf(),
            0 <= i < self.records@.len(),
        ensures
            self.spec_has_tenant(self.records@[i].tenant),
            self.spec_tenant_at(self.records@[i].tenant) == i,
            self.spec_active_set(self.records@[i].tenant) == self.records@[i].config.active.deep_view(),
    {
        let t = self.records@[i].tenant;
        assert(self.spec_has_tenant(t));
        let j = self.spec_tenant_at(t);
        assert(0 <= j < self.records@.len() && self.records@[j].tenant == t);
        if i != j {
            assert(false);
        }
    }

    /// A tenant without a record has an empty persisted set.
    pub(crate) proof fn lemma_active_set_absent(&self, tenant: u64)
        requires
            !self.spec_has_tenant(tenant),
        ensures
            self.spec_active_set(tenant) == Seq::<Seq<char>>::empty(),
    {
    }

    pub(crate) fn find_tenant(&self, tenant: u64) -> (r: Option<usize>)
        ensures
            match r {
                Some(i) => i < self.records@.len() && self.records@[i as int].tenant == tenant,
                None => !self.spec_has_tenant(tenant),
            },
    {
        let mut i: usize = 0;
        while i < self.records.len()
            invariant
                i <= self.records@.len(),
                forall|j: int| 0 <= j < i ==> (#[trigger] self.records@[j]).tenant != tenant,
            decreases self.records@.len() - i,
        {
            if self.records[i].tenant == tenant {
                return Some(i);
            }
            i += 1;
        }
        None
    }

    /// Whether the module named by `module` is active for `tenant`; the
    /// orchestration module is reported active unconditionally.
    pub fn is_module_id_active(&self, tenant: u64, module: &str) -> (r: bool)
        requires
            self.wf(),
        ensures
            r == self.spec_is_active(tenant, module@),
    {
        if is_orchestration_id(module) {
            return true;
        }
        match self.find_tenant(tenant) {
            None => {
                proof {
                    self.lemma_active_set_absent(tenant);
                }
                false
            },
            Some(i) => {
                let r = contains_str(&self.records[i].config.active, module);
                proof {
                    self.lemma_active_set_at(i as int);
                }
                r
            },
        }
    }

    /// Every known module id that is active for `tenant`, sorted and
    /// duplicate-free.
    pub fn get_all_active_module_ids(&self, tenant: u64) -> (r: Vec<String>)
        requires
            self.wf(),
        ensures
            r.deep_view() == self.spec_all_active(tenant),
            sorted_module_listing(r.deep_view()),
            forall|x: Seq<char>|
                #[trigger] r.deep_view().contains(x) <==> (known_module_id(x)
                    && self.spec_is_active(tenant, x)),
    {
        let ids = all_module_ids();
        let ghost keep = |id: Seq<char>| self.spec_is_active(tenant, id);
        let mut r: Vec<String> = Vec::new();
        let mut i: usize = 0;
        proof {
            assert(ids.deep_view().skip(0) =~= ids.deep_view());
            assert(r.deep_view() + kept_ids(ids.deep_view(), keep) =~= kept_ids(
                ids.deep_view(),
                keep,
            ));
        }
        while i < ids.len()
            invariant
                self.wf(),
                i <= ids@.len(),
                ids.deep_view() == module_ids(),
                keep == (|id: Seq<char>| self.spec_is_active(tenant, id)),
                r.deep_view() + kept_ids(ids.deep_view().skip(i as int), keep) == kept_ids(
                    ids.deep_view(),
                    keep,
                ),
            decreases ids@.len() - i,
        {
            let ghost pre = r.deep_view();
            let ghost tail = ids.deep_view().skip(i as int);
            proof {
                assert(tail.len() > 0);
                assert(tail.first() == ids.deep_view()[i as int]);
                assert(tail.drop_first() =~= ids.deep_view().skip(i + 1 as int));
                assert(ids@[i as int]@ == ids.deep_view()[i as int]);
            }
            if self.is_module_id_active(tenant, ids[i]) {
                r.push(String::from_str(ids[i]));
                proof {
                    assert(r.deep_view() =~= pre.push(ids.deep_view()[i as int]));
                    assert(kept_ids(tail, keep) == seq![tail.first()] + kept_ids(
                        tail.drop_first(),
                        keep,
                    ));
                    assert(r.deep_view() + kept_ids(ids.deep_view().skip(i + 1 as int), keep)
                        =~= pre + kept_ids(tail, keep));
                }
            } else {
                proof {
                    assert(kept_ids(tail, keep) == kept_ids(tail.drop_first(), keep));
                }
            }
            i += 1;
        }
        proof {
            assert(ids.deep_view().skip(ids@.len() as int) =~= Seq::<Seq<char>>::empty());
            assert(r.deep_view() =~= r.deep_view() + kept_ids(
                ids.deep_view().skip(ids@.len() as int),
                keep,
            ));
            lemma_module_ids_sorted();
            lemma_kept_ids_sorted(module_ids(), keep);
            lemma_kept_ids_membership(module_ids(), keep);
        }
        r
    }

    /// Enable a module for a tenant. On success the new persisted record is
    /// returned for the caller to write out; the id is appended to the
    /// record. Fails `ModuleAlreadyActive` when the module is already
    /// reported active (the orchestration module always is), and
    /// `ModuleNotFound` when the id names no known module; failures leave
    /// the store untouched.
    pub fn set_module_active(&mut self, tenant: u64, module: &str) -> (r: Result<
        Vec<String>,
        ModuleManagerError,
    >)
        requires
            old(self).wf(),
        ensures
            final(self).wf(),
            old(self).spec_is_active(tenant, module@) ==> (r matches Err(
                ModuleManagerError::ModuleAlreadyActive,
            ) && *final(self) == *old(self)),
            !old(self).spec_is_active(tenant, module@) && !known_module_id(module@) ==> (
            r matches Err(ModuleManagerError::ModuleNotFound) && *final(self) == *old(self)),
            !old(self).spec_is_active(tenant, module@) && known_module_id(module@) ==> ({
                &&& r matches Ok(rec) && rec.deep_view() == old(self).spec_active_set(
                    tenant,
                ).push(module@)
                &&& final(self).spec_active_set(tenant) == old(self).spec_active_set(tenant).push(
                    module@,
                )
                &&& forall|u: u64|
                    u != tenant ==> #[trigger] final(self).spec_active_set(u) == old(
                        self,
                    ).spec_active_set(u)
            }),
    {
        if self.is_module_id_active(tenant, module) {
            return Err(ModuleManagerError::ModuleAlreadyActive);
        }
        if !is_known_module_id(module) {
            return Err(ModuleManagerError::ModuleNotFound);
        }
        let ghost s0 = *self;
        let idx: usize = match self.find_tenant(tenant) {
            Some(i) => i,
            None => {
                let i = self.records.len();
                self.records.push(
                    TenantActivation { tenant, config: ModuleManagerConfig { active: Vec::new() } },
                );
                i
            },
        };
        let ghost s1 = *self;
        proof {
            // Either the records are unchanged, or a fresh empty record for
            // this tenant was appended; both preserve well-formedness and
            // every tenant's active set.
            assert(s1.wf()) by {
                if s1.records@.len() == s0.records@.len() + 1 {
                    assert forall|i: int, j: int| 0 <= i < j < s1.records@.len() implies (
                    #[trigger] s1.records@[i]).tenant != (#[trigger] s1.records@[j]).tenant by {
                        if j < s0.records@.len() {
                            assert(s1.records@[i] == s0.records@[i]);
                            assert(s1.records@[j] == s0.records@[j]);
                        } else {
                            assert(!s0.spec_has_tenant(tenant));
                            assert(s1.records@[i] == s0.records@[i]);
                        }
                    }
                    assert forall|i: int| 0 <= i < s1.records@.len() implies wf_activation_record(
                        (#[trigger] s1.records@[i]).config.active.deep_view(),
                    ) by {
                        if i < s0.records@.len() {
                            assert(s1.records@[i] == s0.records@[i]);
                        } else {
                            assert(s1.records@[i].config.active.deep_view() =~= Seq::<
                                Seq<char>,
                            >::empty());
                        }
                    }
                }
            }
            assert forall|u: u64| #[trigger] s1.spec_active_set(u) == s0.spec_active_set(u) by {
                Self::lemma_same_sets(&s0, &s1, u);
            }
            assert(0 <= idx < s1.records@.len() && s1.records@[idx as int].tenant == tenant);
        }
        let mut rec = self.records.remove(idx);
        rec.config.active.push(String::from_str(module));
        let out = clone_strings(&rec.config.active);
        self.records.insert(idx, rec);
        proof {
            let s2 = *self;
            assert(s2.records@ =~= s1.records@.update(
                idx as int,
                s2.records@[idx as int],
            ));
            let newrec = s2.records@[idx as int].config.active.deep_view();
            let oldrec = s1.records@[idx as int].config.active.deep_view();
            assert(newrec =~= oldrec.push(module@));
            s1.lemma_active_set_at(idx as int);
            assert(oldrec == s0.spec_active_set(tenant));
            assert(!oldrec.contains(module@)) by {
                assert(!s0.spec_is_active(tenant, module@));
            }
            assert(s2.wf()) by {
                assert forall|i: int, j: int| 0 <= i < j < s2.records@.len() implies (
                #[trigger] s2.records@[i]).tenant != (#[trigger] s2.records@[j]).tenant by {
                    assert(s1.records@[i].tenant == s2.records@[i].tenant);
                    assert(s1.records@[j].tenant == s2.records@[j].tenant);
                }
                assert forall|i: int| 0 <= i < s2.records@.len() implies wf_activation_record(
                    (#[trigger] s2.records@[i]).config.active.deep_view(),
                ) by {
                    if i != idx {
                        assert(s2.records@[i] == s1.records@[i]);
                    } else {
                        assert(wf_activation_record(oldrec));
                        assert forall|k: int, l: int|
                            0 <= k < l < newrec.len() implies #[trigger] newrec[k]
                            != #[trigger] newrec[l] by {
                            if l == newrec.len() - 1 {
                                assert(oldrec.contains(oldrec[k])) by {
                                    assert(oldrec[k] == oldrec[k]);
                                }
                            }
                        }
                    }
                }
            }
            s2.lemma_active_set_at(idx as int);
            assert(s2.spec_active_set(tenant) == newrec);
            assert forall|u: u64| u != tenant implies #[trigger] s2.spec_active_set(u)
                == s1.spec_active_set(u) by {
                Self::lemma_same_sets_update(&s1, &s2, u, idx as int);
            }
        }
        Ok(out)
    }

    /// Disable a module for a tenant. On success the new persisted record
    /// is returned for the caller to write out; the id is removed from the
    /// record. Fails `CannotInactivateManager` for the orchestration
    /// module's own id, `ModuleNotFound` for an id naming no known module,
    /// and `ModuleAlreadyInactive` when the module is not active; failures
    /// leave the store untouched.
    pub fn set_module_inactive(&mut self, tenant: u64, module: &str) -> (r: Result<
        Vec<String>,
        ModuleManagerError,
    >)
        requires
            old(self).wf(),
        ensures
            final(self).wf(),
            module@ == orchestration_id() ==> (r matches Err(
                ModuleManagerError::CannotInactivateManager,
            ) && *final(self) == *old(self)),
            module@ != orchestration_id() && !known_module_id(module@) ==> (r matches Err(
                ModuleManagerError::ModuleNotFound,
            ) && *final(self) == *old(self)),
            module@ != orchestration_id() && known_module_id(module@) && !old(self).spec_is_active(
                tenant,
                module@,
            ) ==> (r matches Err(ModuleManagerError::ModuleAlreadyInactive) && *final(self) == *old(
                self,
            )),
            module@ != orchestration_id() && known_module_id(module@) && old(self).spec_is_active(
                tenant,
                module@,
            ) ==> ({
                &&& r matches Ok(rec) && rec.deep_view() == kept_ids(
                    old(self).spec_active_set(tenant),
                    |x: Seq<char>| x != module@,
                )
                &&& final(self).spec_active_set(tenant) == kept_ids(
                    old(self).spec_active_set(tenant),
                    |x: Seq<char>| x != module@,
                )
                &&& !final(self).spec_is_active(tenant, module@)
                &&& forall|u: u64|
                    u != tenant ==> #[trigger] final(self).spec_active_set(u) == old(
                        self,
                    ).spec_active_set(u)
            }),
    {
        if is_orchestration_id(module) {
            return Err(ModuleManagerError::CannotInactivateManager);
        }
        if !is_known_module_id(module) {
            return Err(ModuleManagerError::ModuleNotFound);
        }
        if !self.is_module_id_active(tenant, module) {
            return Err(ModuleManagerError::ModuleAlreadyInactive);
        }
        let ghost s1 = *self;
        let ghost keep = |x: Seq<char>| x != module@;
        let idx: usize = match self.find_tenant(tenant) {
            Some(i) => i,
            None => {
                proof {
                    self.lemma_active_set_absent(tenant);
                }
                return Err(ModuleManagerError::ModuleAlreadyInactive);
            },
        };
        let mut rec = self.records.remove(idx);
        let cleaned = remove_str(&rec.config.active, module);
        let out = clone_strings(&cleaned);
        rec.config.active = cleaned;
        self.records.insert(idx, rec);
        proof {
            let s2 = *self;
            assert(s2.records@ =~= s1.records@.update(idx as int, s2.records@[idx as int]));
            let oldrec = s1.records@[idx as int].config.active.deep_view();
            let newrec = s2.records@[idx as int].config.active.deep_view();
            assert(newrec == kept_ids(oldrec, keep));
            s1.lemma_active_set_at(idx as int);
            assert(oldrec == s1.spec_active_set(tenant));
            lemma_kept_ids_membership(oldrec, keep);
            assert(s2.wf()) by {
                assert forall|i: int, j: int| 0 <= i < j < s2.records@.len() implies (
                #[trigger] s2.records@[i]).tenant != (#[trigger] s2.records@[j]).tenant by {
                    assert(s1.records@[i].tenant == s2.records@[i].tenant);
                    assert(s1.records@[j].tenant == s2.records@[j].tenant);
                }
                assert forall|i: int| 0 <= i < s2.records@.len() implies wf_activation_record(
                    (#[trigger] s2.records@[i]).config.active.deep_view(),
                ) by {
                    if i != idx {
                        assert(s2.records@[i] == s1.records@[i]);
                    } else {
                        assert(wf_activation_record(oldrec));
                        lemma_kept_ids_distinct(oldrec, keep);
                        assert forall|k: int| 0 <= k < newrec.len() implies known_module_id(
                            #[trigger] newrec[k],
                        ) && newrec[k] != orchestration_id() by {
                            assert(newrec.contains(newrec[k]));
                            assert(oldrec.contains(newrec[k]));
                            let j = choose|j: int| 0 <= j < oldrec.len() && oldrec[j] == newrec[k];
                            assert(known_module_id(oldrec[j]));
                        }
                    }
                }
            }
            s2.lemma_active_set_at(idx as int);
            assert(s2.spec_active_set(tenant) == newrec);
            assert(!s2.spec_is_active(tenant, module@));
            assert forall|u: u64| u != tenant implies #[trigger] s2.spec_active_set(u)
                == s1.spec_active_set(u) by {
                Self::lemma_same_sets_update(&s1, &s2, u, idx as int);
            }
        }
        Ok(out)
    }

    fn sanitize(loaded: &Vec<String>) -> (r: Vec<String>)
        ensures
            r.deep_view() == sanitized_record(loaded.deep_view()),
    {
        let mut r: Vec<String> = Vec::new();
        let mut i: usize = 0;
        proof {
            assert(loaded.deep_view().take(0) =~= Seq::<Seq<char>>::empty());
        }
        while i < loaded.len()
            invariant
                i <= loaded@.len(),
                r.deep_view() == sanitized_record(loaded.deep_view().take(i as int)),
            decreases loaded@.len() - i,
        {
            let ghost pre = r.deep_view();
            let ghost prefix = loaded.deep_view().take(i + 1);
            proof {
                assert(prefix.drop_last() =~= loaded.deep_view().take(i as int));
                assert(prefix.last() == loaded.deep_view()[i as int]);
                assert(loaded@[i as int]@ == loaded.deep_view()[i as int]);
            }
            let id = loaded[i].as_str();
            if is_known_module_id(id) && !is_orchestration_id(id) && !contains_str(
                &r,
                id,
            ) {
                r.push(String::from_str(id));
                proof {
                    assert(r.deep_view() =~= pre.push(loaded.deep_view()[i as int]));
                    assert(r.deep_view() == sanitized_record(prefix));
                }
            } else {
                proof {
                    assert(sanitized_record(prefix) == pre);
                }
            }
            i += 1;
        }
        proof {
            assert(loaded.deep_view().take(loaded@.len() as int) =~= loaded.deep_view());
        }
        r
    }

    /// Install a tenant's activation record from a loaded document,
    /// dropping ids that name no known module, the orchestration module's
    /// own id, and repeated ids; partial corruption is tolerated rather
    /// than failing the tenant.
    pub fn init_tenant(&mut self, tenant: u64, loaded: &Vec<String>)
        requires
            old(self).wf(),
        ensures
            final(self).wf(),
            final(self).spec_active_set(tenant) == sanitized_record(loaded.deep_view()),
            forall|x: Seq<char>|
                #[trigger] final(self).spec_active_set(tenant).contains(x) <==> (
                loaded.deep_view().contains(x) && known_module_id(x) && x != orchestration_id()),
            forall|u: u64|
                u != tenant ==> #[trigger] final(self).spec_active_set(u) == old(
                    self,
                ).spec_active_set(u),
    {
        proof {
            lemma_sanitized_record_membership(loaded.deep_view());
        }
        let clean = Self::sanitize(loaded);
        let ghost s1 = *self;
        proof {
            lemma_sanitized_record_wf(loaded.deep_view());
        }
        match self.find_tenant(tenant) {
            Some(idx) => {
                let mut rec = self.records.remove(idx);
                rec.config.active = clean;
                let ghost newrec = rec.config.active.deep_view();
                self.records.insert(idx, rec);
                proof {
                    let s2 = *self;
                    assert(s2.records@ =~= s1.records@.update(idx as int, s2.records@[idx as int]));
                    assert(s2.records@[idx as int].config.active.deep_view() == newrec);
                    assert(newrec == sanitized_record(loaded.deep_view()));
                    assert(s2.wf()) by {
                        assert forall|i: int, j: int| 0 <= i < j < s2.records@.len() implies (
                        #[trigger] s2.records@[i]).tenant != (#[trigger] s2.records@[j]).tenant by {
                            assert(s1.records@[i].tenant == s2.records@[i].tenant);
                            assert(s1.records@[j].tenant == s2.records@[j].tenant);
                        }
                        assert forall|i: int|
                            0 <= i < s2.records@.len() implies wf_activation_record(
                            (#[trigger] s2.records@[i]).config.active.deep_view(),
                        ) by {
                            if i != idx {
                                assert(s2.records@[i] == s1.records@[i]);
                            } else {
                                assert(s2.records@[i].config.active.deep_view() == newrec);
                            }
                        }
                    }
                    s2.lemma_active_set_at(idx as int);
                    assert forall|u: u64| u != tenant implies #[trigger] s2.spec_active_set(u)
                        == s1.spec_active_set(u) by {
                        Self::lemma_same_sets_update(&s1, &s2, u, idx as int);
                    }
                }
            },
            None => {
                self.records.push(TenantActivation { tenant, config: ModuleManagerConfig { active: clean } });
                proof {
                    let s2 = *self;
                    assert(s2.wf()) by {
                        assert forall|i: int, j: int| 0 <= i < j < s2.records@.len() implies (
                        #[trigger] s2.records@[i]).tenant != (#[trigger] s2.records@[j]).tenant by {
                            if j < s1.records@.len() {
                                assert(s2.records@[i] == s1.records@[i]);
                                assert(s2.records@[j] == s1.records@[j]);
                            } else {
                                assert(s2.records@[i] == s1.records@[i]);
                                assert(!s1.spec_has_tenant(tenant));
                            }
                        }
                        assert forall|i: int|
                            0 <= i < s2.records@.len() implies wf_activation_record(
                            (#[trigger] s2.records@[i]).config.active.deep_view(),
                        ) by {
                            if i < s1.records@.len() {
                                assert(s2.records@[i] == s1.records@[i]);
                            }
                        }
                    }
                    s2.lemma_active_set_at(s2.records@.len() - 1);
                    assert forall|u: u64| u != tenant implies #[trigger] s2.spec_active_set(u)
                        == s1.spec_active_set(u) by {
                        Self::lemma_append_other(&s1, &s2, u);
                    }
                }
            },
        }
    }

    /// Appending a record for a fresh tenant leaves every other tenant's
    /// active set unchanged.
    proof fn lemma_append_other(a: &Self, b: &Self, u: u64)
        requires
            a.wf(),
            b.wf(),
            b.records@.len() == a.records@.len() + 1,
            forall|i: int| 0 <= i < a.records@.len() ==> a.records@[i] == b.records@[i],
            b.records@.last().tenant != u,
        ensures
            b.spec_active_set(u) == a.spec_active_set(u),
    {
        if a.spec_has_tenant(u) {
            let i = a.spec_tenant_at(u);
            a.lemma_active_set_at(i);
            b.lemma_active_set_at(i);
        } else {
            assert(!b.spec_has_tenant(u)) by {
                if b.spec_has_tenant(u) {
                    let i = b.spec_tenant_at(u);
                    assert(0 <= i < b.records@.len() && b.records@[i].tenant == u);
                    assert(i < a.records@.len());
                    assert(a.records@[i].tenant == u);
                }
            }
            a.lemma_active_set_absent(u);
            b.lemma_active_set_absent(u);
        }
    }

    /// Two stores whose record sequences agree except for an appended
    /// record of a fresh tenant give every tenant the same active set,
    /// except possibly that fresh tenant.
    proof fn lemma_same_sets(a: &Self, b: &Self, u: u64)
        requires
            a.records@.len() <= b.records@.len(),
            forall|i: int| 0 <= i < a.records@.len() ==> a.records@[i] == b.records@[i],
            forall|i: int|
                a.records@.len() <= i < b.records@.len() ==> (#[trigger] b.records@[i]).config.active@.len() == 0,
            a.wf(),
            b.wf(),
        ensures
            b.spec_active_set(u) == a.spec_active_set(u) || b.spec_active_set(u) == Seq::<
                Seq<char>,
            >::empty(),
            a.spec_has_tenant(u) ==> b.spec_active_set(u) == a.spec_active_set(u),
    {
        if a.spec_has_tenant(u) {
            let i = a.spec_tenant_at(u);
            a.lemma_active_set_at(i);
            b.lemma_active_set_at(i);
        } else if b.spec_has_tenant(u) {
            let i = b.spec_tenant_at(u);
            b.lemma_active_set_at(i);
            assert(i >= a.records@.len());
            assert(b.records@[i].config.active.deep_view() =~= Seq::<Seq<char>>::empty());
            a.lemma_active_set_absent(u);
        } else {
            a.lemma_active_set_absent(u);
            b.lemma_active_set_absent(u);
        }
    }

    /// Updating one tenant's record in place leaves every other tenant's
    /// active set unchanged.
    proof fn lemma_same_sets_update(a: &Self, b: &Self, u: u64, idx: int)
        requires
            a.wf(),
            b.wf(),
            0 <= idx < a.records@.len(),
            b.records@.len() == a.records@.len(),
            forall|i: int| 0 <= i < a.records@.len() && i != idx ==> a.records@[i] == b.records@[i],
            a.records@[idx].tenant == b.records@[idx].tenant,
            u != a.records@[idx].tenant,
        ensures
            b.spec_active_set(u) == a.spec_active_set(u),
    {
        if a.spec_has_tenant(u) {
            let i = a.spec_tenant_at(u);
            a.lemma_active_set_at(i);
            assert(i != idx);
            b.lemma_active_set_at(i);
        } else {
            assert(!b.spec_has_tenant(u)) by {
                if b.spec_has_tenant(u) {
                    let i = b.spec_tenant_at(u);
                    assert(0 <= i < b.records@.len() && b.records@[i].tenant == u);
                    assert(i != idx);
                    assert(a.records@[i].tenant == u);
                }
            }
            a.lemma_active_set_absent(u);
            b.lemma_active_set_absent(u);
        }
    }
}

impl ModuleManagerConfig {
    /// An empty record: nothing but the orchestration module active.
    pub fn new() -> (r: Self)
        ensures
            r.active@.len() == 0,
    {
        ModuleManagerConfig { active: Vec::new() }
    }
}

impl ModuleConfig for ModuleManagerConfig {
    open spec fn spec_fields(r: Seq<(String, ConfigField)>) -> bool {
        r.len() == 0
    }

    open spec fn ens_get(&self, field: Seq<char>, r: Result<ConfigValue, ConfigFieldError>) -> bool {
        r matches Err(e) && e == ConfigFieldError::FieldNotFound
    }

    open spec fn ens_set(
        pre: Self,
        field: Seq<char>,
        value: ConfigValue,
        post: Self,
        r: Result<(), ConfigFieldError>,
    ) -> bool {
        post == pre && (r matches Err(e) && e == ConfigFieldError::FieldNotFound)
    }

    fn get_config_fields() -> (r: Vec<(String, ConfigField)>) {
        Vec::new()
    }

    fn get_config_entry(&self, _field: &str) -> (r: Result<ConfigValue, ConfigFieldError>) {
        Err(ConfigFieldError::FieldNotFound)
    }

    fn set_config_entry(&mut self, _field: &str, _value: ConfigValue) -> (r: Result<
        (),
        ConfigFieldError,
    >) {
        Err(ConfigFieldError::FieldNotFound)
    }
}

impl DragonModulePermission for ModuleManager {
    open spec fn spec_all_permissions(&self) -> Seq<ModulePermission> {
        seq![
            ModulePermission("module-manager", "module-activate", "activate a module"),
            ModulePermission("module-manager", "module-deactivate", "deactivate a module"),
        ]
    }

    fn all_permissions(&self) -> (r: Vec<ModulePermission>) {
        let mut r: Vec<ModulePermission> = Vec::new();
        r.push(ModulePermission::new("module-manager", "module-activate", "activate a module"));
        r.push(ModulePermission::new("module-manager", "module-deactivate", "deactivate a module"));
        proof {
            assert(r@ =~= self.spec_all_permissions());
        }
        r
    }
}

/// LAW: for every tenant and every state of the store, the orchestration
/// module is reported active.
pub proof fn lemma_orchestration_always_active(m: &ModuleManager, tenant: u64)
    ensures
        m.spec_is_active(tenant, orchestration_id()),
{
}

/// LAW: the active-module listing is a function of the store state alone;
/// two listings taken with no intervening mutation agree.
pub proof fn lemma_listing_stable(
    m: &ModuleManager,
    tenant: u64,
    r1: Seq<Seq<char>>,
    r2: Seq<Seq<char>>,
)
    requires
        r1 == m.spec_all_active(tenant),
        r2 == m.spec_all_active(tenant),
    ensures
        r1 == r2,
{
}

/// LAW: after an activation that appended `id` to a tenant's record, the
/// module is reported active for that tenant.
pub proof fn lemma_activate_then_active(m: &ModuleManager, tenant: u64, id: Seq<char>, prev: Seq<Seq<char>>)
    requires
        m.spec_active_set(tenant) == prev.push(id),
    ensures
        m.spec_is_active(tenant, id),
{
    assert(m.spec_active_set(tenant)[prev.len() as int] == id);
}

proof fn lemma_push_two_contains(rec: Seq<Seq<char>>, a: Seq<char>, b: Seq<char>)
    ensures
        forall|x: Seq<char>|
            #[trigger] rec.push(a).push(b).contains(x) ==> rec.push(b).push(a).contains(x),
{
    assert forall|x: Seq<char>| #[trigger] rec.push(a).push(b).contains(x) implies rec.push(
        b,
    ).push(a).contains(x) by {
        let s1 = rec.push(a).push(b);
        let s2 = rec.push(b).push(a);
        let i = choose|i: int| 0 <= i < s1.len() && s1[i] == x;
        if i < rec.len() {
            assert(s2[i] == x);
        } else if i == rec.len() {
            assert(s2[rec.len() as int + 1] == x);
        } else {
            assert(s2[rec.len() as int] == x);
        }
    }
}

/// LAW: two activations of distinct modules for one tenant serialize on
/// the orchestration module's write lock; whichever completes first, the
/// final persisted record holds exactly the same ids.
pub proof fn lemma_activation_order_irrelevant(rec: Seq<Seq<char>>, a: Seq<char>, b: Seq<char>)
    ensures
        forall|x: Seq<char>|
            #[trigger] rec.push(a).push(b).contains(x) <==> rec.push(b).push(a).contains(x),
{
    lemma_push_two_contains(rec, a, b);
    lemma_push_two_contains(rec, b, a);
}

} // verus!
