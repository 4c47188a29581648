//! Permissions: the permission model, per-tenant grant tables, and the
//! gate that authorizes sensitive operations.
//!
//! An actor (a user or a role, identified by a numeric id) holds a
//! permission inside a module's namespace when the tenant's grant table
//! lists it. A platform administrator passes every check without the table
//! being consulted; a storage failure while reading the table fails the
//! check closed.

use vstd::prelude::*;
use crate::config::{ConfigField, ConfigFieldError, ConfigValue, ModuleConfig};
use crate::errors::ConfigError;
use crate::text::{clone_strings, contains_str, kept_ids, lemma_kept_ids_membership, remove_str, str_eq};

verus! {

/// A permission: (owning module id, permission id, description). Equality
/// is by module and id; the description is informational.
pub struct ModulePermission(pub &'static str, pub &'static str, pub &'static str);

impl ModulePermission {
    pub fn new(module: &'static str, id: &'static str, desc: &'static str) -> (r: Self)
        ensures
            r.0 == module && r.1 == id && r.2 == desc,
    {
        ModulePermission(module, id, desc)
    }

    pub fn module(&self) -> (r: &str)
        ensures
            r@ == self.0@,
    {
        self.0
    }

    pub fn id(&self) -> (r: &str)
        ensures
            r@ == self.1@,
    {
        self.1
    }

    pub fn desc(&self) -> (r: &str)
        ensures
            r@ == self.2@,
    {
        self.2
    }
}

impl PartialEq for ModulePermission {
    fn eq(&self, other: &Self) -> (r: bool) {
        str_eq(self.1, other.1) && str_eq(self.0, other.0)
    }
}

impl vstd::std_specs::cmp::PartialEqSpecImpl for ModulePermission {
    open spec fn obeys_eq_spec() -> bool {
        true
    }

    open spec fn eq_spec(&self, other: &Self) -> bool {
        self.1@ == other.1@ && self.0@ == other.0@
    }
}

/// A module's own permission listing, offered for the permission command's
/// option menu; empty by default.
pub trait DragonModulePermission {
    /// Which permission list this module advertises.
    spec fn spec_all_permissions(&self) -> Seq<ModulePermission>;

    fn all_permissions(&self) -> (r: Vec<ModulePermission>)
        ensures
            r@ == self.spec_all_permissions(),
    ;
}

#[derive(Debug, PartialEq, Eq, Structural)]
pub enum PermissionsError {
    PermissionNotFound,
    PermissionAlreadyGiven,
    PermissionNotGiven,
}

/// The permission ids granted to one actor (user or role id).
pub struct ActorGrants {
    pub actor: u64,
    pub permissions: Vec<String>,
}

/// The grant table of one module namespace.
pub struct NamespaceGrants {
    pub namespace: String,
    pub grants: Vec<ActorGrants>,
}

/// The per-tenant permission configuration: for each module namespace,
/// which actor holds which permission ids.
pub struct PermissionsManagerConfig {
    pub namespaces: Vec<NamespaceGrants>,
}

impl PermissionsManagerConfig {
    /// An actor holds a permission when some namespace entry with the
    /// permission's owning-module id grants it to that actor.
    pub open spec fn spec_granted(&self, namespace: Seq<char>, actor: u64, perm: Seq<char>) -> bool {
        exists|i: int, j: int|
            #![auto]
            0 <= i < self.namespaces@.len() && self.namespaces@[i].namespace@ == namespace && 0 <= j
                < self.namespaces@[i].grants@.len() && self.namespaces@[i].grants@[j].actor == actor
                && self.namespaces@[i].grants@[j].permissions.deep_view().contains(perm)
    }

    /// An empty grant table: nothing is granted.
    pub fn new() -> (r: Self)
        ensures
            forall|n: Seq<char>, a: u64, p: Seq<char>| !r.spec_granted(n, a, p),
    {
        let r = PermissionsManagerConfig { namespaces: Vec::new() };
        proof {
            assert forall|n: Seq<char>, a: u64, p: Seq<char>| !r.spec_granted(n, a, p) by {}
        }
        r
    }

    /// Whether the table grants `permission` to `actor` inside `namespace`.
    pub fn granted(&self, namespace: &str, actor: u64, permission: &str) -> (r: bool)
        ensures
            r == self.spec_granted(namespace@, actor, permission@),
    {
        let mut i: usize = 0;
        while i < self.namespaces.len()
            invariant
                i <= self.namespaces@.len(),
                forall|i2: int, j2: int|
                    #![auto]
                    0 <= i2 < i && 0 <= j2 < self.namespaces@[i2].grants@.len() ==> !(
                    self.namespaces@[i2].namespace@ == namespace@
                        && self.namespaces@[i2].grants@[j2].actor == actor
                        && self.namespaces@[i2].grants@[j2].permissions.deep_view().contains(
                        permission@,
                    )),
            decreases self.namespaces@.len() - i,
        {
            if str_eq(self.namespaces[i].namespace.as_str(), namespace) {
                let entry = &self.namespaces[i];
                let mut j: usize = 0;
                while j < entry.grants.len()
                    invariant
                        j <= entry.grants@.len(),
                        entry == self.namespaces@[i as int],
                        entry.namespace@ == namespace@,
                        i < self.namespaces@.len(),
                        forall|j2: int|
                            #![auto]
                            0 <= j2 < j ==> !(entry.grants@[j2].actor == actor
                                && entry.grants@[j2].permissions.deep_view().contains(permission@)),
                    decreases entry.grants@.len() - j,
                {
                    if entry.grants[j].actor == actor && contains_str(
                        &entry.grants[j].permissions,
                        permission,
                    ) {
                        return true;
                    }
                    j += 1;
                }
            }
            i += 1;
        }
        proof {
            if self.spec_granted(namespace@, actor, permission@) {
                let (i2, j2) = choose|i2: int, j2: int|
                    #![auto]
                    0 <= i2 < self.namespaces@.len() && self.namespaces@[i2].namespace@
                        == namespace@ && 0 <= j2 < self.namespaces@[i2].grants@.len()
                        && self.namespaces@[i2].grants@[j2].actor == actor
                        && self.namespaces@[i2].grants@[j2].permissions.deep_view().contains(
                        permission@,
                    );
                assert(false);
            }
        }
        false
    }
}

impl PermissionsManagerConfig {
    fn find_namespace(&self, namespace: &str) -> (r: Option<usize>)
        ensures
            match r {
                Some(i) => i < self.namespaces@.len() && self.namespaces@[i as int].namespace@
                    == namespace@,
                None => forall|i: int|
                    0 <= i < self.namespaces@.len() ==> (#[trigger] self.namespaces@[i]).namespace@
                        != namespace@,
            },
    {
        let mut i: usize = 0;
        while i < self.namespaces.len()
            invariant
                i <= self.namespaces@.len(),
                forall|i2: int|
                    0 <= i2 < i ==> (#[trigger] self.namespaces@[i2]).namespace@ != namespace@,
            decreases self.namespaces@.len() - i,
        {
            if str_eq(self.namespaces[i].namespace.as_str(), namespace) {
                return Some(i);
            }
            i += 1;
        }
        None
    }
}

fn find_actor(grants: &Vec<ActorGrants>, actor: u64) -> (r: Option<usize>)
    ensures
        match r {
            Some(j) => j < grants@.len() && grants@[j as int].actor == actor,
            None => forall|j: int| 0 <= j < grants@.len() ==> (#[trigger] grants@[j]).actor != actor,
        },
{
    let mut j: usize = 0;
    while j < grants.len()
        invariant
            j <= grants@.len(),
            forall|j2: int| 0 <= j2 < j ==> (#[trigger] grants@[j2]).actor != actor,
        decreases grants@.len() - j,
    {
        if grants[j].actor == actor {
            return Some(j);
        }
        j += 1;
    }
    None
}

/// A permission list with every occurrence of `perm` removed.
pub open spec fn without_perm(perms: Seq<Seq<char>>, perm: Seq<char>) -> Seq<Seq<char>>
    decreases perms.len(),
{
    if perms.len() == 0 {
        Seq::empty()
    } else if perms.first() == perm {
        without_perm(perms.drop_first(), perm)
    } else {
        seq![perms.first()] + without_perm(perms.drop_first(), perm)
    }
}

/// The shortened list is the kept subsequence of ids differing from
/// `perm`.
pub proof fn lemma_without_perm_is_kept(perms: Seq<Seq<char>>, perm: Seq<char>)
    ensures
        without_perm(perms, perm) == kept_ids(perms, |x: Seq<char>| x != perm),
    decreases perms.len(),
{
    if perms.len() > 0 {
        lemma_without_perm_is_kept(perms.drop_first(), perm);
    }
}

/// Membership in the shortened list: everything but `perm` survives.
pub proof fn lemma_without_perm_membership(perms: Seq<Seq<char>>, perm: Seq<char>)
    ensures
        forall|x: Seq<char>|
            #[trigger] without_perm(perms, perm).contains(x) <==> (perms.contains(x) && x != perm),
{
    lemma_without_perm_is_kept(perms, perm);
    lemma_kept_ids_membership(perms, |x: Seq<char>| x != perm);
}

/// Relation between one namespace entry and its form after revoking
/// `perm` from `actor` inside `ns`: the layout is unchanged, and exactly
/// the matching permission lists lose every occurrence of `perm`.
spec fn revoked_entry_rel(
    oe: NamespaceGrants,
    ne: NamespaceGrants,
    ns: Seq<char>,
    actor: u64,
    perm: Seq<char>,
) -> bool {
    &&& ne.namespace@ == oe.namespace@
    &&& ne.grants@.len() == oe.grants@.len()
    &&& forall|j: int|
        0 <= j < oe.grants@.len() ==> ((#[trigger] ne.grants@[j]).actor == oe.grants@[j].actor
            && ne.grants@[j].permissions.deep_view() == (if oe.namespace@ == ns
            && oe.grants@[j].actor == actor {
            without_perm(oe.grants@[j].permissions.deep_view(), perm)
        } else {
            oe.grants@[j].permissions.deep_view()
        }))
}

fn clone_grants(v: &Vec<ActorGrants>) -> (r: Vec<ActorGrants>)
    ensures
        r@.len() == v@.len(),
        forall|j: int|
            0 <= j < v@.len() ==> ((#[trigger] r@[j]).actor == v@[j].actor
                && r@[j].permissions.deep_view() == v@[j].permissions.deep_view()),
{
    let mut r: Vec<ActorGrants> = Vec::new();
    let mut i: usize = 0;
    while i < v.len()
        invariant
            i <= v@.len(),
            r@.len() == i,
            forall|j: int|
                0 <= j < i ==> ((#[trigger] r@[j]).actor == v@[j].actor
                    && r@[j].permissions.deep_view() == v@[j].permissions.deep_view()),
        decreases v@.len() - i,
    {
        let g = &v[i];
        r.push(ActorGrants { actor: g.actor, permissions: clone_strings(&g.permissions) });
        i += 1;
    }
    r
}

/// The permissions module itself: stateless, operating on the per-tenant
/// grant table that the caller loads and persists.
#[derive(Default)]
pub struct PermissionsManager;

impl PermissionsManager {
    /// Whether `actor`, or any of the roles it holds, is granted the
    /// permission inside its owning module's namespace.
    pub fn has_permission(
        &self,
        config: &PermissionsManagerConfig,
        actor: u64,
        roles: &Vec<u64>,
        permission: &ModulePermission,
    ) -> (r: bool)
        ensures
            r == (config.spec_granted(permission.0@, actor, permission.1@) || exists|k: int|
                0 <= k < roles@.len() && config.spec_granted(
                    permission.0@,
                    #[trigger] roles@[k],
                    permission.1@,
                )),
    {
        self.has_permission_str(config, actor, roles, permission.0, permission.1)
    }

    /// As `has_permission`, over a bare namespace and permission id.
    pub fn has_permission_str(
        &self,
        config: &PermissionsManagerConfig,
        actor: u64,
        roles: &Vec<u64>,
        namespace: &str,
        permission: &str,
    ) -> (r: bool)
        ensures
            r == (config.spec_granted(namespace@, actor, permission@) || exists|k: int|
                0 <= k < roles@.len() && config.spec_granted(
                    namespace@,
                    #[trigger] roles@[k],
                    permission@,
                )),
    {
        if config.granted(namespace, actor, permission) {
            return true;
        }
        let mut k: usize = 0;
        while k < roles.len()
            invariant
                k <= roles@.len(),
                forall|k2: int|
                    0 <= k2 < k ==> !config.spec_granted(namespace@, #[trigger] roles@[k2], permission@),
            decreases roles@.len() - k,
        {
            if config.granted(namespace, roles[k], permission) {
                return true;
            }
            k += 1;
        }
        false
    }

    /// Grant a permission id to an actor inside a module namespace. Fails
    /// `PermissionAlreadyGiven`, leaving the table untouched, when the
    /// grant is already present; on success exactly this one grant is
    /// added and every other grant is unaffected.
    pub fn give_permission_str(
        &self,
        config: &mut PermissionsManagerConfig,
        target: u64,
        namespace: &str,
        permission: &str,
    ) -> (r: Result<(), PermissionsError>)
        ensures
            old(config).spec_granted(namespace@, target, permission@) ==> (r matches Err(
                PermissionsError::PermissionAlreadyGiven,
            ) && *final(config) == *old(config)),
            !old(config).spec_granted(namespace@, target, permission@) ==> ({
                &&& r is Ok
                &&& final(config).spec_granted(namespace@, target, permission@)
                &&& forall|n2: Seq<char>, a2: u64, p2: Seq<char>|
                    !(n2 == namespace@ && a2 == target && p2 == permission@)
                        ==> #[trigger] final(config).spec_granted(n2, a2, p2) == old(
                        config,
                    ).spec_granted(n2, a2, p2)
            }),
    {
        if config.granted(namespace, target, permission) {
            return Err(PermissionsError::PermissionAlreadyGiven);
        }
        let ghost o = *config;
        match config.find_namespace(namespace) {
            Some(i) => {
                let mut e = config.namespaces.remove(i);
                let ghost oe = e;
                match find_actor(&e.grants, target) {
                    Some(j) => {
                        let mut g = e.grants.remove(j);
                        let ghost og_perms = g.permissions.deep_view();
                        g.permissions.push(String::from_str(permission));
                        proof {
                            assert(g.permissions.deep_view() =~= og_perms.push(permission@));
                        }
                        e.grants.insert(j, g);
                        proof {
                            assert(e.grants@ =~= oe.grants@.update(j as int, e.grants@[j as int]));
                        }
                        config.namespaces.insert(i, e);
                        proof {
                            assert(config.namespaces@ =~= o.namespaces@.update(
                                i as int,
                                config.namespaces@[i as int],
                            ));
                            Self::lemma_give_existing(
                                &o,
                                config,
                                namespace@,
                                target,
                                permission@,
                                i as int,
                                j as int,
                            );
                        }
                    },
                    None => {
                        let mut perms: Vec<String> = Vec::new();
                        perms.push(String::from_str(permission));
                        proof {
                            assert(perms.deep_view() =~= seq![permission@]);
                        }
                        e.grants.push(ActorGrants { actor: target, permissions: perms });
                        config.namespaces.insert(i, e);
                        proof {
                            assert(config.namespaces@ =~= o.namespaces@.update(
                                i as int,
                                config.namespaces@[i as int],
                            ));
                            Self::lemma_give_new_actor(
                                &o,
                                config,
                                namespace@,
                                target,
                                permission@,
                                i as int,
                            );
                        }
                    },
                }
            },
            None => {
                let mut perms: Vec<String> = Vec::new();
                perms.push(String::from_str(permission));
                proof {
                    assert(perms.deep_view() =~= seq![permission@]);
                }
                let mut grants: Vec<ActorGrants> = Vec::new();
                grants.push(ActorGrants { actor: target, permissions: perms });
                config.namespaces.push(
                    NamespaceGrants { namespace: String::from_str(namespace), grants },
                );
                proof {
                    Self::lemma_give_new_namespace(&o, config, namespace@, target, permission@);
                }
            },
        }
        Ok(())
    }

    /// Pushing one permission id onto one existing actor entry adds exactly
    /// that grant.
    proof fn lemma_give_existing(
        o: &PermissionsManagerConfig,
        n: &PermissionsManagerConfig,
        ns: Seq<char>,
        target: u64,
        p: Seq<char>,
        i: int,
        j: int,
    )
        requires
            0 <= i < o.namespaces@.len(),
            n.namespaces@.len() == o.namespaces@.len(),
            forall|i2: int|
                0 <= i2 < o.namespaces@.len() && i2 != i ==> o.namespaces@[i2] == n.namespaces@[i2],
            n.namespaces@[i].namespace@ == ns,
            o.namespaces@[i].namespace@ == ns,
            0 <= j < o.namespaces@[i].grants@.len(),
            n.namespaces@[i].grants@.len() == o.namespaces@[i].grants@.len(),
            forall|j2: int|
                0 <= j2 < o.namespaces@[i].grants@.len() && j2 != j
                    ==> o.namespaces@[i].grants@[j2] == n.namespaces@[i].grants@[j2],
            n.namespaces@[i].grants@[j].actor == target,
            o.namespaces@[i].grants@[j].actor == target,
            n.namespaces@[i].grants@[j].permissions.deep_view() == o.namespaces@[i].grants@[
                j
            ].permissions.deep_view().push(p),
        ensures
            n.spec_granted(ns, target, p),
            forall|n2: Seq<char>, a2: u64, p2: Seq<char>|
                !(n2 == ns && a2 == target && p2 == p) ==> #[trigger] n.spec_granted(n2, a2, p2)
                    == o.spec_granted(n2, a2, p2),
    {
        let og = o.namespaces@[i].grants@[j].permissions.deep_view();
        let ng = n.namespaces@[i].grants@[j].permissions.deep_view();
        assert(ng[og.len() as int] == p);
        assert(ng.contains(p));
        assert(n.spec_granted(ns, target, p));
        assert forall|n2: Seq<char>, a2: u64, p2: Seq<char>|
            !(n2 == ns && a2 == target && p2 == p) implies #[trigger] n.spec_granted(n2, a2, p2)
            == o.spec_granted(n2, a2, p2) by {
            if o.spec_granted(n2, a2, p2) {
                let (i2, j2) = choose|i2: int, j2: int|
                    #![auto]
                    0 <= i2 < o.namespaces@.len() && o.namespaces@[i2].namespace@ == n2 && 0 <= j2
                        < o.namespaces@[i2].grants@.len() && o.namespaces@[i2].grants@[j2].actor
                        == a2 && o.namespaces@[i2].grants@[j2].permissions.deep_view().contains(p2);
                if i2 == i && j2 == j {
                    let idx = choose|idx: int| 0 <= idx < og.len() && og[idx] == p2;
                    assert(ng[idx] == p2);
                    assert(ng.contains(p2));
                    assert(n.spec_granted(n2, a2, p2));
                } else {
                    assert(n.namespaces@[i2].grants@[j2] == o.namespaces@[i2].grants@[j2]);
                    assert(n.spec_granted(n2, a2, p2));
                }
            }
            if n.spec_granted(n2, a2, p2) {
                let (i2, j2) = choose|i2: int, j2: int|
                    #![auto]
                    0 <= i2 < n.namespaces@.len() && n.namespaces@[i2].namespace@ == n2 && 0 <= j2
                        < n.namespaces@[i2].grants@.len() && n.namespaces@[i2].grants@[j2].actor
                        == a2 && n.namespaces@[i2].grants@[j2].permissions.deep_view().contains(p2);
                if i2 == i && j2 == j {
                    let idx = choose|idx: int| 0 <= idx < ng.len() && ng[idx] == p2;
                    if idx < og.len() {
                        assert(og.contains(p2));
                        assert(o.spec_granted(n2, a2, p2));
                    } else {
                        assert(p2 == p && n2 == ns && a2 == target);
                    }
                } else {
                    assert(o.namespaces@[i2].grants@[j2] == n.namespaces@[i2].grants@[j2]);
                    assert(o.spec_granted(n2, a2, p2));
                }
            }
        }
    }

    /// Appending a fresh actor entry holding exactly one permission id adds
    /// exactly that grant.
    proof fn lemma_give_new_actor(
        o: &PermissionsManagerConfig,
        n: &PermissionsManagerConfig,
        ns: Seq<char>,
        target: u64,
        p: Seq<char>,
        i: int,
    )
        requires
            0 <= i < o.namespaces@.len(),
            n.namespaces@.len() == o.namespaces@.len(),
            forall|i2: int|
                0 <= i2 < o.namespaces@.len() && i2 != i ==> o.namespaces@[i2] == n.namespaces@[i2],
            n.namespaces@[i].namespace@ == ns,
            o.namespaces@[i].namespace@ == ns,
            n.namespaces@[i].grants@.len() == o.namespaces@[i].grants@.len() + 1,
            forall|j2: int|
                0 <= j2 < o.namespaces@[i].grants@.len() ==> o.namespaces@[i].grants@[j2]
                    == n.namespaces@[i].grants@[j2],
            n.namespaces@[i].grants@.last().actor == target,
            n.namespaces@[i].grants@.last().permissions.deep_view() =~= seq![p],
        ensures
            n.spec_granted(ns, target, p),
            forall|n2: Seq<char>, a2: u64, p2: Seq<char>|
                !(n2 == ns && a2 == target && p2 == p) ==> #[trigger] n.spec_granted(n2, a2, p2)
                    == o.spec_granted(n2, a2, p2),
    {
        let newlen = n.namespaces@[i].grants@.len();
        assert(n.namespaces@[i].grants@[newlen - 1].permissions.deep_view()[0] == p);
        assert(n.namespaces@[i].grants@[newlen - 1].permissions.deep_view().contains(p));
        assert(n.spec_granted(ns, target, p));
        assert forall|n2: Seq<char>, a2: u64, p2: Seq<char>|
            !(n2 == ns && a2 == target && p2 == p) implies #[trigger] n.spec_granted(n2, a2, p2)
            == o.spec_granted(n2, a2, p2) by {
            if o.spec_granted(n2, a2, p2) {
                let (i2, j2) = choose|i2: int, j2: int|
                    #![auto]
                    0 <= i2 < o.namespaces@.len() && o.namespaces@[i2].namespace@ == n2 && 0 <= j2
                        < o.namespaces@[i2].grants@.len() && o.namespaces@[i2].grants@[j2].actor
                        == a2 && o.namespaces@[i2].grants@[j2].permissions.deep_view().contains(p2);
                assert(n.namespaces@[i2].grants@[j2] == o.namespaces@[i2].grants@[j2]);
                assert(n.spec_granted(n2, a2, p2));
            }
            if n.spec_granted(n2, a2, p2) {
                let (i2, j2) = choose|i2: int, j2: int|
                    #![auto]
                    0 <= i2 < n.namespaces@.len() && n.namespaces@[i2].namespace@ == n2 && 0 <= j2
                        < n.namespaces@[i2].grants@.len() && n.namespaces@[i2].grants@[j2].actor
                        == a2 && n.namespaces@[i2].grants@[j2].permissions.deep_view().contains(p2);
                if i2 == i && j2 == newlen - 1 {
                    let perms = n.namespaces@[i].grants@[j2].permissions.deep_view();
                    let idx = choose|idx: int| 0 <= idx < perms.len() && perms[idx] == p2;
                    assert(p2 == p && n2 == ns && a2 == target);
                } else {
                    assert(o.namespaces@[i2].grants@[j2] == n.namespaces@[i2].grants@[j2]);
                    assert(o.spec_granted(n2, a2, p2));
                }
            }
        }
    }

    /// Appending a fresh namespace entry holding exactly one grant adds
    /// exactly that grant.
    proof fn lemma_give_new_namespace(
        o: &PermissionsManagerConfig,
        n: &PermissionsManagerConfig,
        ns: Seq<char>,
        target: u64,
        p: Seq<char>,
    )
        requires
            n.namespaces@.len() == o.namespaces@.len() + 1,
            forall|i2: int|
                0 <= i2 < o.namespaces@.len() ==> o.namespaces@[i2] == n.namespaces@[i2],
            n.namespaces@.last().namespace@ == ns,
            n.namespaces@.last().grants@.len() == 1,
            n.namespaces@.last().grants@[0].actor == target,
            n.namespaces@.last().grants@[0].permissions.deep_view() =~= seq![p],
        ensures
            n.spec_granted(ns, target, p),
            forall|n2: Seq<char>, a2: u64, p2: Seq<char>|
                !(n2 == ns && a2 == target && p2 == p) ==> #[trigger] n.spec_granted(n2, a2, p2)
                    == o.spec_granted(n2, a2, p2),
    {
        let newlen = n.namespaces@.len();
        assert(n.namespaces@[newlen - 1].grants@[0].permissions.deep_view()[0] == p);
        assert(n.namespaces@[newlen - 1].grants@[0].permissions.deep_view().contains(p));
        assert(n.spec_granted(ns, target, p));
        assert forall|n2: Seq<char>, a2: u64, p2: Seq<char>|
            !(n2 == ns && a2 == target && p2 == p) implies #[trigger] n.spec_granted(n2, a2, p2)
            == o.spec_granted(n2, a2, p2) by {
            if o.spec_granted(n2, a2, p2) {
                let (i2, j2) = choose|i2: int, j2: int|
                    #![auto]
                    0 <= i2 < o.namespaces@.len() && o.namespaces@[i2].namespace@ == n2 && 0 <= j2
                        < o.namespaces@[i2].grants@.len() && o.namespaces@[i2].grants@[j2].actor
                        == a2 && o.namespaces@[i2].grants@[j2].permissions.deep_view().contains(p2);
                assert(n.namespaces@[i2].grants@[j2] == o.namespaces@[i2].grants@[j2]);
                assert(n.spec_granted(n2, a2, p2));
            }
            if n.spec_granted(n2, a2, p2) {
                let (i2, j2) = choose|i2: int, j2: int|
                    #![auto]
                    0 <= i2 < n.namespaces@.len() && n.namespaces@[i2].namespace@ == n2 && 0 <= j2
                        < n.namespaces@[i2].grants@.len() && n.namespaces@[i2].grants@[j2].actor
                        == a2 && n.namespaces@[i2].grants@[j2].permissions.deep_view().contains(p2);
                if i2 == newlen - 1 {
                    let perms = n.namespaces@[i2].grants@[j2].permissions.deep_view();
                    let idx = choose|idx: int| 0 <= idx < perms.len() && perms[idx] == p2;
                    assert(p2 == p && n2 == ns && a2 == target);
                } else {
                    assert(o.namespaces@[i2].grants@[j2] == n.namespaces@[i2].grants@[j2]);
                    assert(o.spec_granted(n2, a2, p2));
                }
            }
        }
    }

    /// Revoke a permission id from an actor inside a module namespace.
    /// Fails `PermissionNotGiven`, leaving the table untouched, when the
    /// grant is absent; on success the grant is gone and every other grant
    /// is unaffected.
    pub fn take_permission_str(
        &self,
        config: &mut PermissionsManagerConfig,
        target: u64,
        namespace: &str,
        permission: &str,
    ) -> (r: Result<(), PermissionsError>)
        ensures
            !old(config).spec_granted(namespace@, target, permission@) ==> (r matches Err(
                PermissionsError::PermissionNotGiven,
            ) && *final(config) == *old(config)),
            old(config).spec_granted(namespace@, target, permission@) ==> ({
                &&& r is Ok
                &&& !final(config).spec_granted(namespace@, target, permission@)
                &&& forall|n2: Seq<char>, a2: u64, p2: Seq<char>|
                    !(n2 == namespace@ && a2 == target && p2 == permission@)
                        ==> #[trigger] final(config).spec_granted(n2, a2, p2) == old(
                        config,
                    ).spec_granted(n2, a2, p2)
            }),
    {
        if !config.granted(namespace, target, permission) {
            return Err(PermissionsError::PermissionNotGiven);
        }
        let ghost o = *config;
        let mut new_nss: Vec<NamespaceGrants> = Vec::new();
        let mut i: usize = 0;
        while i < config.namespaces.len()
            invariant
                i <= config.namespaces@.len(),
                *config == o,
                new_nss@.len() == i,
                forall|i2: int|
                    0 <= i2 < i ==> revoked_entry_rel(
                        #[trigger] o.namespaces@[i2],
                        new_nss@[i2],
                        namespace@,
                        target,
                        permission@,
                    ),
            decreases config.namespaces@.len() - i,
        {
            let e = &config.namespaces[i];
            if str_eq(e.namespace.as_str(), namespace) {
                let mut new_grants: Vec<ActorGrants> = Vec::new();
                let mut j: usize = 0;
                while j < e.grants.len()
                    invariant
                        j <= e.grants@.len(),
                        e == &o.namespaces@[i as int],
                        i < o.namespaces@.len(),
                        e.namespace@ == namespace@,
                        new_grants@.len() == j,
                        forall|j2: int|
                            0 <= j2 < j ==> ((#[trigger] new_grants@[j2]).actor == e.grants@[j2].actor
                                && new_grants@[j2].permissions.deep_view() == (if e.grants@[j2].actor
                                == target {
                                without_perm(e.grants@[j2].permissions.deep_view(), permission@)
                            } else {
                                e.grants@[j2].permissions.deep_view()
                            })),
                    decreases e.grants@.len() - j,
                {
                    let g = &e.grants[j];
                    if g.actor == target {
                        let trimmed = remove_str(&g.permissions, permission);
                        proof {
                            let ka = |x: Seq<char>| x != permission@;
                            let p_seq = permission@;
                            let kb = |x: Seq<char>| x != p_seq;
                            assert(ka =~= kb);
                            assert(trimmed.deep_view() == kept_ids(g.permissions.deep_view(), ka));
                            lemma_without_perm_is_kept(g.permissions.deep_view(), p_seq);
                            assert(trimmed.deep_view() == without_perm(
                                g.permissions.deep_view(),
                                permission@,
                            ));
                        }
                        new_grants.push(ActorGrants { actor: g.actor, permissions: trimmed });
                    } else {
                        new_grants.push(
                            ActorGrants {
                                actor: g.actor,
                                permissions: clone_strings(&g.permissions),
                            },
                        );
                    }
                    j += 1;
                }
                new_nss.push(NamespaceGrants { namespace: e.namespace.clone(), grants: new_grants });
                proof {
                    assert(revoked_entry_rel(
                        o.namespaces@[i as int],
                        new_nss@[i as int],
                        namespace@,
                        target,
                        permission@,
                    ));
                }
            } else {
                let cloned_entry = NamespaceGrants {
                    namespace: e.namespace.clone(),
                    grants: clone_grants(&e.grants),
                };
                new_nss.push(cloned_entry);
                proof {
                    assert(revoked_entry_rel(
                        o.namespaces@[i as int],
                        new_nss@[i as int],
                        namespace@,
                        target,
                        permission@,
                    ));
                }
            }
            i += 1;
        }
        config.namespaces = new_nss;
        proof {
            Self::lemma_revoke(&o, config, namespace@, target, permission@);
        }
        Ok(())
    }

    /// A revocation relation implies: the grant is gone, and every other
    /// grant is untouched.
    proof fn lemma_revoke(
        o: &PermissionsManagerConfig,
        n: &PermissionsManagerConfig,
        ns: Seq<char>,
        actor: u64,
        perm: Seq<char>,
    )
        requires
            n.namespaces@.len() == o.namespaces@.len(),
            forall|i: int|
                0 <= i < o.namespaces@.len() ==> revoked_entry_rel(
                    #[trigger] o.namespaces@[i],
                    n.namespaces@[i],
                    ns,
                    actor,
                    perm,
                ),
        ensures
            !n.spec_granted(ns, actor, perm),
            forall|n2: Seq<char>, a2: u64, p2: Seq<char>|
                !(n2 == ns && a2 == actor && p2 == perm) ==> #[trigger] n.spec_granted(n2, a2, p2)
                    == o.spec_granted(n2, a2, p2),
    {
        assert(!n.spec_granted(ns, actor, perm)) by {
            if n.spec_granted(ns, actor, perm) {
                let (i2, j2) = choose|i2: int, j2: int|
                    #![auto]
                    0 <= i2 < n.namespaces@.len() && n.namespaces@[i2].namespace@ == ns && 0 <= j2
                        < n.namespaces@[i2].grants@.len() && n.namespaces@[i2].grants@[j2].actor
                        == actor && n.namespaces@[i2].grants@[j2].permissions.deep_view().contains(
                        perm,
                    );
                assert(revoked_entry_rel(o.namespaces@[i2], n.namespaces@[i2], ns, actor, perm));
                assert(o.namespaces@[i2].grants@.len() == n.namespaces@[i2].grants@.len());
                let og = o.namespaces@[i2].grants@[j2].permissions.deep_view();
                assert(o.namespaces@[i2].namespace@ == ns);
                assert(o.namespaces@[i2].grants@[j2].actor == actor);
                assert(n.namespaces@[i2].grants@[j2].permissions.deep_view() == without_perm(
                    og,
                    perm,
                ));
                lemma_without_perm_membership(og, perm);
            }
        }
        assert forall|n2: Seq<char>, a2: u64, p2: Seq<char>|
            !(n2 == ns && a2 == actor && p2 == perm) implies #[trigger] n.spec_granted(n2, a2, p2)
            == o.spec_granted(n2, a2, p2) by {
            if o.spec_granted(n2, a2, p2) {
                let (i2, j2) = choose|i2: int, j2: int|
                    #![auto]
                    0 <= i2 < o.namespaces@.len() && o.namespaces@[i2].namespace@ == n2 && 0 <= j2
                        < o.namespaces@[i2].grants@.len() && o.namespaces@[i2].grants@[j2].actor
                        == a2 && o.namespaces@[i2].grants@[j2].permissions.deep_view().contains(p2);
                assert(revoked_entry_rel(o.namespaces@[i2], n.namespaces@[i2], ns, actor, perm));
                assert(o.namespaces@[i2].grants@.len() == n.namespaces@[i2].grants@.len());
                let og = o.namespaces@[i2].grants@[j2].permissions.deep_view();
                assert(n.namespaces@[i2].namespace@ == o.namespaces@[i2].namespace@);
                if o.namespaces@[i2].namespace@ == ns && o.namespaces@[i2].grants@[j2].actor == actor {
                    // p2 != perm, so filtering keeps it.
                    lemma_without_perm_membership(og, perm);
                    assert(n.namespaces@[i2].grants@[j2].permissions.deep_view().contains(p2));
                } else {
                    assert(n.namespaces@[i2].grants@[j2].permissions.deep_view().contains(p2));
                }
                assert(n.spec_granted(n2, a2, p2));
            }
            if n.spec_granted(n2, a2, p2) {
                let (i2, j2) = choose|i2: int, j2: int|
                    #![auto]
                    0 <= i2 < n.namespaces@.len() && n.namespaces@[i2].namespace@ == n2 && 0 <= j2
                        < n.namespaces@[i2].grants@.len() && n.namespaces@[i2].grants@[j2].actor
                        == a2 && n.namespaces@[i2].grants@[j2].permissions.deep_view().contains(p2);
                assert(revoked_entry_rel(o.namespaces@[i2], n.namespaces@[i2], ns, actor, perm));
                assert(o.namespaces@[i2].grants@.len() == n.namespaces@[i2].grants@.len());
                let og = o.namespaces@[i2].grants@[j2].permissions.deep_view();
                assert(n.namespaces@[i2].namespace@ == o.namespaces@[i2].namespace@);
                if o.namespaces@[i2].namespace@ == ns && o.namespaces@[i2].grants@[j2].actor
                    == actor {
                    lemma_without_perm_membership(og, perm);
                    assert(og.contains(p2));
                } else {
                    assert(og.contains(p2));
                }
                assert(o.spec_granted(n2, a2, p2));
            }
        }
    }

    /// Revoke a permission named by a `ModulePermission` value.
    pub fn take_permission(
        &self,
        config: &mut PermissionsManagerConfig,
        target: u64,
        permission: &ModulePermission,
    ) -> (r: Result<(), PermissionsError>)
        ensures
            !old(config).spec_granted(permission.0@, target, permission.1@) ==> (r matches Err(
                PermissionsError::PermissionNotGiven,
            ) && *final(config) == *old(config)),
            old(config).spec_granted(permission.0@, target, permission.1@) ==> ({
                &&& r is Ok
                &&& !final(config).spec_granted(permission.0@, target, permission.1@)
                &&& forall|n2: Seq<char>, a2: u64, p2: Seq<char>|
                    !(n2 == permission.0@ && a2 == target && p2 == permission.1@)
                        ==> #[trigger] final(config).spec_granted(n2, a2, p2) == old(
                        config,
                    ).spec_granted(n2, a2, p2)
            }),
    {
        self.take_permission_str(config, target, permission.0, permission.1)
    }

    /// Grant a permission named by a `ModulePermission` value.
    pub fn give_permission(
        &self,
        config: &mut PermissionsManagerConfig,
        target: u64,
        permission: &ModulePermission,
    ) -> (r: Result<(), PermissionsError>)
        ensures
            old(config).spec_granted(permission.0@, target, permission.1@) ==> (r matches Err(
                PermissionsError::PermissionAlreadyGiven,
            ) && *final(config) == *old(config)),
            !old(config).spec_granted(permission.0@, target, permission.1@) ==> ({
                &&& r is Ok
                &&& final(config).spec_granted(permission.0@, target, permission.1@)
                &&& forall|n2: Seq<char>, a2: u64, p2: Seq<char>|
                    !(n2 == permission.0@ && a2 == target && p2 == permission.1@)
                        ==> #[trigger] final(config).spec_granted(n2, a2, p2) == old(
                        config,
                    ).spec_granted(n2, a2, p2)
            }),
    {
        self.give_permission_str(config, target, permission.0, permission.1)
    }
}

impl ModuleConfig for PermissionsManagerConfig {
    open spec fn spec_fields(r: Seq<(String, ConfigField)>) -> bool {
        r.len() == 0
    }

    open spec fn ens_get(&self, field: Seq<char>, r: Result<ConfigValue, ConfigFieldError>) -> bool {
        r matches Err(e) && e == ConfigFieldError::FieldNotFound
    }

    open spec fn ens_set(
        pre: Self,
        field: Seq<char>,
        value: ConfigValue,
        post: Self,
        r: Result<(), ConfigFieldError>,
    ) -> bool {
        post == pre && (r matches Err(e) && e == ConfigFieldError::FieldNotFound)
    }

    fn get_config_fields() -> (r: Vec<(String, ConfigField)>) {
        Vec::new()
    }

    fn get_config_entry(&self, _field: &str) -> (r: Result<ConfigValue, ConfigFieldError>) {
        Err(ConfigFieldError::FieldNotFound)
    }

    fn set_config_entry(&mut self, _field: &str, _value: ConfigValue) -> (r: Result<
        (),
        ConfigFieldError,
    >) {
        Err(ConfigFieldError::FieldNotFound)
    }
}

impl DragonModulePermission for PermissionsManager {
    open spec fn spec_all_permissions(&self) -> Seq<ModulePermission> {
        seq![
            ModulePermission(
                "permissions-manager",
                "edit-permissions",
                "edit the permission tree for a guild",
            ),
        ]
    }

    fn all_permissions(&self) -> (r: Vec<ModulePermission>) {
        let mut r: Vec<ModulePermission> = Vec::new();
        r.push(
            ModulePermission::new(
                "permissions-manager",
                "edit-permissions",
                "edit the permission tree for a guild",
            ),
        );
        proof {
            assert(r@ =~= self.spec_all_permissions());
        }
        r
    }
}

/// The permission gate for one sensitive operation. A platform
/// administrator always passes, without the grant table being consulted;
/// otherwise the actor passes exactly when it holds the permission
/// directly or through one of its roles. A storage failure while loading
/// the grant table fails the check closed: it propagates as an error and
/// never grants permission.
pub fn assert_permission(
    manager: &PermissionsManager,
    is_admin: bool,
    load: Result<PermissionsManagerConfig, ConfigError>,
    actor: u64,
    roles: &Vec<u64>,
    permission: &ModulePermission,
) -> (r: Result<bool, ConfigError>)
    ensures
        is_admin ==> (r matches Ok(b) && b),
        !is_admin ==> (match load {
            Ok(config) => r matches Ok(b) && b == (config.spec_granted(
                permission.0@,
                actor,
                permission.1@,
            ) || exists|k: int|
                0 <= k < roles@.len() && config.spec_granted(
                    permission.0@,
                    #[trigger] roles@[k],
                    permission.1@,
                )),
            Err(e) => r matches Err(e2) && e2 == e,
        }),
{
    if is_admin {
        return Ok(true);
    }
    match load {
        Ok(config) => Ok(manager.has_permission(&config, actor, roles, permission)),
        Err(e) => Err(e),
    }
}

/// The user-visible denial notice: exactly one notice is produced for a
/// denied check, and none for an allowed one.
pub fn denial_notice(allowed: bool) -> (r: Option<String>)
    ensures
        allowed ==> r is None,
        !allowed ==> (r matches Some(s) && s@
            == "You do not have permission to use this command."@),
{
    if allowed {
        None
    } else {
        Some(String::from_str("You do not have permission to use this command."))
    }
}

} // verus!
