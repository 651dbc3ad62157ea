//! The engine: answers access requests from the policies of a storage.
use vstd::prelude::*;

use crate::engine::actor::Actor;
use crate::engine::permissions::Permissions;
use crate::engine::resource::Resource;
use crate::errors::Error;
use crate::language::environment::{default_env_name, env_policies, Environment, DEFAULT_ENV_IDENTIFIER};
use crate::language::policy::{lemma_view_grants, policy_view, view_grants, Permission, Policy, PolicyView};
use crate::language::storage::{EnvMap, Storage};
use crate::text::{join_strings, join_with, seq_has, strings_view};

verus! {

/// A request for every permission granted to an actor on a resource.
#[derive(Debug)]
pub struct AuthorizeRequest<'a> {
    pub env_name: Option<&'a str>,
    pub actor: &'a Actor,
    pub resource: &'a Resource,
}

/// A request to know whether an actor has one permission on a resource.
#[derive(Debug)]
pub struct FindPermissionRequest<'a> {
    pub env_name: Option<&'a str>,
    pub actor: &'a Actor,
    pub resource: &'a Resource,
    pub permission: String,
}

/// A request to know whether an actor has all of several permissions on a resource.
#[derive(Debug)]
pub struct FindPermissionsRequest<'a> {
    pub env_name: Option<&'a str>,
    pub actor: &'a Actor,
    pub resource: &'a Resource,
    pub permissions: Vec<String>,
}

/// The permissions that the policies grant, policy by policy in order.
pub open spec fn granted(ps: Seq<PolicyView>, actor: Actor, res: Resource) -> Seq<Seq<char>>
    decreases ps.len(),
{
    if ps.len() == 0 {
        Seq::empty()
    } else {
        granted(ps.drop_last(), actor, res) + if view_grants(ps.last(), actor, res) {
            ps.last().0
        } else {
            Seq::empty()
        }
    }
}

/// Some policy of the list gives `permission`.
pub open spec fn allowed_in(ps: Seq<PolicyView>, actor: Actor, res: Resource, permission: Seq<char>) -> bool {
    exists|i: int| 0 <= i < ps.len() && seq_has(ps[i].0, permission) && view_grants(#[trigger] ps[i], actor, res)
}

/// The environments that decide on a resource: those of the attributed resource of its type
/// and id if the storage has one, else those of its type.
pub open spec fn target_envs(storage: Storage, res: Resource) -> Option<EnvMap> {
    if res.id is Some && storage.attributed_map().dom().contains((res.type_@, res.id->0@)) {
        Some(storage.attributed_map()[(res.type_@, res.id->0@)])
    } else if storage.resource_map().dom().contains(res.type_@) {
        Some(storage.resource_map()[res.type_@])
    } else {
        None
    }
}

/// What a request ends in.
pub enum Outcome<T> {
    Done(T),
    ResourceNotFound,
    EnvironmentNotFound,
    ActorNotAuthorized,
}

/// The policies of an environment, or none.
pub open spec fn env_or_none(em: EnvMap, name: Seq<char>) -> Seq<PolicyView> {
    if em.dom().contains(name) {
        em[name]
    } else {
        Seq::empty()
    }
}

/// The outcome of an authorization: the permissions of the default environment, then those
/// of the named one.
pub open spec fn authorize_outcome(
    storage: Storage,
    env_name: Option<Seq<char>>,
    actor: Actor,
    res: Resource,
) -> Outcome<Seq<Seq<char>>> {
    match target_envs(storage, res) {
        None => Outcome::ResourceNotFound,
        Some(em) => {
            let from_default = granted(env_or_none(em, default_env_name()), actor, res);
            match env_name {
                Some(n) => if !em.dom().contains(n) {
                    Outcome::EnvironmentNotFound
                } else if (from_default + granted(em[n], actor, res)).len() == 0 {
                    Outcome::ActorNotAuthorized
                } else {
                    Outcome::Done(from_default + granted(em[n], actor, res))
                },
                None => if from_default.len() == 0 {
                    Outcome::ActorNotAuthorized
                } else {
                    Outcome::Done(from_default)
                },
            }
        },
    }
}

/// The outcome of asking for one permission: given by the default environment or by the
/// named one.
pub open spec fn permission_outcome(
    storage: Storage,
    env_name: Option<Seq<char>>,
    actor: Actor,
    res: Resource,
    permission: Seq<char>,
) -> Outcome<bool> {
    match target_envs(storage, res) {
        None => Outcome::ResourceNotFound,
        Some(em) => {
            let in_default = allowed_in(env_or_none(em, default_env_name()), actor, res, permission);
            match env_name {
                Some(n) => if !em.dom().contains(n) {
                    Outcome::EnvironmentNotFound
                } else {
                    Outcome::Done(in_default || allowed_in(em[n], actor, res, permission))
                },
                None => Outcome::Done(in_default),
            }
        },
    }
}

/// The result matches the outcome; the errors carry the name they are about.
pub open spec fn result_matches<T, V>(
    r: Result<T, Error>,
    o: Outcome<V>,
    value: spec_fn(T) -> V,
    res: Resource,
    env_name: Option<Seq<char>>,
    actor: Actor,
) -> bool {
    match o {
        Outcome::Done(v) => r matches Ok(t) && value(t) == v,
        Outcome::ResourceNotFound => r matches Err(Error::ResourceNotFound(s)) && s@ == res.type_@,
        Outcome::EnvironmentNotFound => r matches Err(Error::EnvironmentNotFound(s)) && s@ == env_name->0,
        Outcome::ActorNotAuthorized => r matches Err(Error::ActorNotAuthorized(s)) && s@ == actor.id@,
    }
}

pub open spec fn opt_str_view(s: Option<&str>) -> Option<Seq<char>> {
    match s {
        Some(x) => Some(x@),
        None => None,
    }
}

/// Answers access requests from the policies of a storage.
#[derive(Debug, Clone)]
pub struct Engine<'s> {
    pub storage: &'s Storage,
}

impl<'s> Engine<'s> {
    pub open spec fn storage_of(&self) -> Storage {
        *self.storage
    }

    pub fn new(storage: &'s Storage) -> (r: Engine<'s>)
        ensures
            r.storage_of() == *storage,
    {
        Engine { storage }
    }

    /// Adds the permissions that the policies of an environment grant.
    fn append_permissions(permissions: &mut Permissions, environment: &Environment, actor: &Actor, resource: &Resource)
        ensures
            final(permissions)@ == old(permissions)@ + granted(env_policies(*environment), *actor, *resource),
    {
        let n = environment.policies.len();
        let mut i: usize = 0;
        let ghost start = permissions@;
        let ghost ps = env_policies(*environment);
        proof {
            assert(ps.take(0) =~= Seq::<PolicyView>::empty());
        }
        while i < n
            invariant
                n == environment.policies.len(),
                ps == env_policies(*environment),
                0 <= i <= n,
                permissions@ == start + granted(ps.take(i as int), *actor, *resource),
            decreases n - i,
        {
            let policy: &Policy = &environment.policies[i];
            proof {
                assert(ps.take(i + 1).drop_last() == ps.take(i as int));
                assert(ps.take(i + 1).last() == policy_view(*policy));
                lemma_view_grants(*policy, *actor, *resource);
            }
            match policy.apply(actor, resource) {
                Some(inner) => {
                    permissions.append_permissions(inner);
                    proof {
                        assert(permissions@ =~= start + granted(ps.take(i + 1), *actor, *resource));
                    }
                },
                None => {
                    proof {
                        assert(granted(ps.take(i + 1), *actor, *resource) =~= granted(ps.take(i as int), *actor, *resource));
                    }
                },
            }
            i = i + 1;
        }
        proof {
            assert(ps.take(n as int) == ps);
        }
    }

    /// Whether some policy of an environment gives `permission` to the actor.
    fn is_permission_in_env(environment: &Environment, actor: &Actor, resource: &Resource, permission: &Permission) -> (r: bool)
        ensures
            r == allowed_in(env_policies(*environment), *actor, *resource, permission.0@),
    {
        let n = environment.policies.len();
        let mut i: usize = 0;
        while i < n
            invariant
                n == environment.policies.len(),
                0 <= i <= n,
                forall|j: int| 0 <= j < i ==> !(seq_has((#[trigger] env_policies(*environment)[j]).0, permission.0@)
                    && view_grants(env_policies(*environment)[j], *actor, *resource)),
            decreases n - i,
        {
            let policy: &Policy = &environment.policies[i];
            assert(env_policies(*environment)[i as int] == policy_view(*policy));
            proof {
                lemma_view_grants(*policy, *actor, *resource);
            }
            if policy.actor_has_permission(actor, resource, permission) {
                assert(seq_has(env_policies(*environment)[i as int].0, permission.0@)
                    && view_grants(env_policies(*environment)[i as int], *actor, *resource));
                return true;
            }
            i = i + 1;
        }
        false
    }

    /// The environments that decide on the resource.
    fn find_target<'a>(&'a self, resource: &Resource) -> (r: Option<&'a Vec<Environment>>)
        requires
            self.storage.wf(),
        ensures
            match target_envs(*self.storage, *resource) {
                Some(em) => r matches Some(envs) && crate::language::resource::envs_wf(envs@)
                    && crate::language::resource::envs_map(envs@) == em,
                None => r is None,
            },
    {
        if let Some(id) = &resource.id {
            if let Some(attr) = self.storage.get_attributed_resource(resource.type_.as_str(), id.as_str()) {
                return Some(&attr.environments);
            }
        }
        match self.storage.get_resource(resource.type_.as_str()) {
            Some(res) => Some(&res.environments),
            None => None,
        }
    }

    /// The environment named `name` among the environments of a resource.
    fn env_in<'a>(envs: &'a Vec<Environment>, name: &str) -> (r: Option<&'a Environment>)
        requires
            crate::language::resource::envs_wf(envs@),
        ensures
            r matches Some(e) ==> crate::language::resource::envs_map(envs@).dom().contains(name@)
                && env_policies(*e) == crate::language::resource::envs_map(envs@)[name@],
            r is None ==> !crate::language::resource::envs_map(envs@).dom().contains(name@),
    {
        crate::language::resource::lookup_env(envs, &name.to_owned())
    }

    /// Returns the granted permissions if the actor is authorized.
    ///
    /// Fails if the actor gets no permission, if the storage has no such resource, or if the
    /// named environment does not exist for the resource.
    pub fn authorize(&self, request: AuthorizeRequest) -> (r: Result<Permissions, Error>)
        requires
            self.storage.wf(),
        ensures
            result_matches(
                r,
                authorize_outcome(*self.storage, opt_str_view(request.env_name), *request.actor, *request.resource),
                |p: Permissions| p@,
                *request.resource,
                opt_str_view(request.env_name),
                *request.actor,
            ),
    {
        proof {
            reveal_strlit("DEFAULT");
        }
        let actor = request.actor;
        let resource = request.resource;
        let envs = match self.find_target(resource) {
            Some(envs) => envs,
            None => {
                return Err(Error::ResourceNotFound(resource.type_.clone()));
            },
        };
        let mut permissions = Permissions::new();
        if let Some(default_env) = Self::env_in(envs, DEFAULT_ENV_IDENTIFIER) {
            Self::append_permissions(&mut permissions, default_env, actor, resource);
        } else {
            assert(granted(Seq::<PolicyView>::empty(), *actor, *resource) =~= Seq::<Seq<char>>::empty());
        }
        if let Some(env_name) = request.env_name {
            match Self::env_in(envs, env_name) {
                Some(env) => {
                    Self::append_permissions(&mut permissions, env, actor, resource);
                },
                None => {
                    return Err(Error::EnvironmentNotFound(env_name.to_owned()));
                },
            }
        }
        if permissions.is_empty() {
            return Err(Error::ActorNotAuthorized(actor.id.clone()));
        }
        Ok(permissions)
    }

    /// Whether the actor has `permission` on the resource: from the default environment, or
    /// from the named one.
    ///
    /// Fails if the storage has no such resource, or if the named environment does not exist
    /// for the resource.
    pub fn actor_has_permission(&self, request: FindPermissionRequest) -> (r: Result<bool, Error>)
        requires
            self.storage.wf(),
        ensures
            result_matches(
                r,
                permission_outcome(
                    *self.storage,
                    opt_str_view(request.env_name),
                    *request.actor,
                    *request.resource,
                    request.permission@,
                ),
                |b: bool| b,
                *request.resource,
                opt_str_view(request.env_name),
                *request.actor,
            ),
    {
        self.has_permission(request.env_name, request.actor, request.resource, &request.permission)
    }

    fn has_permission(&self, env_name: Option<&str>, actor: &Actor, resource: &Resource, permission: &String) -> (r: Result<bool, Error>)
        requires
            self.storage.wf(),
        ensures
            result_matches(
                r,
                permission_outcome(*self.storage, opt_str_view(env_name), *actor, *resource, permission@),
                |b: bool| b,
                *resource,
                opt_str_view(env_name),
                *actor,
            ),
    {
        proof {
            reveal_strlit("DEFAULT");
        }
        let permission = Permission(permission.clone());
        let envs = match self.find_target(resource) {
            Some(envs) => envs,
            None => {
                return Err(Error::ResourceNotFound(resource.type_.clone()));
            },
        };
        let in_default = match Self::env_in(envs, DEFAULT_ENV_IDENTIFIER) {
            Some(default_env) => Self::is_permission_in_env(default_env, actor, resource, &permission),
            None => false,
        };
        match env_name {
            Some(name) => match Self::env_in(envs, name) {
                Some(env) => {
                    if in_default {
                        Ok(true)
                    } else {
                        Ok(Self::is_permission_in_env(env, actor, resource, &permission))
                    }
                },
                None => Err(Error::EnvironmentNotFound(name.to_owned())),
            },
            None => Ok(in_default),
        }
    }

    /// Whether the actor has every permission of the list on the resource; `false` as soon as
    /// one is missing.
    ///
    /// Fails if the storage has no such resource, or if the named environment does not exist
    /// for the resource.
    pub fn actor_has_permissions(&self, request: FindPermissionsRequest) -> (r: Result<bool, Error>)
        requires
            self.storage.wf(),
        ensures
            result_matches(
                r,
                permissions_outcome(
                    *self.storage,
                    opt_str_view(request.env_name),
                    *request.actor,
                    *request.resource,
                    request.permissions@.map_values(|p: String| p@),
                ),
                |b: bool| b,
                *request.resource,
                opt_str_view(request.env_name),
                *request.actor,
            ),
    {
        let n = request.permissions.len();
        let ghost wanted = request.permissions@.map_values(|p: String| p@);
        let ghost env = opt_str_view(request.env_name);
        if n == 0 {
            // The outcome of an empty list depends only on where the resource and the
            // environment are found: asking for any name tells it.
            let probe = self.has_permission(request.env_name, request.actor, request.resource, &String::new());
            return match probe {
                Ok(_) => Ok(true),
                Err(e) => Err(e),
            };
        }
        let mut i: usize = 0;
        while i < n
            invariant
                self.storage.wf(),
                n == request.permissions.len(),
                wanted == request.permissions@.map_values(|p: String| p@),
                env == opt_str_view(request.env_name),
                0 < n,
                0 <= i <= n,
                forall|j: int| 0 <= j < i ==> permission_outcome(*self.storage, env, *request.actor, *request.resource, #[trigger] wanted[j]) == Outcome::Done(true),
            decreases n - i,
        {
            let r = self.has_permission(request.env_name, request.actor, request.resource, &request.permissions[i]);
            match r {
                Ok(true) => {},
                Ok(false) => {
                    proof {
                        lemma_permissions_outcome_false(*self.storage, env, *request.actor, *request.resource, wanted, i as int);
                    }
                    return Ok(false);
                },
                Err(e) => {
                    proof {
                        lemma_permissions_outcome_first(*self.storage, env, *request.actor, *request.resource, wanted, i as int);
                    }
                    return Err(e);
                },
            }
            i = i + 1;
        }
        proof {
            lemma_permissions_outcome_all(*self.storage, env, *request.actor, *request.resource, wanted);
        }
        Ok(true)
    }

    /// Succeeds when the actor has the permission; fails with `PermissionNotFound` when it does
    /// not, and with the error of [`Engine::actor_has_permission`] when that fails.
    pub fn find_permission(&self, request: FindPermissionRequest) -> (r: Result<(), Error>)
        requires
            self.storage.wf(),
        ensures
            match permission_outcome(
                *self.storage,
                opt_str_view(request.env_name),
                *request.actor,
                *request.resource,
                request.permission@,
            ) {
                Outcome::Done(true) => r is Ok,
                Outcome::Done(false) => r matches Err(Error::PermissionNotFound(s)) && s@ == request.permission@,
                o => result_matches(r, o, |u: ()| false, *request.resource, opt_str_view(request.env_name), *request.actor),
            },
    {
        let permission = request.permission.clone();
        match self.has_permission(request.env_name, request.actor, request.resource, &permission) {
            Ok(true) => Ok(()),
            Ok(false) => Err(Error::PermissionNotFound(permission)),
            Err(e) => Err(e),
        }
    }

    /// Succeeds when the actor has every permission of the list; fails with
    /// `PermissionNotFound`, naming the whole list separated by commas, when it lacks one,
    /// and with the error of
    /// [`Engine::actor_has_permissions`] when that fails.
    pub fn find_permissions(&self, request: FindPermissionsRequest) -> (r: Result<(), Error>)
        requires
            self.storage.wf(),
        ensures
            match permissions_outcome(
                *self.storage,
                opt_str_view(request.env_name),
                *request.actor,
                *request.resource,
                request.permissions@.map_values(|p: String| p@),
            ) {
                Outcome::Done(true) => r is Ok,
                Outcome::Done(false) => r matches Err(Error::PermissionNotFound(s)) && s@ == join_with(
                    strings_view(request.permissions@),
                    ", "@,
                ),
                o => result_matches(r, o, |u: ()| false, *request.resource, opt_str_view(request.env_name), *request.actor),
            },
    {
        let names = crate::text::clone_strings(&request.permissions);
        let req = FindPermissionsRequest {
            env_name: request.env_name,
            actor: request.actor,
            resource: request.resource,
            permissions: request.permissions,
        };
        match self.actor_has_permissions(req) {
            Ok(true) => Ok(()),
            Ok(false) => Err(Error::PermissionNotFound(join_names(&names))),
            Err(e) => Err(e),
        }
    }

    /// The number of policies in the storage.
    pub fn policies_len(&self) -> (r: usize)
        requires
            self.storage.total() <= usize::MAX,
        ensures
            r == self.storage.total(),
    {
        self.storage.policies_len()
    }
}

/// The names of a list, separated by commas.
fn join_names(names: &Vec<String>) -> (r: String)
    ensures
        r@ == join_with(strings_view(names@), ", "@),
{
    join_strings(names, ", ")
}

/// The outcome of asking for several permissions: all must be given; the first that cannot
/// be asked decides the error.
pub open spec fn permissions_outcome(
    storage: Storage,
    env_name: Option<Seq<char>>,
    actor: Actor,
    res: Resource,
    wanted: Seq<Seq<char>>,
) -> Outcome<bool> {
    let probe = permission_outcome(storage, env_name, actor, res, Seq::empty());
    match probe {
        Outcome::Done(_) => Outcome::Done(
            forall|j: int| 0 <= j < wanted.len() ==> permission_outcome(storage, env_name, actor, res, #[trigger] wanted[j])
                == Outcome::<bool>::Done(true),
        ),
        o => o,
    }
}

proof fn lemma_permissions_outcome_false(
    storage: Storage,
    env: Option<Seq<char>>,
    actor: Actor,
    res: Resource,
    wanted: Seq<Seq<char>>,
    i: int,
)
    requires
        0 <= i < wanted.len(),
        permission_outcome(storage, env, actor, res, wanted[i]) == Outcome::<bool>::Done(false),
    ensures
        permissions_outcome(storage, env, actor, res, wanted) == Outcome::<bool>::Done(false),
{
}

proof fn lemma_permissions_outcome_first(
    storage: Storage,
    env: Option<Seq<char>>,
    actor: Actor,
    res: Resource,
    wanted: Seq<Seq<char>>,
    i: int,
)
    requires
        0 <= i < wanted.len(),
        !(permission_outcome(storage, env, actor, res, wanted[i]) is Done),
    ensures
        permissions_outcome(storage, env, actor, res, wanted) == permission_outcome(storage, env, actor, res, wanted[i]),
{
}

proof fn lemma_permissions_outcome_all(
    storage: Storage,
    env: Option<Seq<char>>,
    actor: Actor,
    res: Resource,
    wanted: Seq<Seq<char>>,
)
    requires
        wanted.len() > 0,
        forall|j: int| 0 <= j < wanted.len() ==> permission_outcome(storage, env, actor, res, #[trigger] wanted[j])
            == Outcome::<bool>::Done(true),
    ensures
        permissions_outcome(storage, env, actor, res, wanted) == Outcome::<bool>::Done(true),
{
    assert(permission_outcome(storage, env, actor, res, wanted[0]) == Outcome::<bool>::Done(true));
}

/// A permission is among those the policies grant exactly when one of the policies that
/// grant gives it.
pub proof fn lemma_granted_has(ps: Seq<PolicyView>, actor: Actor, res: Resource, p: Seq<char>)
    ensures
        seq_has(granted(ps, actor, res), p) <==> allowed_in(ps, actor, res, p),
    decreases ps.len(),
{
    if ps.len() > 0 {
        let init = ps.drop_last();
        lemma_granted_has(init, actor, res, p);
        let before = granted(init, actor, res);
        let last = if view_grants(ps.last(), actor, res) {
            ps.last().0
        } else {
            Seq::empty()
        };
        lemma_seq_has_concat(before, last, p);
        if allowed_in(ps, actor, res, p) {
            let i = choose|i: int| 0 <= i < ps.len() && seq_has(ps[i].0, p) && view_grants(#[trigger] ps[i], actor, res);
            if i < ps.len() - 1 {
                assert(init[i] == ps[i]);
            }
        }
        if allowed_in(init, actor, res, p) {
            let i = choose|i: int| 0 <= i < init.len() && seq_has(init[i].0, p) && view_grants(#[trigger] init[i], actor, res);
            assert(ps[i] == init[i]);
        }
    }
}

/// A string is in a concatenation exactly when it is in one of its parts.
pub proof fn lemma_seq_has_concat(a: Seq<Seq<char>>, b: Seq<Seq<char>>, p: Seq<char>)
    ensures
        seq_has(a + b, p) <==> seq_has(a, p) || seq_has(b, p),
{
    if seq_has(a + b, p) {
        let i = choose|i: int| 0 <= i < (a + b).len() && (a + b)[i] == p;
        if i >= a.len() {
            assert(b[i - a.len()] == p);
        }
    }
    if seq_has(a, p) {
        let i = choose|i: int| 0 <= i < a.len() && a[i] == p;
        assert((a + b)[i] == p);
    }
    if seq_has(b, p) {
        let i = choose|i: int| 0 <= i < b.len() && b[i] == p;
        assert((a + b)[a.len() + i] == p);
    }
}

/// Naming an environment that the resource has keeps what the default environment grants:
/// the authorization grants first everything that it grants with no environment named, then
/// what the named environment grants.
pub proof fn lemma_named_env_keeps_default(storage: Storage, n: Seq<char>, actor: Actor, res: Resource)
    requires
        target_envs(storage, res) matches Some(em) && em.dom().contains(n),
    ensures
        authorize_outcome(storage, None, actor, res) matches Outcome::Done(p) ==> (authorize_outcome(
            storage,
            Some(n),
            actor,
            res,
        ) matches Outcome::Done(q) && q == p + granted(target_envs(storage, res)->0[n], actor, res)),
        authorize_outcome(storage, None, actor, res) is ActorNotAuthorized ==> (granted(
            target_envs(storage, res)->0[n],
            actor,
            res,
        ).len() == 0 <==> authorize_outcome(storage, Some(n), actor, res) is ActorNotAuthorized),
        authorize_outcome(storage, None, actor, res) is ActorNotAuthorized && granted(
            target_envs(storage, res)->0[n],
            actor,
            res,
        ).len() > 0 ==> authorize_outcome(storage, Some(n), actor, res) == Outcome::Done(
            granted(target_envs(storage, res)->0[n], actor, res),
        ),
{
    let em = target_envs(storage, res)->0;
    let d = granted(env_or_none(em, default_env_name()), actor, res);
    if d.len() == 0 {
        assert(d + granted(em[n], actor, res) =~= granted(em[n], actor, res));
    }
}

/// A permission that the actor has with no environment named, it also has when an
/// environment of the resource is named.
pub proof fn lemma_named_env_keeps_permission(
    storage: Storage,
    n: Seq<char>,
    actor: Actor,
    res: Resource,
    permission: Seq<char>,
)
    requires
        target_envs(storage, res) matches Some(em) && em.dom().contains(n),
        permission_outcome(storage, None, actor, res, permission) == Outcome::Done(true),
    ensures
        permission_outcome(storage, Some(n), actor, res, permission) == Outcome::Done(true),
{
}

/// Asking whether an actor has a permission agrees with authorizing it: where the resource
/// and the environment are found, the answer is yes exactly when the authorization grants
/// the permission, and no when the actor is not authorized at all; where they are not
/// found, both requests fail in the same way.
pub proof fn lemma_permission_iff_authorized(
    storage: Storage,
    env_name: Option<Seq<char>>,
    actor: Actor,
    res: Resource,
    p: Seq<char>,
)
    ensures
        match (permission_outcome(storage, env_name, actor, res, p), authorize_outcome(storage, env_name, actor, res)) {
            (Outcome::Done(b), Outcome::Done(perms)) => b == seq_has(perms, p),
            (Outcome::Done(b), Outcome::ActorNotAuthorized) => !b,
            (Outcome::ResourceNotFound, o) => o is ResourceNotFound,
            (Outcome::EnvironmentNotFound, o) => o is EnvironmentNotFound,
            _ => false,
        },
{
    match target_envs(storage, res) {
        None => {},
        Some(em) => {
            let d = env_or_none(em, default_env_name());
            lemma_granted_has(d, actor, res, p);
            match env_name {
                Some(n) => {
                    if em.dom().contains(n) {
                        lemma_granted_has(em[n], actor, res, p);
                        lemma_seq_has_concat(granted(d, actor, res), granted(em[n], actor, res), p);
                        if (granted(d, actor, res) + granted(em[n], actor, res)).len() == 0 {
                            assert(!seq_has(granted(d, actor, res) + granted(em[n], actor, res), p));
                        }
                    }
                },
                None => {
                    if granted(d, actor, res).len() == 0 {
                        assert(!seq_has(granted(d, actor, res), p));
                    }
                },
            }
        },
    }
}

} // verus!
