//! Granting authorizations: the policies of a resource are checked against an actor.
use vstd::prelude::*;

use crate::actor::Actor;
use crate::authorization::{
    clone_permissions, failure, now_timestamp, opt_text, permissions_view, Authorization, AuthorizationMode,
    ErrorKind, MinosError, PermissionV, Permission, Policy, PolicyV,
};
use crate::non_empty::{contains, texts, NonEmptyString};
use crate::resources::Resource;

verus! {

/// A failure: its kind and message.
pub type Failure = (ErrorKind, Seq<char>);

pub open spec fn no_groups() -> Failure {
    (ErrorKind::IncompatibleAuthPolicy, "The policy haven't groups defined"@)
}

/// The single-group check: the actor must belong to one of the policy's groups.
pub open spec fn single_group_failure(groups: Option<Seq<Seq<char>>>, actor_groups: Seq<Seq<char>>) -> Option<Failure> {
    match groups {
        None => Some(no_groups()),
        Some(gs) => if exists|i: int| 0 <= i < gs.len() && actor_groups.contains(#[trigger] gs[i]) {
            None
        } else {
            Some((ErrorKind::Authorization, "The actor is not in the correct group"@))
        },
    }
}

/// The multi-group check: the policy must list groups, and the actor must belong to all.
pub open spec fn multi_group_failure(groups: Option<Seq<Seq<char>>>, actor_groups: Seq<Seq<char>>) -> Option<Failure> {
    match groups {
        None => Some(no_groups()),
        Some(gs) => if gs.len() == 0 {
            Some(no_groups())
        } else if forall|i: int| 0 <= i < gs.len() ==> actor_groups.contains(#[trigger] gs[i]) {
            None
        } else {
            Some((ErrorKind::Authorization, "The actor is not in all required groups"@))
        },
    }
}

/// The owner check: the resource must have an owner, and it must be the actor.
pub open spec fn owner_failure(owner: Option<Seq<char>>, actor_id: Seq<char>) -> Option<Failure> {
    match owner {
        None => Some((ErrorKind::IncompatibleAuthPolicy, "The resource haven't an owner"@)),
        Some(o) => if o != actor_id {
            Some((ErrorKind::Authorization, "The actor is not the owner"@))
        } else {
            None
        },
    }
}

/// The check that a policy's mode makes.
pub open spec fn mode_failure(
    mode: AuthorizationMode,
    groups: Option<Seq<Seq<char>>>,
    owner: Option<Seq<char>>,
    actor_id: Seq<char>,
    actor_groups: Seq<Seq<char>>,
) -> Option<Failure> {
    match mode {
        AuthorizationMode::Owner => owner_failure(owner, actor_id),
        AuthorizationMode::SingleGroup => single_group_failure(groups, actor_groups),
        AuthorizationMode::MultiGroup => multi_group_failure(groups, actor_groups),
        AuthorizationMode::OwnerSingleGroup => match owner_failure(owner, actor_id) {
            Some(f) => Some(f),
            None => single_group_failure(groups, actor_groups),
        },
        AuthorizationMode::OwnerMultiGroup => match owner_failure(owner, actor_id) {
            Some(f) => Some(f),
            None => multi_group_failure(groups, actor_groups),
        },
    }
}

/// The policies of a resource, as views.
pub open spec fn policies_view(v: Seq<Policy>) -> Seq<PolicyV> {
    v.map_values(|p: Policy| p@)
}

/// What a resource tells about itself: its id, owner, policies and type.
#[derive(Debug)]
pub struct ResourceFacts {
    pub id: NonEmptyString,
    pub owner: Option<NonEmptyString>,
    pub policies: Vec<Policy>,
    pub resource_type: Option<NonEmptyString>,
}

/// What an actor tells about itself: its id and groups.
#[derive(Debug)]
pub struct ActorFacts {
    pub id: NonEmptyString,
    pub groups: Vec<NonEmptyString>,
}

/// Why a policy grants nothing to an actor over a resource: the policy is not one of the
/// resource's, or its mode's check fails.
pub open spec fn policy_failure(r: ResourceFacts, p: PolicyV, a: ActorFacts) -> Option<Failure> {
    if !policies_view(r.policies@).contains(p) {
        Some((ErrorKind::IncompatibleAuthPolicy, "The policy not corresponds to resource type"@))
    } else {
        mode_failure(p.1, p.2, opt_text(r.owner), a.id@, texts(a.groups@))
    }
}

/// The expiration of an authorization that lasts `seconds` from `now`.
pub open spec fn expiration_of(now: i64, seconds: u64) -> u64 {
    now.wrapping_add(seconds as i64) as u64
}

/// An authorization of `a` over `r` with `permissions`, that expires at `expiration`.
pub open spec fn grants(auth: Authorization, r: ResourceFacts, a: ActorFacts, permissions: Seq<PermissionV>, expiration: u64) -> bool {
    &&& permissions_view(auth.permissions@) == permissions
    &&& auth.agent_id@ == a.id@
    &&& auth.resource_id@ == r.id@
    &&& opt_text(auth.resource_type) == opt_text(r.resource_type)
    &&& auth.expiration == expiration
}

/// What applying every policy of a resource in turn gives: the first failure of a policy
/// that does not apply to the resource, or else the permissions of the policies that grant
/// some, one after the other, and the shortest of their durations.
pub open spec fn collect_grants(r: ResourceFacts, ps: Seq<PolicyV>, a: ActorFacts) -> Result<(Seq<PermissionV>, Option<u64>), Failure>
    decreases ps.len(),
{
    if ps.len() == 0 {
        Ok((Seq::empty(), None))
    } else {
        match collect_grants(r, ps.drop_last(), a) {
            Err(f) => Err(f),
            Ok((perms, shortest)) => {
                let p = ps.last();
                match policy_failure(r, p, a) {
                    None => Ok((
                        perms + p.3,
                        match shortest {
                            Some(d) => Some(if p.0 < d { p.0 } else { d }),
                            None => Some(p.0),
                        },
                    )),
                    Some(f) => if f.0 == ErrorKind::IncompatibleAuthPolicy {
                        Err(f)
                    } else {
                        Ok((perms, shortest))
                    },
                }
            },
        }
    }
}

/// What [`build_by_policy_at`] gives for the resource facts `f`, the policy `p`, the actor
/// facts `w` and the time `now`: the policy's failure, or its permissions until its duration
/// from `now`.
pub open spec fn by_policy_outcome(r: Result<Authorization, MinosError>, f: ResourceFacts, p: PolicyV, w: ActorFacts, now: i64) -> bool {
    match policy_failure(f, p, w) {
        Some(x) => r matches Err(e) && failure(e) == x,
        None => r matches Ok(auth) && grants(auth, f, w, p.3, expiration_of(now, p.0)),
    }
}

/// What [`build_at`] gives for the resource facts `f`, the actor facts `w` and the time
/// `now`: the first failure of a policy that does not apply, `Not authorized` when no policy
/// grants anything, or else the permissions of all the granting policies until the shortest
/// of their durations from `now`.
pub open spec fn build_outcome(r: Result<Authorization, MinosError>, f: ResourceFacts, w: ActorFacts, now: i64) -> bool {
    match collect_grants(f, policies_view(f.policies@), w) {
        Err(x) => r matches Err(e) && failure(e) == x,
        Ok((perms, None)) => r matches Err(e) && failure(e) == (ErrorKind::Authorization, "Not authorized"@),
        Ok((perms, Some(d))) => r matches Ok(auth) && grants(auth, f, w, perms, expiration_of(now, d)),
    }
}

fn fail(kind: ErrorKind, message: &str) -> (r: Result<(), MinosError>)
    ensures
        r matches Err(e) && failure(e) == (kind, message@),
{
    Err(MinosError::new(kind, message))
}

/// The outcome of a check that fails with `f` where there is one.
pub open spec fn checked(r: Result<(), MinosError>, f: Option<Failure>) -> bool {
    match f {
        Some(x) => r matches Err(e) && failure(e) == x,
        None => r is Ok,
    }
}

/// Checks that the actor belongs to one of the groups of the policy.
pub fn single_group_check(actor_groups: &Vec<NonEmptyString>, policy: &Policy) -> (r: Result<(), MinosError>)
    ensures
        checked(r, single_group_failure(policy@.2, texts(actor_groups@))),
{
    proof {
        reveal_strlit("The policy haven't groups defined");
        reveal_strlit("The actor is not in the correct group");
    }
    let groups = match &policy.groups_ids {
        Some(g) => g,
        None => {
            return fail(ErrorKind::IncompatibleAuthPolicy, "The policy haven't groups defined");
        },
    };
    let ghost gs = texts(groups@);
    let n = groups.len();
    let mut i: usize = 0;
    while i < n
        invariant
            n == groups.len(),
            0 <= i <= n,
            gs == texts(groups@),
            policy@.2 == Some(gs),
            forall|j: int| 0 <= j < i ==> !texts(actor_groups@).contains(#[trigger] gs[j]),
        decreases n - i,
    {
        if contains(actor_groups, &groups[i]) {
            proof {
                assert(gs[i as int] == groups@[i as int]@);
                assert(texts(actor_groups@).contains(gs[i as int]));
            }
            return Ok(());
        }
        proof {
            assert(gs[i as int] == groups@[i as int]@);
        }
        i = i + 1;
    }
    fail(ErrorKind::Authorization, "The actor is not in the correct group")
}

/// Checks that the policy lists groups and that the actor belongs to all of them.
pub fn multi_group_check(actor_groups: &Vec<NonEmptyString>, policy: &Policy) -> (r: Result<(), MinosError>)
    ensures
        checked(r, multi_group_failure(policy@.2, texts(actor_groups@))),
{
    proof {
        reveal_strlit("The policy haven't groups defined");
        reveal_strlit("The actor is not in all required groups");
    }
    let groups = match &policy.groups_ids {
        Some(g) => g,
        None => {
            return fail(ErrorKind::IncompatibleAuthPolicy, "The policy haven't groups defined");
        },
    };
    if groups.len() == 0 {
        return fail(ErrorKind::IncompatibleAuthPolicy, "The policy haven't groups defined");
    }
    let ghost gs = texts(groups@);
    let n = groups.len();
    let mut i: usize = 0;
    while i < n
        invariant
            n == groups.len(),
            0 <= i <= n,
            gs == texts(groups@),
            policy@.2 == Some(gs),
            forall|j: int| 0 <= j < i ==> texts(actor_groups@).contains(#[trigger] gs[j]),
        decreases n - i,
    {
        proof {
            assert(gs[i as int] == groups@[i as int]@);
        }
        if !contains(actor_groups, &groups[i]) {
            proof {
                assert(!texts(actor_groups@).contains(gs[i as int]));
            }
            return fail(ErrorKind::Authorization, "The actor is not in all required groups");
        }
        i = i + 1;
    }
    Ok(())
}

/// Checks that the resource has an owner and that it is the actor.
pub fn by_owner_check(owner: &Option<NonEmptyString>, actor_id: &NonEmptyString) -> (r: Result<(), MinosError>)
    ensures
        checked(r, owner_failure(opt_text(*owner), actor_id@)),
{
    proof {
        reveal_strlit("The resource haven't an owner");
        reveal_strlit("The actor is not the owner");
    }
    match owner {
        None => fail(ErrorKind::IncompatibleAuthPolicy, "The resource haven't an owner"),
        Some(o) => if !o.same(actor_id) {
            fail(ErrorKind::Authorization, "The actor is not the owner")
        } else {
            Ok(())
        },
    }
}

/// Checks the actor as the mode of the policy says.
pub fn mode_check(owner: &Option<NonEmptyString>, actor: &ActorFacts, policy: &Policy) -> (r: Result<(), MinosError>)
    ensures
        checked(r, mode_failure(policy.auth_mode, policy@.2, opt_text(*owner), actor.id@, texts(actor.groups@))),
{
    match policy.auth_mode {
        AuthorizationMode::Owner => by_owner_check(owner, &actor.id),
        AuthorizationMode::SingleGroup => single_group_check(&actor.groups, policy),
        AuthorizationMode::MultiGroup => multi_group_check(&actor.groups, policy),
        AuthorizationMode::OwnerSingleGroup => {
            by_owner_check(owner, &actor.id)?;
            single_group_check(&actor.groups, policy)
        },
        AuthorizationMode::OwnerMultiGroup => {
            by_owner_check(owner, &actor.id)?;
            multi_group_check(&actor.groups, policy)
        },
    }
}

/// Checks that the policy is one of the resource's.
pub fn policy_check(policies: &Vec<Policy>, policy: &Policy) -> (r: Result<(), MinosError>)
    ensures
        checked(
            r,
            if policies_view(policies@).contains(policy@) {
                None
            } else {
                Some((ErrorKind::IncompatibleAuthPolicy, "The policy not corresponds to resource type"@))
            },
        ),
{
    proof {
        reveal_strlit("The policy not corresponds to resource type");
    }
    let n = policies.len();
    let mut i: usize = 0;
    while i < n
        invariant
            n == policies.len(),
            0 <= i <= n,
            forall|j: int| 0 <= j < i ==> (#[trigger] policies@[j])@ != policy@,
        decreases n - i,
    {
        if policies[i].same(policy) {
            proof {
                assert(policies_view(policies@)[i as int] == policy@);
            }
            return Ok(());
        }
        i = i + 1;
    }
    proof {
        if policies_view(policies@).contains(policy@) {
            let k = choose|k: int| 0 <= k < policies_view(policies@).len() && policies_view(policies@)[k] == policy@;
            assert(policies@[k]@ == policy@);
        }
    }
    fail(ErrorKind::IncompatibleAuthPolicy, "The policy not corresponds to resource type")
}

/// The expiration of an authorization that lasts `seconds` from `now`, with the sum
/// wrapping around as a 64-bit signed number.
pub fn define_expiration(now: i64, seconds: u64) -> (r: u64)
    ensures
        r == expiration_of(now, seconds),
{
    now.wrapping_add(seconds as i64) as u64
}

fn clone_opt(o: &Option<NonEmptyString>) -> (r: Option<NonEmptyString>)
    ensures
        opt_text(r) == opt_text(*o),
{
    match o {
        Some(s) => Some(s.clone()),
        None => None,
    }
}

/// Grants the permissions of one policy of the resource to the actor, at the time `now`.
///
/// # Errors
/// * [`ErrorKind::IncompatibleAuthPolicy`]: the policy is not one of the resource's, or its
///   mode needs an owner or groups that are missing.
/// * [`ErrorKind::Authorization`]: the actor does not pass the policy's check.
pub fn build_by_policy_at(resource: &ResourceFacts, policy: &Policy, actor: &ActorFacts, now: i64) -> (r: Result<
    Authorization,
    MinosError,
>)
    ensures
        by_policy_outcome(r, *resource, policy@, *actor, now),
{
    match policy_check(&resource.policies, policy) {
        Ok(()) => {},
        Err(e) => {
            return Err(e);
        },
    }
    match mode_check(&resource.owner, actor, policy) {
        Ok(()) => {},
        Err(e) => {
            return Err(e);
        },
    }
    Ok(Authorization {
        permissions: clone_permissions(&policy.permissions),
        agent_id: actor.id.clone(),
        resource_id: resource.id.clone(),
        resource_type: clone_opt(&resource.resource_type),
        expiration: define_expiration(now, policy.duration),
    })
}

/// Grants the actor the permissions of every policy of the resource that it passes, until
/// the shortest of their durations from `now`.
///
/// # Errors
/// * [`ErrorKind::IncompatibleAuthPolicy`]: the first policy, in order, whose mode needs an
///   owner or groups that are missing.
/// * [`ErrorKind::Authorization`], `Not authorized`: the actor passes no policy.
pub fn build_at(resource: &ResourceFacts, actor: &ActorFacts, now: i64) -> (r: Result<Authorization, MinosError>)
    ensures
        build_outcome(r, *resource, *actor, now),
{
    proof {
        reveal_strlit("Not authorized");
    }
    let ghost ps = policies_view(resource.policies@);
    let mut permissions: Vec<Permission> = Vec::new();
    let mut shortest: Option<u64> = None;
    let n = resource.policies.len();
    let mut i: usize = 0;
    proof {
        assert(ps.take(0) =~= Seq::<PolicyV>::empty());
        assert(permissions_view(permissions@) =~= Seq::<PermissionV>::empty());
    }
    while i < n
        invariant
            n == resource.policies.len(),
            ps == policies_view(resource.policies@),
            0 <= i <= n,
            collect_grants(*resource, ps.take(i as int), *actor) == Ok::<(Seq<PermissionV>, Option<u64>), Failure>(
                (permissions_view(permissions@), shortest),
            ),
        decreases n - i,
    {
        let policy = &resource.policies[i];
        proof {
            assert(ps.take(i + 1).drop_last() =~= ps.take(i as int));
            assert(ps.take(i + 1).last() == policy@);
        }
        match build_by_policy_at(resource, policy, actor, now) {
            Ok(auth) => {
                let ghost before = permissions_view(permissions@);
                let mut granted = auth.permissions;
                permissions.append(&mut granted);
                proof {
                    assert(permissions_view(permissions@) =~= before + policy@.3);
                }
                shortest = match shortest {
                    Some(d) => Some(if policy.duration < d { policy.duration } else { d }),
                    None => Some(policy.duration),
                };
            },
            Err(e) => {
                if e.kind == ErrorKind::IncompatibleAuthPolicy {
                    proof {
                        assert(ps.take(n as int).len() >= i + 1);
                        lemma_collect_stops(*resource, ps, *actor, i + 1);
                    }
                    return Err(e);
                }
            },
        }
        i = i + 1;
    }
    proof {
        assert(ps.take(n as int) =~= ps);
    }
    match shortest {
        Some(d) => Ok(Authorization {
            permissions,
            agent_id: actor.id.clone(),
            resource_id: resource.id.clone(),
            resource_type: clone_opt(&resource.resource_type),
            expiration: define_expiration(now, d),
        }),
        None => Err(MinosError::new(ErrorKind::Authorization, "Not authorized")),
    }
}

/// Once a prefix of the policies fails, so do all longer prefixes, with the same failure.
pub proof fn lemma_collect_stops(r: ResourceFacts, ps: Seq<PolicyV>, a: ActorFacts, k: int)
    requires
        0 <= k <= ps.len(),
        collect_grants(r, ps.take(k), a) is Err,
    ensures
        collect_grants(r, ps, a) == collect_grants(r, ps.take(k), a),
    decreases ps.len() - k,
{
    if k < ps.len() {
        assert(ps.take(k + 1).drop_last() =~= ps.take(k));
        lemma_collect_stops(r, ps, a, k + 1);
    } else {
        assert(ps.take(k) =~= ps);
    }
}

/// Applying the policies of a resource fails only on a policy that cannot be applied to it.
pub proof fn lemma_collect_error_kind(r: ResourceFacts, ps: Seq<PolicyV>, a: ActorFacts)
    ensures
        collect_grants(r, ps, a) matches Err(f) ==> f.0 == ErrorKind::IncompatibleAuthPolicy,
    decreases ps.len(),
{
    if ps.len() > 0 {
        lemma_collect_error_kind(r, ps.drop_last(), a);
    }
}

/// A policy of the resource whose mode names the owner passes only when the resource has an
/// owner and it is the actor; one whose mode names a single group, only when the actor is in
/// one of the policy's groups; one whose mode names several groups, only when the policy
/// lists groups and the actor is in each of them.
pub proof fn lemma_mode_requirements(r: ResourceFacts, p: PolicyV, a: ActorFacts)
    requires
        policy_failure(r, p, a) is None,
    ensures
        policies_view(r.policies@).contains(p),
        p.1 is Owner || p.1 is OwnerSingleGroup || p.1 is OwnerMultiGroup ==> opt_text(r.owner) == Some(a.id@),
        p.1 is SingleGroup || p.1 is OwnerSingleGroup ==> (p.2 matches Some(gs) && exists|i: int|
            0 <= i < gs.len() && texts(a.groups@).contains(#[trigger] gs[i])),
        p.1 is MultiGroup || p.1 is OwnerMultiGroup ==> (p.2 matches Some(gs) && gs.len() > 0 && forall|i: int|
            0 <= i < gs.len() ==> texts(a.groups@).contains(#[trigger] gs[i])),
{
}

/// In a mode that names the owner, a policy of the resource fails for an actor that is not
/// the resource's owner with `The actor is not the owner`, whatever the groups say; and for a
/// resource without an owner, it cannot be applied.
pub proof fn lemma_owner_checked_first(r: ResourceFacts, p: PolicyV, a: ActorFacts)
    requires
        policies_view(r.policies@).contains(p),
        p.1 is Owner || p.1 is OwnerSingleGroup || p.1 is OwnerMultiGroup,
    ensures
        r.owner matches Some(o) && o@ != a.id@ ==> policy_failure(r, p, a) == Some(
            (ErrorKind::Authorization, "The actor is not the owner"@),
        ),
        r.owner is None ==> policy_failure(r, p, a) == Some(
            (ErrorKind::IncompatibleAuthPolicy, "The resource haven't an owner"@),
        ),
{
}

/// Whether applying policy `p` of resource `r` to actor `a` fails because the policy cannot
/// be applied to the resource.
pub open spec fn incompatible(r: ResourceFacts, p: PolicyV, a: ActorFacts) -> bool {
    policy_failure(r, p, a) matches Some(f) && f.0 == ErrorKind::IncompatibleAuthPolicy
}

/// The policies of `ps`, in order, that grant their permissions to actor `a` over resource `r`.
pub open spec fn passing_policies(r: ResourceFacts, ps: Seq<PolicyV>, a: ActorFacts) -> Seq<PolicyV> {
    ps.filter(|p: PolicyV| policy_failure(r, p, a) is None)
}

/// The permissions of the policies `qs`, one policy after the other.
pub open spec fn permissions_of(qs: Seq<PolicyV>) -> Seq<PermissionV> {
    qs.map_values(|p: PolicyV| p.3).flatten()
}

/// Whether `shortest` is the shortest duration of the policies `qs`: `None` when there are
/// none, else a duration of one of them that none is shorter than.
pub open spec fn shortest_of(shortest: Option<u64>, qs: Seq<PolicyV>) -> bool {
    match shortest {
        None => qs.len() == 0,
        Some(d) => qs.len() > 0 && (exists|i: int| 0 <= i < qs.len() && (#[trigger] qs[i]).0 == d) && (forall|
            i: int,
        |
            0 <= i < qs.len() ==> d <= (#[trigger] qs[i]).0),
    }
}

/// Applying the policies in turn, when none is incompatible with the resource, grants the
/// permissions of the passing policies, in order, with the shortest of their durations.
proof fn lemma_collect_compatible(r: ResourceFacts, ps: Seq<PolicyV>, a: ActorFacts)
    requires
        forall|j: int| 0 <= j < ps.len() ==> !incompatible(r, #[trigger] ps[j], a),
    ensures
        collect_grants(r, ps, a) matches Ok((perms, shortest)) && perms == passing_policies(r, ps, a).map_values(
            |p: PolicyV| p.3,
        ).flatten_alt() && shortest_of(shortest, passing_policies(r, ps, a)),
    decreases ps.len(),
{
    reveal(Seq::filter);
    let pred = |p: PolicyV| policy_failure(r, p, a) is None;
    if ps.len() == 0 {
        assert(passing_policies(r, ps, a) =~= Seq::<PolicyV>::empty());
        assert(passing_policies(r, ps, a).map_values(|p: PolicyV| p.3) =~= Seq::<Seq<PermissionV>>::empty());
    } else {
        let q = ps.drop_last();
        let p = ps.last();
        assert forall|j: int| 0 <= j < q.len() implies !incompatible(r, #[trigger] q[j], a) by {
            assert(q[j] == ps[j]);
        }
        lemma_collect_compatible(r, q, a);
        assert(!incompatible(r, ps[ps.len() - 1], a));
        let qs = passing_policies(r, q, a);
        assert(ps.filter(pred) == if pred(p) { q.filter(pred).push(p) } else { q.filter(pred) });
        if policy_failure(r, p, a) is None {
            let ns = qs.push(p);
            assert(passing_policies(r, ps, a) == ns);
            assert(ns.map_values(|x: PolicyV| x.3).drop_last() =~= qs.map_values(|x: PolicyV| x.3));
            let (perms, shortest) = collect_grants(r, q, a)->Ok_0;
            let nd = match shortest {
                Some(d) => if p.0 < d { p.0 } else { d },
                None => p.0,
            };
            assert(ns[ns.len() - 1] == p);
            assert forall|i: int| 0 <= i < ns.len() implies nd <= (#[trigger] ns[i]).0 by {
                if i < qs.len() {
                    assert(ns[i] == qs[i]);
                }
            }
            match shortest {
                Some(d) => {
                    if p.0 < d {
                        assert(ns[ns.len() - 1].0 == nd);
                    } else {
                        let i = choose|i: int| 0 <= i < qs.len() && (#[trigger] qs[i]).0 == d;
                        assert(ns[i] == qs[i]);
                    }
                },
                None => {
                    assert(ns[ns.len() - 1].0 == nd);
                },
            }
            assert(shortest_of(Some(nd), ns));
        } else {
            assert(passing_policies(r, ps, a) == qs);
        }
    }
}

/// Applying the policies in turn fails with the failure of the first one that is
/// incompatible with the resource.
proof fn lemma_collect_first_incompatible(r: ResourceFacts, ps: Seq<PolicyV>, a: ActorFacts, k: int)
    requires
        0 <= k < ps.len(),
        incompatible(r, ps[k], a),
        forall|j: int| 0 <= j < k ==> !incompatible(r, #[trigger] ps[j], a),
    ensures
        collect_grants(r, ps, a) == Err::<(Seq<PermissionV>, Option<u64>), Failure>(policy_failure(r, ps[k], a)->0),
    decreases ps.len(),
{
    let q = ps.drop_last();
    if k < ps.len() - 1 {
        assert forall|j: int| 0 <= j < k implies !incompatible(r, #[trigger] q[j], a) by {
            assert(q[j] == ps[j]);
        }
        assert(q[k] == ps[k]);
        lemma_collect_first_incompatible(r, q, a, k);
    } else {
        assert forall|j: int| 0 <= j < q.len() implies !incompatible(r, #[trigger] q[j], a) by {
            assert(q[j] == ps[j]);
        }
        lemma_collect_compatible(r, q, a);
    }
}

/// A granted authorization holds the permissions of every policy of the resource that the
/// actor passes, one policy after the other, for the actor and the resource, and expires
/// the shortest of those policies' durations after `now`; and no policy is incompatible
/// with the resource.
pub proof fn lemma_build_grants(result: Result<Authorization, MinosError>, r: ResourceFacts, a: ActorFacts, now: i64)
    requires
        build_outcome(result, r, a, now),
    ensures
        result matches Ok(auth) ==> {
            let ps = policies_view(r.policies@);
            let passing = passing_policies(r, ps, a);
            &&& forall|j: int| 0 <= j < ps.len() ==> !incompatible(r, #[trigger] ps[j], a)
            &&& passing.len() > 0
            &&& permissions_view(auth.permissions@) == permissions_of(passing)
            &&& auth.agent_id@ == a.id@
            &&& auth.resource_id@ == r.id@
            &&& opt_text(auth.resource_type) == opt_text(r.resource_type)
            &&& exists|d: u64| shortest_of(Some(d), passing) && auth.expiration == #[trigger] expiration_of(now, d)
        },
{
    let ps = policies_view(r.policies@);
    let passing = passing_policies(r, ps, a);
    if result is Ok {
        if exists|k: int| 0 <= k < ps.len() && incompatible(r, #[trigger] ps[k], a) {
            lemma_first_incompatible_exists(r, ps, a);
            let k = choose|k: int|
                0 <= k < ps.len() && incompatible(r, #[trigger] ps[k], a) && forall|j: int|
                    0 <= j < k ==> !incompatible(r, #[trigger] ps[j], a);
            lemma_collect_first_incompatible(r, ps, a, k);
            assert(false);
        }
        lemma_collect_compatible(r, ps, a);
        passing.map_values(|p: PolicyV| p.3).lemma_flatten_and_flatten_alt_are_equivalent();
        let d = collect_grants(r, ps, a)->Ok_0.1->0;
        assert(shortest_of(Some(d), passing));
        assert(result->Ok_0.expiration == expiration_of(now, d));
    }
}

/// Whether `k` is the first of the policies `ps` that is incompatible with resource `r`.
pub open spec fn first_incompatible_at(r: ResourceFacts, ps: Seq<PolicyV>, a: ActorFacts, k: int) -> bool {
    &&& 0 <= k < ps.len()
    &&& incompatible(r, ps[k], a)
    &&& forall|j: int| 0 <= j < k ==> !incompatible(r, #[trigger] ps[j], a)
}

/// Whether `result` fails with the failure `f`.
pub open spec fn fails_with(result: Result<Authorization, MinosError>, f: Failure) -> bool {
    result matches Err(e) && failure(e) == f
}

/// Building fails with the failure of the first policy of the resource that is incompatible
/// with it; when there is none, it fails with `Not authorized` exactly when the actor
/// passes no policy, and grants an authorization otherwise.
pub proof fn lemma_build_errors(result: Result<Authorization, MinosError>, r: ResourceFacts, a: ActorFacts, now: i64)
    requires
        build_outcome(result, r, a, now),
    ensures
        forall|k: int|
            #[trigger] first_incompatible_at(r, policies_view(r.policies@), a, k) ==> fails_with(
                result,
                policy_failure(r, policies_view(r.policies@)[k], a)->0,
            ),
        (forall|j: int|
            0 <= j < policies_view(r.policies@).len() ==> !incompatible(r, #[trigger] policies_view(r.policies@)[j], a))
            ==> (fails_with(result, (ErrorKind::Authorization, "Not authorized"@)) <==> passing_policies(
            r,
            policies_view(r.policies@),
            a,
        ).len() == 0) && (passing_policies(r, policies_view(r.policies@), a).len() > 0 ==> result is Ok),
{
    let ps = policies_view(r.policies@);
    assert forall|k: int| #[trigger] first_incompatible_at(r, ps, a, k) implies fails_with(
        result,
        policy_failure(r, ps[k], a)->0,
    ) by {
        lemma_collect_first_incompatible(r, ps, a, k);
    }
    if forall|j: int| 0 <= j < ps.len() ==> !incompatible(r, #[trigger] ps[j], a) {
        lemma_collect_compatible(r, ps, a);
    }
}

/// Where some policy is incompatible with the resource, there is a first one.
proof fn lemma_first_incompatible_exists(r: ResourceFacts, ps: Seq<PolicyV>, a: ActorFacts)
    requires
        exists|k: int| 0 <= k < ps.len() && incompatible(r, #[trigger] ps[k], a),
    ensures
        exists|k: int|
            0 <= k < ps.len() && incompatible(r, #[trigger] ps[k], a) && forall|j: int|
                0 <= j < k ==> !incompatible(r, #[trigger] ps[j], a),
    decreases ps.len(),
{
    let q = ps.drop_last();
    if exists|k: int| 0 <= k < q.len() && incompatible(r, #[trigger] q[k], a) {
        lemma_first_incompatible_exists(r, q, a);
        let k = choose|k: int|
            0 <= k < q.len() && incompatible(r, #[trigger] q[k], a) && forall|j: int|
                0 <= j < k ==> !incompatible(r, #[trigger] q[j], a);
        assert(ps[k] == q[k]);
        assert forall|j: int| 0 <= j < k implies !incompatible(r, #[trigger] ps[j], a) by {
            assert(ps[j] == q[j]);
        }
    } else {
        let k = ps.len() - 1;
        assert forall|j: int| 0 <= j < k implies !incompatible(r, #[trigger] ps[j], a) by {
            assert(ps[j] == q[j]);
        }
        let w = choose|w: int| 0 <= w < ps.len() && incompatible(r, #[trigger] ps[w], a);
        if w < k {
            assert(q[w] == ps[w]);
        }
        assert(incompatible(r, ps[k], a));
    }
}

/// Builds authorizations for the actors that ask for them over one resource.
pub struct AuthorizationBuilder<'b, R: Resource> {
    pub resource: &'b R,
}

/// The facts that a resource gives about itself.
fn resource_facts<R: Resource>(resource: &R) -> (r: ResourceFacts) {
    ResourceFacts {
        id: resource.id(),
        owner: resource.owner(),
        policies: resource.policies(),
        resource_type: resource.resource_type(),
    }
}

/// The facts that an actor gives about itself.
fn actor_facts<A: Actor>(actor: &A) -> (r: ActorFacts) {
    ActorFacts { id: actor.id(), groups: actor.groups() }
}

impl<'b, R: Resource> AuthorizationBuilder<'b, R> {
    pub fn new(resource: &'b R) -> (r: Self)
        ensures
            r.resource == resource,
    {
        AuthorizationBuilder { resource }
    }

    /// Grants the actor, now, the permissions of one policy of the resource: the outcome is
    /// that of [`build_by_policy_at`] for what the resource and the actor tell about
    /// themselves and the clock's reading.
    pub fn build_by_policy<A: Actor>(&self, policy: &Policy, actor: &A) -> (r: Result<Authorization, MinosError>)
        ensures
            r matches Ok(auth) ==> permissions_view(auth.permissions@) == policy@.3,
            r matches Err(e) ==> e.kind == ErrorKind::Authorization || e.kind == ErrorKind::IncompatibleAuthPolicy,
            exists|f: ResourceFacts, w: ActorFacts, now: i64| #[trigger] by_policy_outcome(r, f, policy@, w, now),
    {
        let facts = resource_facts(self.resource);
        let who = actor_facts(actor);
        let now = now_timestamp();
        build_by_policy_at(&facts, policy, &who, now)
    }

    /// Grants the actor, now, the permissions of every policy of the resource that it
    /// passes: the outcome is that of [`build_at`] for what the resource and the actor tell
    /// about themselves and the clock's reading.
    pub fn build<A: Actor>(&self, actor: &A) -> (r: Result<Authorization, MinosError>)
        ensures
            r matches Err(e) ==> e.kind == ErrorKind::Authorization || e.kind == ErrorKind::IncompatibleAuthPolicy,
            exists|f: ResourceFacts, w: ActorFacts, now: i64| #[trigger] build_outcome(r, f, w, now),
    {
        let facts = resource_facts(self.resource);
        let who = actor_facts(actor);
        let now = now_timestamp();
        proof {
            lemma_collect_error_kind(facts, policies_view(facts.policies@), who);
        }
        build_at(&facts, &who, now)
    }
}

/// An authorization granted to an actor over a resource passes the checks of that actor
/// and that resource, for every permission it grants, at any time before it expires.
pub proof fn lemma_granted_authorization_checks(
    auth: Authorization,
    r: ResourceFacts,
    a: ActorFacts,
    perms: Seq<PermissionV>,
    expiration: u64,
    t: i64,
    p: PermissionV,
)
    requires
        grants(auth, r, a, perms, expiration),
        (t as u64) < expiration,
        perms.contains(p),
    ensures
        crate::authorization::basic_check_failure(auth, t, r.id@, a.id@) is None,
        permissions_view(auth.permissions@).contains(p),
{
}

} // verus!
