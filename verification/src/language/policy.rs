//! Policies: permissions granted to whoever satisfies one of the rules.
use vstd::prelude::*;

use crate::engine::actor::Actor;
use crate::engine::resource::Resource;
use crate::errors::{lemma_list_fail, lemma_list_ok, lemma_list_result, list_result, result_map, Error};
use crate::language::requirements::{is_invalid_token, RequirementView};
use crate::language::rule::{
    requirement_token_ok, requirement_token_view, requirements_result, rule_holds, rule_token_shaped,
    rule_view, Rule,
};
use crate::text::{seq_has, strings_view};
use crate::tokens::{Array, Token};

verus! {

/// The name of something that an actor may do on a resource.
#[derive(Debug, PartialEq, Eq, Hash)]
pub struct Permission(pub String);

impl Permission {
    pub fn new(s: &str) -> (r: Permission)
        ensures
            r.0@ == s@,
    {
        Permission(s.to_owned())
    }

    pub fn as_str(&self) -> (r: &str)
        ensures
            r@ == self.0@,
    {
        self.0.as_str()
    }
}

impl Clone for Permission {
    fn clone(&self) -> (r: Self)
        ensures
            r == *self,
    {
        Permission(self.0.clone())
    }
}

/// Permissions granted when at least one of the rules holds.
#[derive(Debug)]
pub struct Policy {
    pub permissions: Vec<Permission>,
    pub rules: Vec<Rule>,
}

/// The names of the permissions of a policy.
pub open spec fn permission_names(p: Policy) -> Seq<Seq<char>> {
    p.permissions@.map_values(|q: Permission| q.0@)
}

/// The rules of a policy, each read as its requirements.
pub open spec fn policy_rules(p: Policy) -> Seq<Seq<RequirementView>> {
    p.rules@.map_values(|r: Rule| rule_view(r))
}

/// Some rule of the policy holds for the actor and the resource.
pub open spec fn policy_grants(p: Policy, actor: Actor, res: Resource) -> bool {
    exists|i: int| 0 <= i < p.rules@.len() && rule_holds(#[trigger] policy_rules(p)[i], actor, res)
}

/// The policy gives `permission` to the actor on the resource.
pub open spec fn policy_allows(p: Policy, actor: Actor, res: Resource, permission: Seq<char>) -> bool {
    seq_has(permission_names(p), permission) && policy_grants(p, actor, res)
}

impl Policy {
    pub fn new(permissions: Vec<Permission>, rules: Vec<Rule>) -> (r: Policy)
        ensures
            r.permissions == permissions,
            r.rules == rules,
    {
        Policy { permissions, rules }
    }

    pub fn permissions(&self) -> (r: &Vec<Permission>)
        ensures
            r == &self.permissions,
    {
        &self.permissions
    }

    pub fn rules(&self) -> (r: &Vec<Rule>)
        ensures
            r == &self.rules,
    {
        &self.rules
    }

    /// Whether some rule of the policy holds.
    fn any_rule_applies(&self, actor: &Actor, resource: &Resource) -> (r: bool)
        ensures
            r == policy_grants(*self, *actor, *resource),
    {
        let n = self.rules.len();
        let mut i: usize = 0;
        while i < n
            invariant
                n == self.rules.len(),
                0 <= i <= n,
                forall|j: int| 0 <= j < i ==> !rule_holds(#[trigger] policy_rules(*self)[j], *actor, *resource),
            decreases n - i,
        {
            if self.rules[i].apply(actor, resource) {
                assert(policy_rules(*self)[i as int] == rule_view(self.rules@[i as int]));
                return true;
            }
            assert(policy_rules(*self)[i as int] == rule_view(self.rules@[i as int]));
            i = i + 1;
        }
        false
    }

    /// Whether the policy lists `permission`.
    fn lists_permission(&self, permission: &Permission) -> (r: bool)
        ensures
            r == seq_has(permission_names(*self), permission.0@),
    {
        let n = self.permissions.len();
        let mut i: usize = 0;
        while i < n
            invariant
                n == self.permissions.len(),
                0 <= i <= n,
                forall|j: int| 0 <= j < i ==> (#[trigger] permission_names(*self)[j]) != permission.0@,
            decreases n - i,
        {
            if self.permissions[i].0 == permission.0 {
                assert(permission_names(*self)[i as int] == permission.0@);
                return true;
            }
            i = i + 1;
        }
        false
    }

    /// Indicates if an actor has a specific permission on a resource.
    pub fn actor_has_permission(&self, actor: &Actor, resource: &Resource, permission: &Permission) -> (r: bool)
        ensures
            r == policy_allows(*self, *actor, *resource, permission.0@),
    {
        if !self.lists_permission(permission) {
            return false;
        }
        self.any_rule_applies(actor, resource)
    }

    /// The permissions of the policy if the actor satisfies at least one of the rules.
    pub fn apply(&self, actor: &Actor, resource: &Resource) -> (r: Option<&Vec<Permission>>)
        ensures
            policy_grants(*self, *actor, *resource) ==> r == Some(&self.permissions),
            !policy_grants(*self, *actor, *resource) ==> r is None,
    {
        if self.any_rule_applies(actor, resource) {
            Some(&self.permissions)
        } else {
            None
        }
    }

    /// Reads a policy from a `Policy` token: its `Allow` array, then its rules.
    pub fn from_token(token: &Token) -> (r: Result<Policy, Error>)
        requires
            policy_token_shaped(*token),
        ensures
            match *token {
                Token::Policy(inner) => {
                    &&& rules_result(inner@.drop_first(), result_map(r, |p: Policy| policy_rules(p)))
                    &&& r matches Ok(p) ==> permission_names(p) == policy_token_permissions(*token)
                },
                _ => r matches Err(e) && is_invalid_token(e, "Policy"@, *token),
            },
    {
        proof {
            reveal_strlit("Policy");
        }
        let inner = match token.inner_policy() {
            Some(inner) => inner,
            None => {
                return Err(Error::InvalidToken { expected: "Policy", found: token.name() });
            },
        };
        let allow = match inner[0].inner_allow() {
            Some(a) => a,
            None => {
                proof {
                    assert(false);
                }
                return Err(Error::MissingToken);
            },
        };
        let array = match allow[0].inner_array() {
            Some(a) => a,
            None => {
                proof {
                    assert(false);
                }
                return Err(Error::MissingToken);
            },
        };
        let rules = read_rules(inner)?;
        let permissions = permissions_of(array);
        let p = Policy { permissions, rules };
        proof {
            assert(permission_names(p) =~= policy_token_permissions(*token));
        }
        Ok(p)
    }
}

/// The permissions written in an array.
fn permissions_of(array: &Array) -> (r: Vec<Permission>)
    ensures
        r@.map_values(|q: Permission| q.0@) == strings_view(array.0@),
{
    let n = array.0.len();
    let mut out: Vec<Permission> = Vec::new();
    let mut i: usize = 0;
    while i < n
        invariant
            n == array.0.len(),
            0 <= i <= n,
            out@.len() == i,
            forall|j: int| 0 <= j < i ==> (#[trigger] out@[j]).0@ == array.0@[j]@,
        decreases n - i,
    {
        out.push(Permission(array.0[i].clone()));
        i = i + 1;
    }
    assert(out@.map_values(|q: Permission| q.0@) =~= strings_view(array.0@));
    out
}

/// The tokens inside a `Policy` token can be read without running off their shape:
/// it begins with an `Allow` that holds an array, and its rule tokens are shaped.
pub open spec fn policy_token_shaped(t: Token) -> bool {
    t matches Token::Policy(inner) ==> {
        &&& inner.len() > 0
        &&& inner@[0] matches Token::Allow(a) && a.len() > 0 && a@[0] is Array
        &&& forall|i: int| 1 <= i < inner.len() ==> rule_token_shaped(#[trigger] inner@[i])
    }
}

/// A policy read as the names of its permissions and its rules.
pub type PolicyView = (Seq<Seq<char>>, Seq<Seq<RequirementView>>);

pub open spec fn policy_view(p: Policy) -> PolicyView {
    (permission_names(p), policy_rules(p))
}

/// Some rule of the policy holds for the actor and the resource.
pub open spec fn view_grants(p: PolicyView, actor: Actor, res: Resource) -> bool {
    exists|i: int| 0 <= i < p.1.len() && rule_holds(#[trigger] p.1[i], actor, res)
}

pub proof fn lemma_view_grants(p: Policy, actor: Actor, res: Resource)
    ensures
        view_grants(policy_view(p), actor, res) == policy_grants(p, actor, res),
{
    let pv = policy_view(p);
    assert(pv.1 == policy_rules(p));
    assert(policy_rules(p).len() == p.rules@.len());
    if view_grants(pv, actor, res) {
        let i = choose|i: int| 0 <= i < pv.1.len() && rule_holds(#[trigger] pv.1[i], actor, res);
        assert(rule_holds(policy_rules(p)[i], actor, res));
    }
    if policy_grants(p, actor, res) {
        let i = choose|i: int| 0 <= i < p.rules@.len() && rule_holds(#[trigger] policy_rules(p)[i], actor, res);
        assert(rule_holds(pv.1[i], actor, res));
    }
}

/// Reading a policy from this token succeeds.
pub open spec fn policy_token_ok(t: Token) -> bool {
    t matches Token::Policy(inner) && forall|i: int| 1 <= i < inner.len() ==> rule_token_ok(#[trigger] inner@[i])
}

/// The policy read from a token on which reading succeeds.
pub open spec fn policy_token_view(t: Token) -> PolicyView {
    match t {
        Token::Policy(inner) => (
            policy_token_permissions(t),
            inner@.drop_first().map_values(|q: Token| rule_token_view(q)),
        ),
        _ => arbitrary(),
    }
}

/// What reading one policy token gives.
pub open spec fn policy_token_result(t: Token, r: Result<PolicyView, Error>) -> bool {
    match t {
        Token::Policy(inner) => {
            &&& rules_result(inner@.drop_first(), result_map(r, |p: PolicyView| p.1))
            &&& r matches Ok(p) ==> p.0 == policy_token_permissions(t)
        },
        _ => r matches Err(e) && is_invalid_token(e, "Policy"@, t),
    }
}

pub proof fn lemma_policy_read(t: Token, r: Result<PolicyView, Error>)
    requires
        policy_token_shaped(t),
        policy_token_result(t, r),
    ensures
        r is Ok <==> policy_token_ok(t),
        r matches Ok(v) ==> v == policy_token_view(t),
{
    if let Token::Policy(inner) = t {
        let ts = inner@.drop_first();
        lemma_list_result(
            ts,
            |t: Token| rule_token_ok(t),
            |t: Token| rule_token_view(t),
            |t: Token, e: Error| rule_token_result(t, Err(e)),
            result_map(r, |p: PolicyView| p.1),
        );
        let ok = |t: Token| rule_token_ok(t);
        assert(forall|i: int|
            #![trigger ok(ts[i])]
            #![trigger rule_token_ok(ts[i])]
            0 <= i < ts.len() ==> ok(ts[i]) == rule_token_ok(ts[i]));
        assert(forall|i: int| 1 <= i < inner.len() ==> #[trigger] inner@[i] == ts[i - 1]);
        if policy_token_ok(t) {
            assert forall|i: int| 0 <= i < ts.len() implies rule_token_ok(#[trigger] ts[i]) by {
                assert(ts[i] == inner@[i + 1]);
            }
        }
    }
}

/// The permission names written in the `Allow` of a shaped `Policy` token.
pub open spec fn policy_token_permissions(t: Token) -> Seq<Seq<char>> {
    match t {
        Token::Policy(inner) => match inner@[0] {
            Token::Allow(a) => match a@[0] {
                Token::Array(arr) => strings_view(arr.0@),
                _ => arbitrary(),
            },
            _ => arbitrary(),
        },
        _ => arbitrary(),
    }
}

/// Reading a rule from this token succeeds.
pub open spec fn rule_token_ok(t: Token) -> bool {
    t matches Token::Rule(inner) && forall|i: int| 0 <= i < inner.len() ==> requirement_token_ok(#[trigger] inner@[i])
}

/// The rule read from a token on which reading succeeds.
pub open spec fn rule_token_view(t: Token) -> Seq<RequirementView> {
    match t {
        Token::Rule(inner) => inner@.map_values(|q: Token| requirement_token_view(q)),
        _ => arbitrary(),
    }
}

/// What reading one rule token gives.
pub open spec fn rule_token_result(t: Token, r: Result<Seq<RequirementView>, Error>) -> bool {
    match t {
        Token::Rule(inner) => requirements_result(inner@, r),
        _ => r matches Err(e) && is_invalid_token(e, "Rule"@, t),
    }
}

/// What reading a list of rule tokens gives.
pub open spec fn rules_result(ts: Seq<Token>, r: Result<Seq<Seq<RequirementView>>, Error>) -> bool {
    list_result(
        ts,
        |t: Token| rule_token_ok(t),
        |t: Token| rule_token_view(t),
        |t: Token, e: Error| rule_token_result(t, Err(e)),
        r,
    )
}

proof fn lemma_rule_read(t: Token, r: Result<Seq<RequirementView>, Error>)
    requires
        rule_token_result(t, r),
    ensures
        r is Ok <==> rule_token_ok(t),
        r matches Ok(v) ==> v == rule_token_view(t),
{
    if let Token::Rule(inner) = t {
        lemma_list_result(
            inner@,
            |t: Token| requirement_token_ok(t),
            |t: Token| requirement_token_view(t),
            |t: Token, e: Error| crate::language::rule::requirement_token_result(t, Err(e)),
            r,
        );
        let ok = |t: Token| requirement_token_ok(t);
        assert(forall|i: int|
            #![trigger ok(inner@[i])]
            #![trigger requirement_token_ok(inner@[i])]
            0 <= i < inner.len() ==> ok(inner@[i]) == requirement_token_ok(inner@[i]));
    }
}

/// Reads the rules of a `Policy`: every token after its first.
fn read_rules(inner: &Vec<Token>) -> (r: Result<Vec<Rule>, Error>)
    requires
        inner.len() > 0,
        forall|i: int| 1 <= i < inner.len() ==> rule_token_shaped(#[trigger] inner@[i]),
    ensures
        rules_result(inner@.drop_first(), result_map(r, |v: Vec<Rule>| v@.map_values(|q: Rule| rule_view(q)))),
{
    let ghost ts = inner@.drop_first();
    let n = inner.len();
    let mut out: Vec<Rule> = Vec::new();
    let mut i: usize = 1;
    while i < n
        invariant
            n == inner.len(),
            ts == inner@.drop_first(),
            1 <= i <= n,
            forall|j: int| 1 <= j < inner.len() ==> rule_token_shaped(#[trigger] inner@[j]),
            forall|j: int| 0 <= j < i - 1 ==> rule_token_ok(#[trigger] ts[j]),
            out@.len() == i - 1,
            forall|j: int| 0 <= j < i - 1 ==> rule_view(#[trigger] out@[j]) == rule_token_view(ts[j]),
        decreases n - i,
    {
        let t = &inner[i];
        assert(ts[i - 1] == inner@[i as int]);
        let q = Rule::from_token(t);
        proof {
            lemma_rule_read(*t, result_map(q, |q: Rule| rule_view(q)));
        }
        match q {
            Ok(q) => {
                out.push(q);
            },
            Err(e) => {
                proof {
                    lemma_list_fail(
                        ts,
                        |t: Token| rule_token_ok(t),
                        |t: Token| rule_token_view(t),
                        |t: Token, e: Error| rule_token_result(t, Err(e)),
                        i - 1,
                        e,
                    );
                }
                return Err(e);
            },
        }
        i = i + 1;
    }
    proof {
        lemma_list_ok(
            ts,
            |t: Token| rule_token_ok(t),
            |t: Token| rule_token_view(t),
            |t: Token, e: Error| rule_token_result(t, Err(e)),
            out@.map_values(|q: Rule| rule_view(q)),
        );
    }
    Ok(out)
}

} // verus!
