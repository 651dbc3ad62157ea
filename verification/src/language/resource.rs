//! Resources: the environments of policies that hold for a resource type, or for one
//! resource of a type.
use vstd::prelude::*;

use crate::errors::{lemma_list_fail, lemma_list_ok, lemma_list_result, list_result, result_map, Error};
use crate::keyed::{
    has_key, keyed_map, keys_unique, lemma_keyed_map_domain, lemma_keyed_map_push, lemma_keyed_map_update,
    lemma_keyed_map_value, lemma_keys_unique_push, lemma_keys_unique_update, lemma_seq_sum_push,
    lemma_seq_sum_take, lemma_seq_sum_update, seq_sum,
};
use crate::language::environment::{
    default_env_name, env_policies, env_token_ok, env_token_result, env_token_shaped, env_token_view,
    lemma_env_read, EnvView, Environment, DEFAULT_ENV_IDENTIFIER,
};
use crate::language::policy::PolicyView;
use crate::language::requirements::is_invalid_token;
use crate::tokens::{Identifier, Token};

verus! {

/// The name of an environment.
pub open spec fn env_name(e: Environment) -> Seq<char> {
    e.identifier.0@
}

/// No two environments of the list have the same name.
pub open spec fn envs_wf(envs: Seq<Environment>) -> bool {
    keys_unique(envs, |e: Environment| env_name(e))
}

/// The policies of each environment of the list, by environment name.
pub open spec fn envs_map(envs: Seq<Environment>) -> Map<Seq<char>, Seq<PolicyView>> {
    keyed_map(envs, |e: Environment| env_name(e), |e: Environment| env_policies(e))
}

/// The environment map after adding policies `ps` under the name `k`: appended to the
/// policies already under that name, if any.
pub open spec fn add_env_to_map(
    m: Map<Seq<char>, Seq<PolicyView>>,
    k: Seq<char>,
    ps: Seq<PolicyView>,
) -> Map<Seq<char>, Seq<PolicyView>> {
    if m.dom().contains(k) {
        m.insert(k, m[k] + ps)
    } else {
        m.insert(k, ps)
    }
}

/// The policies under a name, or none.
pub open spec fn env_or_empty(m: Map<Seq<char>, Seq<PolicyView>>, k: Seq<char>) -> Seq<PolicyView> {
    if m.dom().contains(k) {
        m[k]
    } else {
        Seq::empty()
    }
}

/// Two environment maps merged: every name of either, with the policies of `a` followed
/// by those of `b`.
pub open spec fn merge_env_maps(
    a: Map<Seq<char>, Seq<PolicyView>>,
    b: Map<Seq<char>, Seq<PolicyView>>,
) -> Map<Seq<char>, Seq<PolicyView>> {
    Map::new(
        |k: Seq<char>| a.dom().contains(k) || b.dom().contains(k),
        |k: Seq<char>| env_or_empty(a, k) + env_or_empty(b, k),
    )
}

/// The environment map built by adding each environment of the list in turn.
pub open spec fn fold_envs(vs: Seq<EnvView>) -> Map<Seq<char>, Seq<PolicyView>>
    decreases vs.len(),
{
    if vs.len() == 0 {
        Map::empty()
    } else {
        add_env_to_map(fold_envs(vs.drop_last()), vs.last().0, vs.last().1)
    }
}

/// The number of policies in a list of environments.
pub open spec fn envs_total(envs: Seq<Environment>) -> nat {
    seq_sum(envs, |e: Environment| e.policies@.len())
}

/// The index of the environment named `name`, if there is one.
pub fn find_env(envs: &Vec<Environment>, name: &String) -> (r: Option<usize>)
    ensures
        r matches Some(i) ==> i < envs.len() && env_name(envs@[i as int]) == name@,
        r is None ==> !has_key(envs@, |e: Environment| env_name(e), name@),
{
    let n = envs.len();
    let mut i: usize = 0;
    while i < n
        invariant
            n == envs.len(),
            0 <= i <= n,
            forall|j: int| 0 <= j < i ==> env_name(#[trigger] envs@[j]) != name@,
        decreases n - i,
    {
        if envs[i].identifier.0 == *name {
            return Some(i);
        }
        i = i + 1;
    }
    None
}

/// Adds an environment to a list: its policies go after those of the environment of the same
/// name, or the environment is added as a new one.
pub fn add_env(envs: &mut Vec<Environment>, environment: Environment)
    requires
        envs_wf(old(envs)@),
    ensures
        envs_wf(final(envs)@),
        envs_map(final(envs)@) == add_env_to_map(envs_map(old(envs)@), env_name(environment), env_policies(environment)),
        envs_total(final(envs)@) == envs_total(old(envs)@) + environment.policies@.len(),
{
    let ghost key = |e: Environment| env_name(e);
    let ghost val = |e: Environment| env_policies(e);
    let ghost cnt = |e: Environment| e.policies@.len();
    let mut env = environment;
    match find_env(envs, &env.identifier.0) {
        Some(i) => {
            proof {
                lemma_keyed_map_value(envs@, key, val, i as int);
            }
            let ghost before = envs@;
            let ghost old_env = envs@[i as int];
            envs[i].add_policies(&mut env.policies);
            proof {
                let new_env = envs@[i as int];
                assert(envs@ == before.update(i as int, new_env));
                assert(env_policies(new_env) =~= env_policies(old_env) + env_policies(environment));
                lemma_keyed_map_update(before, key, val, i as int, new_env);
                lemma_keys_unique_update(before, key, i as int, new_env);
                lemma_seq_sum_update(before, cnt, i as int, new_env);
            }
        },
        None => {
            proof {
                lemma_keyed_map_domain(envs@, key, val, env_name(env));
                lemma_keyed_map_push(envs@, key, val, env);
                lemma_keys_unique_push(envs@, key, env);
                lemma_seq_sum_push(envs@, cnt, env);
            }
            envs.push(env);
        },
    }
}

/// Adds every environment of `other` to `envs`.
pub fn merge_envs(envs: &mut Vec<Environment>, other: Vec<Environment>)
    requires
        envs_wf(old(envs)@),
        envs_wf(other@),
    ensures
        envs_wf(final(envs)@),
        envs_map(final(envs)@) == merge_env_maps(envs_map(old(envs)@), envs_map(other@)),
        envs_total(final(envs)@) == envs_total(old(envs)@) + envs_total(other@),
{
    let ghost key = |e: Environment| env_name(e);
    let ghost val = |e: Environment| env_policies(e);
    let ghost cnt = |e: Environment| e.policies@.len();
    let ghost start = envs_map(envs@);
    let ghost start_total = envs_total(envs@);
    let ghost all = other@;
    let ghost all_len = other.len();
    let mut rest = other;
    let mut k: usize = 0;
    proof {
        assert(all.take(0) =~= Seq::<Environment>::empty());
        assert(merge_env_maps(start, keyed_map(all.take(0), key, val)) =~= start);
    }
    while rest.len() > 0
        invariant
            key == (|e: Environment| env_name(e)),
            val == (|e: Environment| env_policies(e)),
            cnt == (|e: Environment| e.policies@.len()),
            envs_wf(envs@),
            envs_wf(all),
            all.len() == all_len,
            0 <= k <= all.len(),
            rest@ == all.skip(k as int),
            envs_map(envs@) == merge_env_maps(start, keyed_map(all.take(k as int), key, val)),
            envs_total(envs@) == start_total + seq_sum(all.take(k as int), cnt),
        decreases rest.len(),
    {
        let env = rest.remove(0);
        proof {
            assert(env == all[k as int]);
            assert(all.take(k + 1) == all.take(k as int).push(env));
            lemma_keyed_map_push(all.take(k as int), key, val, env);
            lemma_seq_sum_push(all.take(k as int), cnt, env);
            lemma_keyed_map_domain(all.take(k as int), key, val, env_name(env));
            assert(!has_key(all.take(k as int), key, env_name(env))) by {
                if has_key(all.take(k as int), key, env_name(env)) {
                    let j = choose|j: int| 0 <= j < all.take(k as int).len() && key(all.take(k as int)[j]) == env_name(env);
                    assert(all.take(k as int)[j] == all[j]);
                    assert(j != k);
                    assert(key(all[j]) != key(all[k as int]));
                }
            }
            let m = keyed_map(all.take(k as int), key, val);
            assert(merge_env_maps(start, m.insert(env_name(env), env_policies(env))) =~= add_env_to_map(
                merge_env_maps(start, m),
                env_name(env),
                env_policies(env),
            ));
        }
        add_env(envs, env);
        k = k + 1;
        proof {
            assert(rest@ == all.skip(k as int));
        }
    }
    proof {
        assert(all.take(k as int) == all);
    }
}

/// The number of policies in a list of environments.
pub fn total_policies(envs: &Vec<Environment>) -> (r: usize)
    requires
        envs_total(envs@) <= usize::MAX,
    ensures
        r == envs_total(envs@),
{
    let ghost cnt = |e: Environment| e.policies@.len();
    let n = envs.len();
    let mut len: usize = 0;
    let mut i: usize = 0;
    while i < n
        invariant
            cnt == (|e: Environment| e.policies@.len()),
            n == envs.len(),
            0 <= i <= n,
            len == seq_sum(envs@.take(i as int), cnt),
            envs_total(envs@) <= usize::MAX,
        decreases n - i,
    {
        proof {
            lemma_seq_sum_take(envs@, cnt, i as int);
            lemma_seq_sum_prefix(envs@, cnt, i + 1);
            assert(cnt(envs@[i as int]) == envs@[i as int].policies@.len());
            assert(seq_sum(envs@, cnt) == envs_total(envs@));
        }
        len = len + envs[i].policies.len();
        i = i + 1;
    }
    proof {
        assert(envs@.take(n as int) == envs@);
    }
    len
}

/// The environment named `name` in a list, if there is one.
pub fn lookup_env<'a>(envs: &'a Vec<Environment>, name: &String) -> (r: Option<&'a Environment>)
    requires
        envs_wf(envs@),
    ensures
        r matches Some(e) ==> envs_map(envs@).dom().contains(name@) && env_name(*e) == name@
            && env_policies(*e) == envs_map(envs@)[name@],
        r is None ==> !envs_map(envs@).dom().contains(name@),
{
    let ghost key = |e: Environment| env_name(e);
    let ghost val = |e: Environment| env_policies(e);
    proof {
        lemma_keyed_map_domain(envs@, key, val, name@);
    }
    match find_env(envs, name) {
        Some(i) => {
            proof {
                lemma_keyed_map_value(envs@, key, val, i as int);
            }
            Some(&envs[i])
        },
        None => None,
    }
}

/// The environments read in turn from a list of environment tokens, as a map.
fn build_envs(ts: &Vec<Token>, start: usize) -> (r: Result<Vec<Environment>, Error>)
    requires
        start <= ts.len(),
        forall|i: int| start <= i < ts.len() ==> env_token_shaped(#[trigger] ts@[i]),
    ensures
        envs_result(ts@.skip(start as int), result_map(r, |v: Vec<Environment>| envs_map(v@))),
        r matches Ok(v) ==> envs_wf(v@),
{
    let ghost rest = ts@.skip(start as int);
    let ghost key = |e: Environment| env_name(e);
    let n = ts.len();
    let mut envs: Vec<Environment> = Vec::new();
    let mut i: usize = start;
    proof {
        assert(rest.take(0).map_values(|t: Token| env_token_view(t)) =~= Seq::<EnvView>::empty());
    }
    while i < n
        invariant
            n == ts.len(),
            rest == ts@.skip(start as int),
            start <= i <= n,
            forall|j: int| start <= j < ts.len() ==> env_token_shaped(#[trigger] ts@[j]),
            forall|j: int| 0 <= j < i - start ==> env_token_ok(#[trigger] rest[j]),
            envs_wf(envs@),
            envs_map(envs@) == fold_envs(rest.take(i - start).map_values(|t: Token| env_token_view(t))),
        decreases n - i,
    {
        let t = &ts[i];
        assert(rest[i - start] == ts@[i as int]);
        let q = Environment::from_token(t);
        proof {
            lemma_env_read(*t, result_map(q, |e: Environment| (e.identifier.0@, env_policies(e))));
        }
        match q {
            Ok(e) => {
                proof {
                    let vs = rest.take(i - start + 1).map_values(|t: Token| env_token_view(t));
                    assert(vs.drop_last() == rest.take(i - start).map_values(|t: Token| env_token_view(t)));
                    assert(vs.last() == env_token_view(*t));
                }
                add_env(&mut envs, e);
            },
            Err(e) => {
                proof {
                    lemma_list_fail(
                        rest,
                        |t: Token| env_token_ok(t),
                        |t: Token| env_token_view(t),
                        |t: Token, e: Error| env_token_result(t, Err(e)),
                        i - start,
                        e,
                    );
                }
                return Err(e);
            },
        }
        i = i + 1;
    }
    proof {
        assert(rest.take(n - start) == rest);
        lemma_envs_result_ok(rest, envs_map(envs@));
    }
    Ok(envs)
}

/// What reading a list of environment tokens gives: the map built from them in turn, or the
/// error of the first that does not read.
pub open spec fn envs_result(ts: Seq<Token>, r: Result<Map<Seq<char>, Seq<PolicyView>>, Error>) -> bool {
    if forall|i: int| 0 <= i < ts.len() ==> env_token_ok(#[trigger] ts[i]) {
        r == Ok::<Map<Seq<char>, Seq<PolicyView>>, Error>(fold_envs(ts.map_values(|t: Token| env_token_view(t))))
    } else {
        r matches Err(e) && list_result(
            ts,
            |t: Token| env_token_ok(t),
            |t: Token| env_token_view(t),
            |t: Token, e: Error| env_token_result(t, Err(e)),
            Err(e),
        )
    }
}

proof fn lemma_envs_result_ok(ts: Seq<Token>, m: Map<Seq<char>, Seq<PolicyView>>)
    requires
        forall|i: int| 0 <= i < ts.len() ==> env_token_ok(#[trigger] ts[i]),
        m == fold_envs(ts.map_values(|t: Token| env_token_view(t))),
    ensures
        envs_result(ts, Ok(m)),
{
}

pub proof fn lemma_seq_sum_prefix<T>(s: Seq<T>, f: spec_fn(T) -> nat, i: int)
    requires
        0 <= i <= s.len(),
    ensures
        seq_sum(s.take(i), f) <= seq_sum(s, f),
    decreases s.len() - i,
{
    if i < s.len() {
        lemma_seq_sum_prefix(s, f, i + 1);
        lemma_seq_sum_take(s, f, i);
    } else {
        assert(s.take(i) == s);
    }
}

/// A resource type with its environments of policies.
#[derive(Debug)]
pub struct Resource {
    pub identifier: Identifier,
    pub environments: Vec<Environment>,
}

/// One resource, by type and id, with its environments of policies.
#[derive(Debug)]
pub struct AttributedResource {
    pub identifier: Identifier,
    pub id: String,
    pub environments: Vec<Environment>,
}

impl Resource {
    pub fn new(identifier: Identifier, environments: Vec<Environment>) -> (r: Resource)
        requires
            envs_wf(environments@),
        ensures
            r.identifier == identifier,
            r.environments == environments,
    {
        Resource { identifier, environments }
    }

    pub open spec fn wf(&self) -> bool {
        envs_wf(self.environments@)
    }

    /// The policies of the resource, by environment name.
    pub open spec fn env_map(&self) -> Map<Seq<char>, Seq<PolicyView>> {
        envs_map(self.environments@)
    }

    pub fn identifier(&self) -> (r: &Identifier)
        ensures
            r == &self.identifier,
    {
        &self.identifier
    }

    pub fn environments(&self) -> (r: &Vec<Environment>)
        ensures
            r == &self.environments,
    {
        &self.environments
    }

    /// Adds an environment to the resource; if one of the same name exists, the policies are
    /// appended to it.
    pub fn add_environment(&mut self, environment: Environment)
        requires
            old(self).wf(),
        ensures
            final(self).wf(),
            final(self).identifier == old(self).identifier,
            final(self).env_map() == add_env_to_map(old(self).env_map(), env_name(environment), env_policies(environment)),
            envs_total(final(self).environments@) == envs_total(old(self).environments@) + environment.policies@.len(),
    {
        add_env(&mut self.environments, environment);
    }

    /// Merges the environments of another resource into this one; environments of the same
    /// name have their policies merged.
    pub fn merge(&mut self, resource: Resource)
        requires
            old(self).wf(),
            resource.wf(),
        ensures
            final(self).wf(),
            final(self).identifier == old(self).identifier,
            final(self).env_map() == merge_env_maps(old(self).env_map(), resource.env_map()),
            envs_total(final(self).environments@) == envs_total(old(self).environments@) + envs_total(resource.environments@),
    {
        merge_envs(&mut self.environments, resource.environments);
    }

    pub fn default_environment(&self) -> (r: Option<&Environment>)
        requires
            self.wf(),
        ensures
            r matches Some(e) ==> self.env_map().dom().contains(default_env_name()) && env_policies(*e)
                == self.env_map()[default_env_name()],
            r is None ==> !self.env_map().dom().contains(default_env_name()),
    {
        proof {
            reveal_strlit("DEFAULT");
        }
        lookup_env(&self.environments, &DEFAULT_ENV_IDENTIFIER.to_owned())
    }

    pub fn get_environment(&self, env: &str) -> (r: Option<&Environment>)
        requires
            self.wf(),
        ensures
            r matches Some(e) ==> self.env_map().dom().contains(env@) && env_policies(*e)
                == self.env_map()[env@],
            r is None ==> !self.env_map().dom().contains(env@),
    {
        lookup_env(&self.environments, &env.to_owned())
    }

    /// The number of policies in all the environments of the resource.
    pub fn policies_len(&self) -> (r: usize)
        requires
            envs_total(self.environments@) <= usize::MAX,
        ensures
            r == envs_total(self.environments@),
    {
        total_policies(&self.environments)
    }

    /// Reads a resource from a `Resource` token: its type name, then its environments.
    pub fn from_token(token: &Token) -> (r: Result<Resource, Error>)
        requires
            resource_token_shaped(*token),
        ensures
            r matches Ok(res) ==> res.wf(),
            match *token {
                Token::Resource(inner) => {
                    &&& envs_result(inner@.drop_first(), result_map(r, |res: Resource| res.env_map()))
                    &&& r matches Ok(res) ==> res.identifier.0@ == inner@[0]->Identifier_0.0@
                },
                _ => r matches Err(e) && is_invalid_token(e, "Resource"@, *token),
            },
    {
        proof {
            reveal_strlit("Resource");
        }
        let inner = match token.inner_resource() {
            Some(inner) => inner,
            None => {
                return Err(Error::InvalidToken { expected: "Resource", found: token.name() });
            },
        };
        let identifier = match inner[0].inner_identifier() {
            Some(i) => i.clone(),
            None => {
                proof {
                    assert(false);
                }
                return Err(Error::MissingToken);
            },
        };
        proof {
            assert(inner@.skip(1) == inner@.drop_first());
        }
        let environments = build_envs(inner, 1)?;
        Ok(Resource { identifier, environments })
    }
}

impl AttributedResource {
    pub fn new(identifier: Identifier, id: String, environments: Vec<Environment>) -> (r: AttributedResource)
        requires
            envs_wf(environments@),
        ensures
            r.identifier == identifier,
            r.id == id,
            r.environments == environments,
    {
        AttributedResource { identifier, id, environments }
    }

    pub open spec fn wf(&self) -> bool {
        envs_wf(self.environments@)
    }

    /// The policies of the resource, by environment name.
    pub open spec fn env_map(&self) -> Map<Seq<char>, Seq<PolicyView>> {
        envs_map(self.environments@)
    }

    pub fn identifier(&self) -> (r: &Identifier)
        ensures
            r == &self.identifier,
    {
        &self.identifier
    }

    pub fn id(&self) -> (r: &String)
        ensures
            r == &self.id,
    {
        &self.id
    }

    pub fn environments(&self) -> (r: &Vec<Environment>)
        ensures
            r == &self.environments,
    {
        &self.environments
    }

    /// Adds an environment to the resource; if one of the same name exists, the policies are
    /// appended to it.
    pub fn add_environment(&mut self, environment: Environment)
        requires
            old(self).wf(),
        ensures
            final(self).wf(),
            final(self).identifier == old(self).identifier,
            final(self).id == old(self).id,
            final(self).env_map() == add_env_to_map(old(self).env_map(), env_name(environment), env_policies(environment)),
            envs_total(final(self).environments@) == envs_total(old(self).environments@) + environment.policies@.len(),
    {
        add_env(&mut self.environments, environment);
    }

    /// Merges the environments of another resource into this one; environments of the same
    /// name have their policies merged.
    pub fn merge(&mut self, resource: AttributedResource)
        requires
            old(self).wf(),
            resource.wf(),
        ensures
            final(self).wf(),
            final(self).identifier == old(self).identifier,
            final(self).id == old(self).id,
            final(self).env_map() == merge_env_maps(old(self).env_map(), resource.env_map()),
            envs_total(final(self).environments@) == envs_total(old(self).environments@) + envs_total(resource.environments@),
    {
        merge_envs(&mut self.environments, resource.environments);
    }

    pub fn default_environment(&self) -> (r: Option<&Environment>)
        requires
            self.wf(),
        ensures
            r matches Some(e) ==> self.env_map().dom().contains(default_env_name()) && env_policies(*e)
                == self.env_map()[default_env_name()],
            r is None ==> !self.env_map().dom().contains(default_env_name()),
    {
        proof {
            reveal_strlit("DEFAULT");
        }
        lookup_env(&self.environments, &DEFAULT_ENV_IDENTIFIER.to_owned())
    }

    pub fn get_environment(&self, env: &str) -> (r: Option<&Environment>)
        requires
            self.wf(),
        ensures
            r matches Some(e) ==> self.env_map().dom().contains(env@) && env_policies(*e)
                == self.env_map()[env@],
            r is None ==> !self.env_map().dom().contains(env@),
    {
        lookup_env(&self.environments, &env.to_owned())
    }

    /// The number of policies in all the environments of the resource.
    pub fn policies_len(&self) -> (r: usize)
        requires
            envs_total(self.environments@) <= usize::MAX,
        ensures
            r == envs_total(self.environments@),
    {
        total_policies(&self.environments)
    }

    /// Reads a resource from an `AttributedResource` token: its type name, its id, then its
    /// environments.
    pub fn from_token(token: &Token) -> (r: Result<AttributedResource, Error>)
        requires
            attributed_resource_token_shaped(*token),
        ensures
            r matches Ok(res) ==> res.wf(),
            match *token {
                Token::AttributedResource(inner) => {
                    &&& envs_result(inner@.skip(2), result_map(r, |res: AttributedResource| res.env_map()))
                    &&& r matches Ok(res) ==> res.identifier.0@ == inner@[0]->Identifier_0.0@
                        && res.id@ == inner@[1]->String_0@
                },
                _ => r matches Err(e) && is_invalid_token(e, "AttributedResource"@, *token),
            },
    {
        proof {
            reveal_strlit("AttributedResource");
        }
        let inner = match token.inner_attributed_resource() {
            Some(inner) => inner,
            None => {
                return Err(Error::InvalidToken { expected: "AttributedResource", found: token.name() });
            },
        };
        let identifier = match inner[0].inner_identifier() {
            Some(i) => i.clone(),
            None => {
                proof {
                    assert(false);
                }
                return Err(Error::MissingToken);
            },
        };
        let id = match inner[1].inner_str() {
            Some(s) => s.clone(),
            None => {
                proof {
                    assert(false);
                }
                return Err(Error::MissingToken);
            },
        };
        let environments = build_envs(inner, 2)?;
        Ok(AttributedResource { identifier, id, environments })
    }
}

/// A `Resource` token begins with the type name and then holds shaped environment tokens.
pub open spec fn resource_token_shaped(t: Token) -> bool {
    t matches Token::Resource(inner) ==> {
        &&& inner.len() > 0
        &&& inner@[0] is Identifier
        &&& forall|i: int| 1 <= i < inner.len() ==> env_token_shaped(#[trigger] inner@[i])
    }
}

/// An `AttributedResource` token begins with the type name and the id, and then holds shaped
/// environment tokens.
pub open spec fn attributed_resource_token_shaped(t: Token) -> bool {
    t matches Token::AttributedResource(inner) ==> {
        &&& inner.len() > 1
        &&& inner@[0] is Identifier
        &&& inner@[1] is String
        &&& forall|i: int| 2 <= i < inner.len() ==> env_token_shaped(#[trigger] inner@[i])
    }
}

} // verus!
