//! Environments: named groups of policies inside a resource.
use vstd::prelude::*;

use crate::errors::{lemma_list_fail, lemma_list_ok, lemma_list_result, list_result, result_map, Error};
use crate::language::policy::{
    lemma_policy_read, policy_token_ok, policy_token_result, policy_token_shaped, policy_token_view,
    policy_view, Policy, PolicyView,
};
use crate::language::requirements::is_invalid_token;
use crate::tokens::{Identifier, Token};

verus! {

/// The name of the environment whose policies hold in every environment.
pub const DEFAULT_ENV_IDENTIFIER: &'static str = "DEFAULT";

pub open spec fn default_env_name() -> Seq<char> {
    "DEFAULT"@
}

/// A named list of policies.
#[derive(Debug)]
pub struct Environment {
    pub identifier: Identifier,
    pub policies: Vec<Policy>,
}

/// The policies of an environment, each read as its permissions and rules.
pub open spec fn env_policies(e: Environment) -> Seq<PolicyView> {
    e.policies@.map_values(|p: Policy| policy_view(p))
}

impl Environment {
    pub fn new(identifier: Identifier, policies: Vec<Policy>) -> (r: Environment)
        ensures
            r.identifier == identifier,
            r.policies == policies,
    {
        Environment { identifier, policies }
    }

    pub fn identifier(&self) -> (r: &Identifier)
        ensures
            r == &self.identifier,
    {
        &self.identifier
    }

    pub fn policies(&self) -> (r: &Vec<Policy>)
        ensures
            r == &self.policies,
    {
        &self.policies
    }

    pub fn add_policy(&mut self, policy: Policy)
        ensures
            final(self).identifier == old(self).identifier,
            final(self).policies@ == old(self).policies@.push(policy),
    {
        self.policies.push(policy);
    }

    /// Moves every policy of `policies` to the end of the environment.
    pub fn add_policies(&mut self, policies: &mut Vec<Policy>)
        ensures
            final(self).identifier == old(self).identifier,
            final(self).policies@ == old(self).policies@ + old(policies)@,
            final(policies)@.len() == 0,
    {
        self.policies.append(policies);
    }

    /// Reads a named environment: its name, then its policies.
    fn from_named_env(tokens: &Vec<Token>) -> (r: Result<Environment, Error>)
        requires
            named_env_shaped(tokens@),
        ensures
            policies_result(tokens@.drop_first(), result_map(r, |e: Environment| env_policies(e))),
            r matches Ok(e) ==> e.identifier.0@ == tokens@[0]->Identifier_0.0@,
    {
        let identifier = match tokens[0].inner_identifier() {
            Some(i) => i.clone(),
            None => {
                proof {
                    assert(false);
                }
                return Err(Error::MissingToken);
            },
        };
        proof {
            assert(tokens@.skip(1) == tokens@.drop_first());
        }
        let policies = read_policies(tokens, 1)?;
        Ok(Environment { identifier, policies })
    }

    /// Reads the default environment: every token is a policy.
    fn from_default_env(tokens: &Vec<Token>) -> (r: Result<Environment, Error>)
        requires
            forall|i: int| 0 <= i < tokens.len() ==> policy_token_shaped(#[trigger] tokens@[i]),
        ensures
            policies_result(tokens@, result_map(r, |e: Environment| env_policies(e))),
            r matches Ok(e) ==> e.identifier.0@ == default_env_name(),
    {
        proof {
            reveal_strlit("DEFAULT");
        }
        proof {
            assert(tokens@.skip(0) == tokens@);
        }
        let policies = read_policies(tokens, 0)?;
        Ok(Environment { identifier: Identifier::new(DEFAULT_ENV_IDENTIFIER), policies })
    }

    /// Reads an environment from a `NamedEnv`, `DefaultEnv` or `ImplicitDefaultEnv` token.
    pub fn from_token(token: &Token) -> (r: Result<Environment, Error>)
        requires
            env_token_shaped(*token),
        ensures
            env_token_result(*token, result_map(r, |e: Environment| (e.identifier.0@, env_policies(e)))),
    {
        proof {
            reveal_strlit("NamedEnv, DefaultEnv or ImplicitDefaultEnv");
        }
        match token {
            Token::NamedEnv(inner) => Self::from_named_env(inner),
            Token::DefaultEnv(inner) => Self::from_default_env(inner),
            Token::ImplicitDefaultEnv(inner) => Self::from_default_env(inner),
            _ => Err(Error::InvalidToken {
                expected: "NamedEnv, DefaultEnv or ImplicitDefaultEnv",
                found: token.name(),
            }),
        }
    }
}

/// The tokens of a named environment: its name, then shaped policy tokens.
pub open spec fn named_env_shaped(ts: Seq<Token>) -> bool {
    &&& ts.len() > 0
    &&& ts[0] is Identifier
    &&& forall|i: int| 1 <= i < ts.len() ==> policy_token_shaped(#[trigger] ts[i])
}

/// An environment token can be read without running off its shape.
pub open spec fn env_token_shaped(t: Token) -> bool {
    match t {
        Token::NamedEnv(inner) => named_env_shaped(inner@),
        Token::DefaultEnv(inner) => forall|i: int| 0 <= i < inner.len() ==> policy_token_shaped(#[trigger] inner@[i]),
        Token::ImplicitDefaultEnv(inner) => forall|i: int| 0 <= i < inner.len() ==> policy_token_shaped(#[trigger] inner@[i]),
        _ => true,
    }
}

/// What reading a list of policy tokens gives.
pub open spec fn policies_result(ts: Seq<Token>, r: Result<Seq<PolicyView>, Error>) -> bool {
    list_result(
        ts,
        |t: Token| policy_token_ok(t),
        |t: Token| policy_token_view(t),
        |t: Token, e: Error| policy_token_result(t, Err(e)),
        r,
    )
}

/// An environment read as its name and its policies.
pub type EnvView = (Seq<char>, Seq<PolicyView>);

/// What reading one environment token gives.
pub open spec fn env_token_result(t: Token, r: Result<EnvView, Error>) -> bool {
    match t {
        Token::NamedEnv(inner) => {
            &&& policies_result(inner@.drop_first(), result_map(r, |e: EnvView| e.1))
            &&& r matches Ok(e) ==> e.0 == inner@[0]->Identifier_0.0@
        },
        Token::DefaultEnv(inner) => {
            &&& policies_result(inner@, result_map(r, |e: EnvView| e.1))
            &&& r matches Ok(e) ==> e.0 == default_env_name()
        },
        Token::ImplicitDefaultEnv(inner) => {
            &&& policies_result(inner@, result_map(r, |e: EnvView| e.1))
            &&& r matches Ok(e) ==> e.0 == default_env_name()
        },
        _ => r matches Err(e) && is_invalid_token(e, "NamedEnv, DefaultEnv or ImplicitDefaultEnv"@, t),
    }
}

/// Reading an environment from this token succeeds.
pub open spec fn env_token_ok(t: Token) -> bool {
    match t {
        Token::NamedEnv(inner) => forall|i: int| 1 <= i < inner.len() ==> policy_token_ok(#[trigger] inner@[i]),
        Token::DefaultEnv(inner) => forall|i: int| 0 <= i < inner.len() ==> policy_token_ok(#[trigger] inner@[i]),
        Token::ImplicitDefaultEnv(inner) => forall|i: int| 0 <= i < inner.len() ==> policy_token_ok(#[trigger] inner@[i]),
        _ => false,
    }
}

/// The environment read from a token on which reading succeeds.
pub open spec fn env_token_view(t: Token) -> EnvView {
    match t {
        Token::NamedEnv(inner) => (
            inner@[0]->Identifier_0.0@,
            inner@.drop_first().map_values(|q: Token| policy_token_view(q)),
        ),
        Token::DefaultEnv(inner) => (default_env_name(), inner@.map_values(|q: Token| policy_token_view(q))),
        Token::ImplicitDefaultEnv(inner) => (default_env_name(), inner@.map_values(|q: Token| policy_token_view(q))),
        _ => arbitrary(),
    }
}

proof fn lemma_policies_ok(ts: Seq<Token>, r: Result<Seq<PolicyView>, Error>)
    requires
        policies_result(ts, r),
    ensures
        r is Ok <==> (forall|i: int| 0 <= i < ts.len() ==> policy_token_ok(#[trigger] ts[i])),
        r matches Ok(v) ==> v == ts.map_values(|q: Token| policy_token_view(q)),
{
    lemma_list_result(
        ts,
        |t: Token| policy_token_ok(t),
        |t: Token| policy_token_view(t),
        |t: Token, e: Error| policy_token_result(t, Err(e)),
        r,
    );
    let ok = |t: Token| policy_token_ok(t);
    assert(forall|i: int|
        #![trigger ok(ts[i])]
        #![trigger policy_token_ok(ts[i])]
        0 <= i < ts.len() ==> ok(ts[i]) == policy_token_ok(ts[i]));
}

pub proof fn lemma_env_read(t: Token, r: Result<EnvView, Error>)
    requires
        env_token_shaped(t),
        env_token_result(t, r),
    ensures
        r is Ok <==> env_token_ok(t),
        r matches Ok(v) ==> v == env_token_view(t),
{
    match t {
        Token::NamedEnv(inner) => {
            let ts = inner@.drop_first();
            lemma_policies_ok(ts, result_map(r, |e: EnvView| e.1));
            assert(forall|i: int| 1 <= i < inner.len() ==> #[trigger] inner@[i] == ts[i - 1]);
            if env_token_ok(t) {
                assert forall|i: int| 0 <= i < ts.len() implies policy_token_ok(#[trigger] ts[i]) by {
                    assert(ts[i] == inner@[i + 1]);
                }
            }
        },
        Token::DefaultEnv(inner) => {
            lemma_policies_ok(inner@, result_map(r, |e: EnvView| e.1));
        },
        Token::ImplicitDefaultEnv(inner) => {
            lemma_policies_ok(inner@, result_map(r, |e: EnvView| e.1));
        },
        _ => {},
    }
}

/// Reads every token of `ts` from index `start` on as a policy, stopping at the first error.
fn read_policies(ts: &Vec<Token>, start: usize) -> (r: Result<Vec<Policy>, Error>)
    requires
        start <= ts.len(),
        forall|i: int| start <= i < ts.len() ==> policy_token_shaped(#[trigger] ts@[i]),
    ensures
        policies_result(ts@.skip(start as int), result_map(r, |v: Vec<Policy>| v@.map_values(|p: Policy| policy_view(p)))),
{
    let ghost rest = ts@.skip(start as int);
    let n = ts.len();
    let mut out: Vec<Policy> = Vec::new();
    let mut i: usize = start;
    while i < n
        invariant
            n == ts.len(),
            rest == ts@.skip(start as int),
            start <= i <= n,
            forall|j: int| start <= j < ts.len() ==> policy_token_shaped(#[trigger] ts@[j]),
            forall|j: int| 0 <= j < i - start ==> policy_token_ok(#[trigger] rest[j]),
            out@.len() == i - start,
            forall|j: int| 0 <= j < i - start ==> policy_view(#[trigger] out@[j]) == policy_token_view(rest[j]),
        decreases n - i,
    {
        let t = &ts[i];
        assert(rest[i - start] == ts@[i as int]);
        let q = Policy::from_token(t);
        proof {
            let rv = result_map(q, |p: Policy| policy_view(p));
            assert(policy_token_result(*t, rv));
            lemma_policy_read(*t, rv);
        }
        match q {
            Ok(q) => {
                out.push(q);
            },
            Err(e) => {
                proof {
                    lemma_list_fail(
                        rest,
                        |t: Token| policy_token_ok(t),
                        |t: Token| policy_token_view(t),
                        |t: Token, e: Error| policy_token_result(t, Err(e)),
                        i - start,
                        e,
                    );
                }
                return Err(e);
            },
        }
        i = i + 1;
    }
    proof {
        lemma_list_ok(
            rest,
            |t: Token| policy_token_ok(t),
            |t: Token| policy_token_view(t),
            |t: Token, e: Error| policy_token_result(t, Err(e)),
            out@.map_values(|p: Policy| policy_view(p)),
        );
    }
    Ok(out)
}

} // verus!
