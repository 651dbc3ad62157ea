//! Rules: lists of requirements that must all hold.
use vstd::prelude::*;

use crate::engine::actor::Actor;
use crate::engine::resource::Resource;
use crate::errors::{lemma_list_fail, lemma_list_ok, list_result, result_map, Error};
use crate::language::requirements::{
    is_invalid_token, requirement_outcome, requirement_result, requirement_token_shaped, sides_result,
    token_attribute, token_comparable, Requirement, RequirementView,
};
use crate::parser::v0_16::{comparison_of, lemma_tokens_view};
use crate::tokens::{token_view, Operator, Token};

verus! {

/// A conjunction of requirements.
#[derive(Debug)]
pub struct Rule {
    pub requirements: Vec<Requirement>,
}

/// The requirements of a rule, each read as its operator and its sides.
pub open spec fn rule_view(r: Rule) -> Seq<RequirementView> {
    r.requirements@.map_values(|q: Requirement| q@)
}

/// A rule holds when each of its requirements gives `Some(true)`; a requirement whose sides
/// cannot be compared counts as failed.
pub open spec fn rule_holds(reqs: Seq<RequirementView>, actor: Actor, res: Resource) -> bool {
    forall|i: int| 0 <= i < reqs.len() ==> requirement_outcome(#[trigger] reqs[i], actor, res) == Some(true)
}

/// Reading a requirement from this token succeeds.
pub open spec fn requirement_token_ok(t: Token) -> bool {
    match t {
        Token::Requirement(inner) => match inner@[0] {
            Token::Assertion(s) => sides_ok(s@),
            Token::Negation(s) => sides_ok(s@),
            Token::Search(s) => sides_ok(s@),
            _ => false,
        },
        _ => false,
    }
}

pub open spec fn sides_ok(s: Seq<Token>) -> bool {
    s.len() >= 3 && token_attribute(s[0]) is Some && token_comparable(s[2]) is Some
}

/// The requirement read from a token on which reading succeeds.
pub open spec fn requirement_token_view(t: Token) -> RequirementView {
    match t {
        Token::Requirement(inner) => match inner@[0] {
            Token::Assertion(s) => RequirementView {
                op: Operator::Assertion,
                left: token_attribute(s@[0])->0,
                right: token_comparable(s@[2])->0,
            },
            Token::Negation(s) => RequirementView {
                op: Operator::Negation,
                left: token_attribute(s@[0])->0,
                right: token_comparable(s@[2])->0,
            },
            Token::Search(s) => RequirementView {
                op: Operator::Search,
                left: token_attribute(s@[0])->0,
                right: token_comparable(s@[2])->0,
            },
            _ => arbitrary(),
        },
        _ => arbitrary(),
    }
}

/// What reading one requirement token gives.
pub open spec fn requirement_token_result(t: Token, r: Result<RequirementView, Error>) -> bool {
    match t {
        Token::Requirement(inner) => requirement_result(inner@[0], r),
        _ => r matches Err(e) && is_invalid_token(e, "Requirement"@, t),
    }
}

/// The tokens inside a `Rule` token can be read without running off their shape.
pub open spec fn rule_token_shaped(t: Token) -> bool {
    t matches Token::Rule(inner) ==> forall|i: int| 0 <= i < inner.len() ==> requirement_token_shaped(
        #[trigger] inner@[i],
    )
}

/// What reading a list of requirement tokens gives: every requirement when each reads,
/// otherwise the error of the first that does not.
pub open spec fn requirements_result(ts: Seq<Token>, r: Result<Seq<RequirementView>, Error>) -> bool {
    list_result(
        ts,
        |t: Token| requirement_token_ok(t),
        |t: Token| requirement_token_view(t),
        |t: Token, e: Error| requirement_token_result(t, Err(e)),
        r,
    )
}

proof fn lemma_requirements_fail(ts: Seq<Token>, k: int, e: Error)
    requires
        0 <= k < ts.len(),
        !requirement_token_ok(ts[k]),
        forall|i: int| 0 <= i < k ==> requirement_token_ok(#[trigger] ts[i]),
        requirement_token_result(ts[k], Err(e)),
    ensures
        requirements_result(ts, Err(e)),
{
    lemma_list_fail(
        ts,
        |t: Token| requirement_token_ok(t),
        |t: Token| requirement_token_view(t),
        |t: Token, e: Error| requirement_token_result(t, Err(e)),
        k,
        e,
    );
}

proof fn lemma_requirement_read(t: Token, r: Result<RequirementView, Error>)
    requires
        requirement_token_shaped(t),
        t is Requirement,
        requirement_result(t->Requirement_0@[0], r),
    ensures
        requirement_token_result(t, r),
        r is Ok <==> requirement_token_ok(t),
        r matches Ok(v) ==> v == requirement_token_view(t),
{
}

impl Rule {
    pub fn new(requirements: Vec<Requirement>) -> (r: Rule)
        ensures
            r.requirements == requirements,
    {
        Rule { requirements }
    }

    pub fn requirements(&self) -> (r: &Vec<Requirement>)
        ensures
            r == &self.requirements,
    {
        &self.requirements
    }

    /// Whether every requirement of the rule holds for the actor and the resource.
    pub fn apply(&self, actor: &Actor, resource: &Resource) -> (r: bool)
        ensures
            r == rule_holds(rule_view(*self), *actor, *resource),
    {
        let n = self.requirements.len();
        let mut i: usize = 0;
        while i < n
            invariant
                n == self.requirements.len(),
                0 <= i <= n,
                forall|j: int| 0 <= j < i ==> requirement_outcome(#[trigger] rule_view(*self)[j], *actor, *resource) == Some(true),
            decreases n - i,
        {
            let outcome = self.requirements[i].apply(actor, resource);
            let holds = match outcome {
                Some(b) => b,
                None => false,
            };
            if !holds {
                assert(rule_view(*self)[i as int] == self.requirements@[i as int]@);
                return false;
            }
            i = i + 1;
        }
        true
    }

    /// Reads a rule from a `Rule` token.
    pub fn from_token(token: &Token) -> (r: Result<Rule, Error>)
        requires
            rule_token_shaped(*token),
        ensures
            match *token {
                Token::Rule(inner) => requirements_result(inner@, result_map(r, |q: Rule| rule_view(q))),
                _ => r matches Err(e) && is_invalid_token(e, "Rule"@, *token),
            },
    {
        proof {
            reveal_strlit("Rule");
        }
        let inner = match token.inner_rule() {
            Some(inner) => inner,
            None => {
                return Err(Error::InvalidToken { expected: "Rule", found: token.name() });
            },
        };
        let requirements = read_requirements(inner)?;
        Ok(Rule { requirements })
    }
}

/// Reads each token of `ts` as a requirement, stopping at the first error.
pub fn read_requirements(ts: &Vec<Token>) -> (r: Result<Vec<Requirement>, Error>)
    requires
        forall|i: int| 0 <= i < ts.len() ==> requirement_token_shaped(#[trigger] ts@[i]),
    ensures
        requirements_result(ts@, result_map(r, |v: Vec<Requirement>| v@.map_values(|q: Requirement| q@))),
{
    let n = ts.len();
    let mut out: Vec<Requirement> = Vec::new();
    let mut i: usize = 0;
    while i < n
        invariant
            n == ts.len(),
            0 <= i <= n,
            forall|j: int| 0 <= j < ts.len() ==> requirement_token_shaped(#[trigger] ts@[j]),
            forall|j: int| 0 <= j < i ==> requirement_token_ok(#[trigger] ts@[j]),
            out@.len() == i,
            forall|j: int| 0 <= j < i ==> (#[trigger] out@[j])@ == requirement_token_view(ts@[j]),
        decreases n - i,
    {
        let t = &ts[i];
        if t.inner_requirement().is_none() {
            proof {
                reveal_strlit("Requirement");
                assert(!requirement_token_ok(ts@[i as int]));
            }
            let e = Error::InvalidToken { expected: "Requirement", found: t.name() };
            proof {
                lemma_requirements_fail(ts@, i as int, e);
            }
            return Err(e);
        }
        let q = Requirement::from_token(t);
        proof {
            lemma_requirement_read(*t, result_map(q, |q: Requirement| q@));
        }
        match q {
            Ok(q) => {
                out.push(q);
            },
            Err(e) => {
                proof {
                    lemma_requirements_fail(ts@, i as int, e);
                }
                return Err(e);
            },
        }
        i = i + 1;
    }
    proof {
        lemma_list_ok(
            ts@,
            |t: Token| requirement_token_ok(t),
            |t: Token| requirement_token_view(t),
            |t: Token, e: Error| requirement_token_result(t, Err(e)),
            out@.map_values(|q: Requirement| q@),
        );
    }
    Ok(out)
}

/// A requirement token reads as a requirement with the operator of the comparison it holds:
/// an assertion, a negation or a search.
pub proof fn lemma_requirement_token_operator(t: Token)
    requires
        requirement_token_ok(t),
    ensures
        comparison_of(token_view(t)) matches Some((o, s)) ==> requirement_token_view(t).op == o,
{
    if let Token::Requirement(inner) = t {
        lemma_tokens_view(inner@);
    }
}

} // verus!

