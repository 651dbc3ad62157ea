//! Requirements: the single comparisons that make up a rule.
use vstd::prelude::*;

use crate::engine::actor::{actor_attribute_value, Actor};
use crate::engine::resource::{resource_attribute_value, Resource};
use crate::errors::{result_map, Error};
use crate::text::{seq_has, strings_contain, strings_eq, strings_view};
use crate::tokens::{token_name, ActorAttribute, Array, Identifier, Operator, ResourceAttribute, Token};

verus! {

/// A value written in a requirement, or read from an actor or a resource.
#[derive(Debug)]
pub enum Value {
    String(String),
    Array(Array),
    Identifier(Identifier),
}

/// The content of a [`Value`].
pub enum ValueView {
    Str(Seq<char>),
    List(Seq<Seq<char>>),
    Ident(Seq<char>),
}

impl View for Value {
    type V = ValueView;

    open spec fn view(&self) -> ValueView {
        match self {
            Value::String(s) => ValueView::Str(s@),
            Value::Array(a) => ValueView::List(strings_view(a.0@)),
            Value::Identifier(i) => ValueView::Ident(i.0@),
        }
    }
}

impl Value {
    pub fn clone_value(&self) -> (r: Value)
        ensures
            r@ == self@,
    {
        match self {
            Value::String(s) => Value::String(s.clone()),
            Value::Array(a) => Value::Array(a.clone()),
            Value::Identifier(i) => Value::Identifier(i.clone()),
        }
    }
}

/// Whether two values have the same content.
pub fn value_eq(a: &Value, b: &Value) -> (r: bool)
    ensures
        r == (a@ == b@),
{
    match (a, b) {
        (Value::String(x), Value::String(y)) => *x == *y,
        (Value::Identifier(x), Value::Identifier(y)) => x.0 == y.0,
        (Value::Array(x), Value::Array(y)) => strings_eq(&x.0, &y.0),
        _ => false,
    }
}

/// Whether two optional values have the same content.
pub fn opt_value_eq(a: &Option<Value>, b: &Option<Value>) -> (r: bool)
    ensures
        r == (opt_view(*a) == opt_view(*b)),
{
    match (a, b) {
        (Some(x), Some(y)) => value_eq(x, y),
        (None, None) => true,
        _ => false,
    }
}

pub open spec fn opt_view(v: Option<Value>) -> Option<ValueView> {
    match v {
        Some(x) => Some(x@),
        None => None,
    }
}

/// The attribute on the left of a requirement.
#[derive(Debug, Copy, Clone, PartialEq, Eq)]
pub enum Attribute {
    Actor(ActorAttribute),
    Resource(ResourceAttribute),
}

/// The right side of a requirement: another attribute or a written value.
#[derive(Debug)]
pub enum ComparableValue {
    Attribute(Attribute),
    Value(Value),
}

pub enum ComparableView {
    Attr(Attribute),
    Val(ValueView),
}

impl View for ComparableValue {
    type V = ComparableView;

    open spec fn view(&self) -> ComparableView {
        match self {
            ComparableValue::Attribute(a) => ComparableView::Attr(*a),
            ComparableValue::Value(v) => ComparableView::Val(v@),
        }
    }
}

/// The value of an attribute for the given actor and resource.
pub open spec fn attribute_value(attr: Attribute, actor: Actor, res: Resource) -> Option<ValueView> {
    match attr {
        Attribute::Actor(a) => actor_attribute_value(actor, a),
        Attribute::Resource(a) => resource_attribute_value(res, a),
    }
}

/// Equality of the two sides of `left = right`, where the comparison is allowed:
/// an actor attribute with a resource attribute, or an attribute with a written value.
pub open spec fn equality_outcome(
    left: Attribute,
    right: ComparableView,
    actor: Actor,
    res: Resource,
) -> Option<bool> {
    match (left, right) {
        (Attribute::Actor(l), ComparableView::Attr(Attribute::Resource(r))) => Some(
            actor_attribute_value(actor, l) == resource_attribute_value(res, r),
        ),
        (Attribute::Resource(l), ComparableView::Attr(Attribute::Actor(r))) => Some(
            actor_attribute_value(actor, r) == resource_attribute_value(res, l),
        ),
        (Attribute::Actor(a), ComparableView::Val(v)) => Some(
            actor_attribute_value(actor, a) == Some(v),
        ),
        (Attribute::Resource(a), ComparableView::Val(v)) => Some(
            resource_attribute_value(res, a) == Some(v),
        ),
        _ => None,
    }
}

/// Every value of `wanted` is in `reference`.
pub open spec fn list_within(reference: Seq<Seq<char>>, wanted: Seq<Seq<char>>) -> bool {
    forall|i: int| 0 <= i < wanted.len() ==> seq_has(reference, #[trigger] wanted[i])
}

/// The outcome of `left *= right`: a search in the groups or the roles of the actor.
pub open spec fn search_outcome(
    left: Attribute,
    right: ComparableView,
    actor: Actor,
    res: Resource,
) -> Option<bool> {
    let list = match left {
        Attribute::Actor(ActorAttribute::Groups) => Some(strings_view(actor.groups@)),
        Attribute::Actor(ActorAttribute::Roles) => Some(strings_view(actor.roles@)),
        _ => None,
    };
    match list {
        None => None,
        Some(l) => match right {
            ComparableView::Val(ValueView::List(wanted)) => Some(list_within(l, wanted)),
            ComparableView::Val(ValueView::Str(s)) => Some(seq_has(l, s)),
            ComparableView::Attr(Attribute::Resource(r)) => match resource_attribute_value(res, r) {
                Some(ValueView::Str(s)) => Some(seq_has(l, s)),
                Some(ValueView::Ident(s)) => Some(seq_has(l, s)),
                _ => None,
            },
            _ => None,
        },
    }
}

/// A requirement, read as its operator and its two sides.
pub struct RequirementView {
    pub op: Operator,
    pub left: Attribute,
    pub right: ComparableView,
}

/// The outcome of a requirement: `None` where its sides cannot be compared.
pub open spec fn requirement_outcome(r: RequirementView, actor: Actor, res: Resource) -> Option<bool> {
    match r.op {
        Operator::Assertion => equality_outcome(r.left, r.right, actor, res),
        Operator::Negation => match equality_outcome(r.left, r.right, actor, res) {
            Some(b) => Some(!b),
            None => None,
        },
        Operator::Search => search_outcome(r.left, r.right, actor, res),
    }
}

/// `left = right`.
#[derive(Debug)]
pub struct Assertion {
    pub left: Attribute,
    pub right: ComparableValue,
}

/// `left != right`.
#[derive(Debug)]
pub struct Negation {
    pub left: Attribute,
    pub right: ComparableValue,
}

/// `left *= right`.
#[derive(Debug)]
pub struct Search {
    pub left: Attribute,
    pub right: ComparableValue,
}

/// One comparison of a rule.
#[derive(Debug)]
pub enum Requirement {
    Assertion(Assertion),
    Negation(Negation),
    Search(Search),
}

impl View for Requirement {
    type V = RequirementView;

    open spec fn view(&self) -> RequirementView {
        match self {
            Requirement::Assertion(a) => RequirementView { op: Operator::Assertion, left: a.left, right: a.right@ },
            Requirement::Negation(a) => RequirementView { op: Operator::Negation, left: a.left, right: a.right@ },
            Requirement::Search(a) => RequirementView { op: Operator::Search, left: a.left, right: a.right@ },
        }
    }
}

/// The two sides of `left = right`, when both are given by value and reference to one of the
/// three requirement kinds.
fn compare_sides(left: &Attribute, right: &ComparableValue, actor: &Actor, res: &Resource) -> (r: Option<bool>)
    ensures
        r == equality_outcome(*left, right@, *actor, *res),
{
    match (left, right) {
        (Attribute::Actor(l), ComparableValue::Attribute(Attribute::Resource(rr))) => {
            let a = actor.get_attribute(*l);
            let b = res.get_attribute(*rr);
            Some(opt_value_eq(&a, &b))
        },
        (Attribute::Resource(l), ComparableValue::Attribute(Attribute::Actor(rr))) => {
            let a = actor.get_attribute(*rr);
            let b = res.get_attribute(*l);
            Some(opt_value_eq(&a, &b))
        },
        (Attribute::Actor(a), ComparableValue::Value(v)) => {
            match actor.get_attribute(*a) {
                Some(x) => Some(value_eq(&x, v)),
                None => Some(false),
            }
        },
        (Attribute::Resource(a), ComparableValue::Value(v)) => {
            match res.get_attribute(*a) {
                Some(x) => Some(value_eq(&x, v)),
                None => Some(false),
            }
        },
        _ => None,
    }
}

impl Assertion {
    pub fn new(left: Attribute, right: ComparableValue) -> (r: Assertion)
        ensures
            r.left == left,
            r.right == right,
    {
        Assertion { left, right }
    }

    pub fn left(&self) -> (r: &Attribute)
        ensures
            *r == self.left,
    {
        &self.left
    }

    pub fn right(&self) -> (r: &ComparableValue)
        ensures
            *r == self.right,
    {
        &self.right
    }

    /// Whether the two sides are equal, where the comparison is allowed.
    pub fn apply(&self, actor: &Actor, resource: &Resource) -> (r: Option<bool>)
        ensures
            r == equality_outcome(self.left, self.right@, *actor, *resource),
    {
        compare_sides(&self.left, &self.right, actor, resource)
    }

    /// Reads `left = right` from its three tokens.
    pub fn from_tokens(tokens: &Vec<Token>) -> (r: Result<Assertion, Error>)
        ensures
            sides_result(tokens@, result_map(r, |a: Assertion| (a.left, a.right@))),
    {
        let (left, right) = read_sides(tokens)?;
        Ok(Assertion { left, right })
    }
}

impl Negation {
    pub fn new(left: Attribute, right: ComparableValue) -> (r: Negation)
        ensures
            r.left == left,
            r.right == right,
    {
        Negation { left, right }
    }

    pub fn left(&self) -> (r: &Attribute)
        ensures
            *r == self.left,
    {
        &self.left
    }

    pub fn right(&self) -> (r: &ComparableValue)
        ensures
            *r == self.right,
    {
        &self.right
    }

    /// Whether the two sides differ, where the comparison is allowed.
    pub fn apply(&self, actor: &Actor, resource: &Resource) -> (r: Option<bool>)
        ensures
            r == (match equality_outcome(self.left, self.right@, *actor, *resource) {
                Some(b) => Some(!b),
                None => None,
            }),
    {
        match compare_sides(&self.left, &self.right, actor, resource) {
            Some(b) => Some(!b),
            None => None,
        }
    }

    /// Reads `left != right` from its three tokens.
    pub fn from_tokens(tokens: &Vec<Token>) -> (r: Result<Negation, Error>)
        ensures
            sides_result(tokens@, result_map(r, |a: Negation| (a.left, a.right@))),
    {
        let (left, right) = read_sides(tokens)?;
        Ok(Negation { left, right })
    }
}

impl Search {
    pub fn new(left: Attribute, right: ComparableValue) -> (r: Search)
        ensures
            r.left == left,
            r.right == right,
    {
        Search { left, right }
    }

    pub fn left(&self) -> (r: &Attribute)
        ensures
            *r == self.left,
    {
        &self.left
    }

    pub fn right(&self) -> (r: &ComparableValue)
        ensures
            *r == self.right,
    {
        &self.right
    }

    /// Whether every value of `to_find_values` is in `reference`.
    pub fn find_list_in_list(reference: &Vec<String>, to_find_values: &Array) -> (r: bool)
        ensures
            r == list_within(strings_view(reference@), strings_view(to_find_values.0@)),
    {
        let n = to_find_values.0.len();
        let mut i: usize = 0;
        while i < n
            invariant
                n == to_find_values.0.len(),
                0 <= i <= n,
                forall|j: int| 0 <= j < i ==> seq_has(strings_view(reference@), #[trigger] strings_view(to_find_values.0@)[j]),
            decreases n - i,
        {
            if !strings_contain(reference, &to_find_values.0[i]) {
                assert(!seq_has(strings_view(reference@), strings_view(to_find_values.0@)[i as int]));
                return false;
            }
            i = i + 1;
        }
        true
    }

    /// Whether the searched values are among the groups or the roles of the actor.
    pub fn apply(&self, actor: &Actor, resource: &Resource) -> (r: Option<bool>)
        ensures
            r == search_outcome(self.left, self.right@, *actor, *resource),
    {
        let list = match &self.left {
            Attribute::Actor(ActorAttribute::Groups) => &actor.groups,
            Attribute::Actor(ActorAttribute::Roles) => &actor.roles,
            _ => {
                return None;
            },
        };
        match &self.right {
            ComparableValue::Value(Value::Array(a)) => Some(Self::find_list_in_list(list, a)),
            ComparableValue::Value(Value::String(s)) => Some(strings_contain(list, s)),
            ComparableValue::Attribute(Attribute::Resource(attr)) => {
                match resource.get_attribute(*attr) {
                    Some(Value::String(s)) => Some(strings_contain(list, &s)),
                    Some(Value::Identifier(s)) => Some(strings_contain(list, &s.0)),
                    _ => None,
                }
            },
            _ => None,
        }
    }

    /// Reads `left *= right` from its three tokens.
    pub fn from_tokens(tokens: &Vec<Token>) -> (r: Result<Search, Error>)
        ensures
            sides_result(tokens@, result_map(r, |a: Search| (a.left, a.right@))),
    {
        let (left, right) = read_sides(tokens)?;
        Ok(Search { left, right })
    }
}

impl Requirement {
    /// The outcome of the requirement: `None` where its sides cannot be compared.
    pub fn apply(&self, actor: &Actor, resource: &Resource) -> (r: Option<bool>)
        ensures
            r == requirement_outcome(self@, *actor, *resource),
    {
        match self {
            Requirement::Assertion(a) => a.apply(actor, resource),
            Requirement::Negation(n) => n.apply(actor, resource),
            Requirement::Search(s) => s.apply(actor, resource),
        }
    }

    /// Reads a requirement from a `Requirement` token.
    pub fn from_token(token: &Token) -> (r: Result<Requirement, Error>)
        requires
            requirement_token_shaped(*token),
        ensures
            match *token {
                Token::Requirement(inner) => requirement_result(inner@[0], result_map(r, |q: Requirement| q@)),
                _ => r matches Err(e) && is_invalid_token(e, "Requirement"@, *token),
            },
    {
        proof {
            reveal_strlit("Requirement");
        }
        let inner = match token.inner_requirement() {
            Some(inner) => inner,
            None => {
                return Err(Error::InvalidToken { expected: "Requirement", found: token.name() });
            },
        };
        match &inner[0] {
            Token::Assertion(t) => Ok(Requirement::Assertion(Assertion::from_tokens(t)?)),
            Token::Negation(t) => Ok(Requirement::Negation(Negation::from_tokens(t)?)),
            Token::Search(t) => Ok(Requirement::Search(Search::from_tokens(t)?)),
            _ => {
                proof {
                    assert(false);
                }
                Err(Error::MissingToken)
            },
        }
    }
}

/// A token from which a requirement can be read without running off its shape:
/// a `Requirement` token begins with an assertion, a negation or a search.
pub open spec fn requirement_token_shaped(t: Token) -> bool {
    t matches Token::Requirement(inner) ==> {
        &&& inner.len() > 0
        &&& (inner@[0] is Assertion || inner@[0] is Negation || inner@[0] is Search)
    }
}

/// `e` reports a token of another kind than `expected`.
pub open spec fn is_invalid_token(e: Error, expected: Seq<char>, t: Token) -> bool {
    e matches Error::InvalidToken { expected: x, found } && x@ == expected && found@ == token_name(t)
}

/// The attribute that a token names, if it names one.
pub open spec fn token_attribute(t: Token) -> Option<Attribute> {
    match t {
        Token::ActorAttribute(a) => Some(Attribute::Actor(a)),
        Token::ResourceAttribute(a) => Some(Attribute::Resource(a)),
        _ => None,
    }
}

/// The right side that a token writes, if it writes one.
pub open spec fn token_comparable(t: Token) -> Option<ComparableView> {
    match t {
        Token::ActorAttribute(a) => Some(ComparableView::Attr(Attribute::Actor(a))),
        Token::ResourceAttribute(a) => Some(ComparableView::Attr(Attribute::Resource(a))),
        Token::String(s) => Some(ComparableView::Val(ValueView::Str(s@))),
        Token::Array(a) => Some(ComparableView::Val(ValueView::List(strings_view(a.0@)))),
        Token::Identifier(i) => Some(ComparableView::Val(ValueView::Ident(i.0@))),
        _ => None,
    }
}

/// What reading the two sides of a comparison from `tokens` gives: the attribute of the
/// first token and the right side of the third; the first failure in that order otherwise.
pub open spec fn sides_result(tokens: Seq<Token>, r: Result<(Attribute, ComparableView), Error>) -> bool {
    if tokens.len() == 0 {
        r matches Err(e) && e is MissingToken
    } else if token_attribute(tokens[0]) is None {
        r matches Err(e) && is_invalid_token(e, "ActorAttribute or ResourceAttribute"@, tokens[0])
    } else if tokens.len() < 3 {
        r matches Err(e) && e is MissingToken
    } else if token_comparable(tokens[2]) is None {
        r matches Err(e) && is_invalid_token(
            e,
            "ActorAttribute, ResourceAttribute, String, Array or Identifier"@,
            tokens[2],
        )
    } else {
        r == Ok::<(Attribute, ComparableView), Error>(
            (token_attribute(tokens[0])->0, token_comparable(tokens[2])->0),
        )
    }
}

/// What reading a requirement from the first token of a `Requirement` gives.
pub open spec fn requirement_result(t: Token, r: Result<RequirementView, Error>) -> bool {
    match t {
        Token::Assertion(inner) => sides_result(inner@, result_map(r, |q: RequirementView| (q.left, q.right)))
            && (r matches Ok(q) ==> q.op == Operator::Assertion),
        Token::Negation(inner) => sides_result(inner@, result_map(r, |q: RequirementView| (q.left, q.right)))
            && (r matches Ok(q) ==> q.op == Operator::Negation),
        Token::Search(inner) => sides_result(inner@, result_map(r, |q: RequirementView| (q.left, q.right)))
            && (r matches Ok(q) ==> q.op == Operator::Search),
        _ => false,
    }
}

impl Attribute {
    /// The attribute that a token names.
    pub fn from_token(token: &Token) -> (r: Result<Attribute, Error>)
        ensures
            match token_attribute(*token) {
                Some(a) => r == Ok::<Attribute, Error>(a),
                None => r matches Err(e) && is_invalid_token(e, "ActorAttribute or ResourceAttribute"@, *token),
            },
    {
        match token {
            Token::ActorAttribute(a) => Ok(Attribute::Actor(*a)),
            Token::ResourceAttribute(a) => Ok(Attribute::Resource(*a)),
            _ => Err(Error::InvalidToken { expected: "ActorAttribute or ResourceAttribute", found: token.name() }),
        }
    }
}

impl ComparableValue {
    /// The right side that a token writes.
    pub fn from_token(token: &Token) -> (r: Result<ComparableValue, Error>)
        ensures
            match token_comparable(*token) {
                Some(c) => r matches Ok(v) && v@ == c,
                None => r matches Err(e) && is_invalid_token(
                    e,
                    "ActorAttribute, ResourceAttribute, String, Array or Identifier"@,
                    *token,
                ),
            },
    {
        match token {
            Token::ActorAttribute(a) => Ok(ComparableValue::Attribute(Attribute::Actor(*a))),
            Token::ResourceAttribute(a) => Ok(ComparableValue::Attribute(Attribute::Resource(*a))),
            Token::String(s) => Ok(ComparableValue::Value(Value::String(s.clone()))),
            Token::Array(a) => Ok(ComparableValue::Value(Value::Array(a.clone()))),
            Token::Identifier(i) => Ok(ComparableValue::Value(Value::Identifier(i.clone()))),
            _ => Err(Error::InvalidToken {
                expected: "ActorAttribute, ResourceAttribute, String, Array or Identifier",
                found: token.name(),
            }),
        }
    }
}

/// Reads the attribute of the first token and the right side of the third.
fn read_sides(tokens: &Vec<Token>) -> (r: Result<(Attribute, ComparableValue), Error>)
    ensures
        sides_result(tokens@, result_map(r, |p: (Attribute, ComparableValue)| (p.0, p.1@))),
{
    if tokens.len() == 0 {
        return Err(Error::MissingToken);
    }
    let left = Attribute::from_token(&tokens[0])?;
    if tokens.len() < 3 {
        return Err(Error::MissingToken);
    }
    let right = ComparableValue::from_token(&tokens[2])?;
    Ok((left, right))
}

/// A search of a written list of values in the actor's groups holds exactly when every one
/// of the values is one of the actor's groups; one missing value makes it fail.
pub proof fn lemma_search_groups_needs_every_value(actor: Actor, res: Resource, wanted: Seq<Seq<char>>)
    ensures
        requirement_outcome(
            RequirementView {
                op: Operator::Search,
                left: Attribute::Actor(ActorAttribute::Groups),
                right: ComparableView::Val(ValueView::List(wanted)),
            },
            actor,
            res,
        ) == Some(forall|i: int| 0 <= i < wanted.len() ==> strings_view(actor.groups@).contains(#[trigger] wanted[i])),
{
    lemma_list_within_contains(strings_view(actor.groups@), wanted);
}

/// A search of a written list of values in the actor's roles holds exactly when every one of
/// the values is one of the actor's roles; one missing value makes it fail.
pub proof fn lemma_search_roles_needs_every_value(actor: Actor, res: Resource, wanted: Seq<Seq<char>>)
    ensures
        requirement_outcome(
            RequirementView {
                op: Operator::Search,
                left: Attribute::Actor(ActorAttribute::Roles),
                right: ComparableView::Val(ValueView::List(wanted)),
            },
            actor,
            res,
        ) == Some(forall|i: int| 0 <= i < wanted.len() ==> strings_view(actor.roles@).contains(#[trigger] wanted[i])),
{
    lemma_list_within_contains(strings_view(actor.roles@), wanted);
}

proof fn lemma_list_within_contains(reference: Seq<Seq<char>>, wanted: Seq<Seq<char>>)
    ensures
        list_within(reference, wanted) == forall|i: int|
            0 <= i < wanted.len() ==> reference.contains(#[trigger] wanted[i]),
{
    assert forall|x: Seq<char>| seq_has(reference, x) == reference.contains(x) by {
        if seq_has(reference, x) {
            let k = choose|k: int| 0 <= k < reference.len() && reference[k] == x;
            assert(reference.contains(x));
        }
    }
}

/// A negation holds exactly where the assertion of the same two sides fails, and neither
/// can be decided where the other cannot.
pub proof fn lemma_negation_negates_assertion(left: Attribute, right: ComparableView, actor: Actor, res: Resource)
    ensures
        requirement_outcome(RequirementView { op: Operator::Negation, left, right }, actor, res) == match requirement_outcome(
            RequirementView { op: Operator::Assertion, left, right },
            actor,
            res,
        ) {
            Some(b) => Some(!b),
            None => None::<bool>,
        },
{
}

} // verus!


