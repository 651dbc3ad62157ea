//! Tokens of Minos syntax `0.14`: single-value and list-value requirements over actors.
use vstd::prelude::*;

use crate::text::str_eq;

verus! {

/// A token of a text of syntax `0.14`.
#[derive(Debug)]
pub enum Token {
    File(Vec<Token>),
    Version(FileVersion),
    Env(Vec<Token>),
    Resource(Vec<Token>),
    Rule(Vec<Token>),
    Policy(Vec<Token>),
    Allow(Vec<Token>),
    Array(Array),
    Requirement(Vec<Token>),
    SingleValueRequirement(Vec<Token>),
    ListValueRequirement(Vec<Token>),
    SingleValueAttribute(SingleValueAttribute),
    SingleValueOperator(SingleValueOperator),
    ListValueAttribute(ListValueAttribute),
    ListValueOperator(ListValueOperator),
    Identifier(Indentifier),
    String(String),
    Null,
}

/// The syntax versions of this token set.
#[derive(Debug, Clone, Copy, PartialEq, Eq, Structural)]
pub enum FileVersion {
    V0_14,
}

/// A list of string values.
#[derive(Debug)]
pub struct Array(pub Vec<String>);

/// A bare name.
#[derive(Debug)]
pub struct Indentifier(pub String);

/// The attributes of an actor that hold one value.
#[derive(Debug, Clone, Copy, PartialEq, Eq, Structural)]
pub enum SingleValueAttribute {
    Type,
    Id,
}

/// The attributes of an actor that hold a list of values.
#[derive(Debug, Clone, Copy, PartialEq, Eq, Structural)]
pub enum ListValueAttribute {
    Groups,
    Roles,
}

/// The comparisons of a single value.
#[derive(Debug, Clone, Copy, PartialEq, Eq, Structural)]
pub enum SingleValueOperator {
    Equal,
    Distinct,
}

/// The comparisons of a list of values.
#[derive(Debug, Clone, Copy, PartialEq, Eq, Structural)]
pub enum ListValueOperator {
    Equal,
    Contains,
}

pub open spec fn version_text(v: FileVersion) -> Seq<char> {
    match v {
        FileVersion::V0_14 => "0.14"@,
    }
}

pub open spec fn single_attribute_text(a: SingleValueAttribute) -> Seq<char> {
    match a {
        SingleValueAttribute::Type => "actor.type"@,
        SingleValueAttribute::Id => "actor.id"@,
    }
}

pub open spec fn list_attribute_text(a: ListValueAttribute) -> Seq<char> {
    match a {
        ListValueAttribute::Groups => "actor.groups"@,
        ListValueAttribute::Roles => "actor.roles"@,
    }
}

pub open spec fn single_operator_text(o: SingleValueOperator) -> Seq<char> {
    match o {
        SingleValueOperator::Equal => "="@,
        SingleValueOperator::Distinct => "!="@,
    }
}

pub open spec fn list_operator_text(o: ListValueOperator) -> Seq<char> {
    match o {
        ListValueOperator::Equal => "="@,
        ListValueOperator::Contains => "*="@,
    }
}

impl FileVersion {
    pub fn as_text(&self) -> (r: String)
        ensures
            r@ == version_text(*self),
    {
        match self {
            FileVersion::V0_14 => "0.14".to_owned(),
        }
    }

    /// The version that `s` writes, if it writes one.
    pub fn parse(s: &str) -> (r: Option<FileVersion>)
        ensures
            r matches Some(v) ==> version_text(v) == s@,
            r is None ==> forall|v: FileVersion| version_text(v) != s@,
    {
        if str_eq(s, "0.14") {
            Some(FileVersion::V0_14)
        } else {
            proof {
                assert forall|v: FileVersion| version_text(v) != s@ by {
                    match v {
                        FileVersion::V0_14 => {},
                    }
                }
            }
            None
        }
    }
}

impl SingleValueAttribute {
    pub fn as_text(&self) -> (r: String)
        ensures
            r@ == single_attribute_text(*self),
    {
        match self {
            SingleValueAttribute::Type => "actor.type".to_owned(),
            SingleValueAttribute::Id => "actor.id".to_owned(),
        }
    }

    /// The attribute that `s` names, if it names one.
    pub fn parse(s: &str) -> (r: Option<SingleValueAttribute>)
        ensures
            r matches Some(a) ==> single_attribute_text(a) == s@,
            r is None ==> forall|a: SingleValueAttribute| single_attribute_text(a) != s@,
    {
        if str_eq(s, "actor.type") {
            Some(SingleValueAttribute::Type)
        } else if str_eq(s, "actor.id") {
            Some(SingleValueAttribute::Id)
        } else {
            proof {
                assert forall|a: SingleValueAttribute| single_attribute_text(a) != s@ by {
                    match a {
                        SingleValueAttribute::Type => {},
                        SingleValueAttribute::Id => {},
                    }
                }
            }
            None
        }
    }
}

impl ListValueAttribute {
    pub fn as_text(&self) -> (r: String)
        ensures
            r@ == list_attribute_text(*self),
    {
        match self {
            ListValueAttribute::Groups => "actor.groups".to_owned(),
            ListValueAttribute::Roles => "actor.roles".to_owned(),
        }
    }

    /// The attribute that `s` names, if it names one.
    pub fn parse(s: &str) -> (r: Option<ListValueAttribute>)
        ensures
            r matches Some(a) ==> list_attribute_text(a) == s@,
            r is None ==> forall|a: ListValueAttribute| list_attribute_text(a) != s@,
    {
        if str_eq(s, "actor.groups") {
            Some(ListValueAttribute::Groups)
        } else if str_eq(s, "actor.roles") {
            Some(ListValueAttribute::Roles)
        } else {
            proof {
                assert forall|a: ListValueAttribute| list_attribute_text(a) != s@ by {
                    match a {
                        ListValueAttribute::Groups => {},
                        ListValueAttribute::Roles => {},
                    }
                }
            }
            None
        }
    }
}

impl SingleValueOperator {
    pub fn as_text(&self) -> (r: String)
        ensures
            r@ == single_operator_text(*self),
    {
        match self {
            SingleValueOperator::Equal => "=".to_owned(),
            SingleValueOperator::Distinct => "!=".to_owned(),
        }
    }

    /// The operator that `s` writes, if it writes one.
    pub fn parse(s: &str) -> (r: Option<SingleValueOperator>)
        ensures
            r matches Some(o) ==> single_operator_text(o) == s@,
            r is None ==> forall|o: SingleValueOperator| single_operator_text(o) != s@,
    {
        if str_eq(s, "=") {
            Some(SingleValueOperator::Equal)
        } else if str_eq(s, "!=") {
            Some(SingleValueOperator::Distinct)
        } else {
            proof {
                assert forall|o: SingleValueOperator| single_operator_text(o) != s@ by {
                    match o {
                        SingleValueOperator::Equal => {},
                        SingleValueOperator::Distinct => {},
                    }
                }
            }
            None
        }
    }
}

impl ListValueOperator {
    pub fn as_text(&self) -> (r: String)
        ensures
            r@ == list_operator_text(*self),
    {
        match self {
            ListValueOperator::Equal => "=".to_owned(),
            ListValueOperator::Contains => "*=".to_owned(),
        }
    }

    /// The operator that `s` writes, if it writes one.
    pub fn parse(s: &str) -> (r: Option<ListValueOperator>)
        ensures
            r matches Some(o) ==> list_operator_text(o) == s@,
            r is None ==> forall|o: ListValueOperator| list_operator_text(o) != s@,
    {
        if str_eq(s, "=") {
            Some(ListValueOperator::Equal)
        } else if str_eq(s, "*=") {
            Some(ListValueOperator::Contains)
        } else {
            proof {
                assert forall|o: ListValueOperator| list_operator_text(o) != s@ by {
                    match o {
                        ListValueOperator::Equal => {},
                        ListValueOperator::Contains => {},
                    }
                }
            }
            None
        }
    }
}

/// Each kind is written differently from the others of its type, so a text names at most
/// one of them.
pub proof fn lemma_texts_distinct()
    ensures
        single_attribute_text(SingleValueAttribute::Type) != single_attribute_text(SingleValueAttribute::Id),
        list_attribute_text(ListValueAttribute::Groups) != list_attribute_text(ListValueAttribute::Roles),
        single_operator_text(SingleValueOperator::Equal) != single_operator_text(SingleValueOperator::Distinct),
        list_operator_text(ListValueOperator::Equal) != list_operator_text(ListValueOperator::Contains),
{
    reveal_strlit("actor.type");
    reveal_strlit("actor.id");
    reveal_strlit("actor.groups");
    reveal_strlit("actor.roles");
    reveal_strlit("=");
    reveal_strlit("!=");
    reveal_strlit("*=");
    assert("actor.type"@.len() != "actor.id"@.len());
    assert("actor.groups"@.len() != "actor.roles"@.len());
    assert("="@.len() != "!="@.len());
    assert("="@.len() != "*="@.len());
}

} // verus!
