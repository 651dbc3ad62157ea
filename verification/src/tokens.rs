//! The syntax tree of a Minos text.
use vstd::prelude::*;

use crate::text::str_eq;

verus! {

/// A node of the syntax tree that [`crate::parser::MinosParser`] reads from a text.
#[derive(Debug)]
pub enum Token {
    File(Vec<Token>),
    Version(FileVersion),
    Resource(Vec<Token>),
    AttributedResource(Vec<Token>),
    NamedEnv(Vec<Token>),
    DefaultEnv(Vec<Token>),
    ImplicitDefaultEnv(Vec<Token>),
    Policy(Vec<Token>),
    Allow(Vec<Token>),
    Rule(Vec<Token>),
    Array(Array),
    Requirement(Vec<Token>),
    Assertion(Vec<Token>),
    Negation(Vec<Token>),
    Search(Vec<Token>),
    ActorAttribute(ActorAttribute),
    ResourceAttribute(ResourceAttribute),
    Operator(Operator),
    StringDefinition(Vec<Token>),
    Identifier(Identifier),
    String(String),
    MacroDefinition,
    MacroCall(Vec<Token>),
    Null,
}

/// The content of a [`Token`]: the same tree, with text as characters.
pub enum TokenV {
    File(Seq<TokenV>),
    Version(FileVersion),
    Resource(Seq<TokenV>),
    AttributedResource(Seq<TokenV>),
    NamedEnv(Seq<TokenV>),
    DefaultEnv(Seq<TokenV>),
    ImplicitDefaultEnv(Seq<TokenV>),
    Policy(Seq<TokenV>),
    Allow(Seq<TokenV>),
    Rule(Seq<TokenV>),
    Array(Seq<Seq<char>>),
    Requirement(Seq<TokenV>),
    Assertion(Seq<TokenV>),
    Negation(Seq<TokenV>),
    Search(Seq<TokenV>),
    ActorAttribute(ActorAttribute),
    ResourceAttribute(ResourceAttribute),
    Operator(Operator),
    StringDefinition(Seq<TokenV>),
    Identifier(Seq<char>),
    String(Seq<char>),
    MacroDefinition,
    MacroCall(Seq<TokenV>),
    Null,
}

/// The content of a token.
pub open spec fn token_view(t: Token) -> TokenV
    decreases t,
{
    match t {
        Token::File(v) => TokenV::File(tokens_view(v@)),
        Token::Version(v) => TokenV::Version(v),
        Token::Resource(v) => TokenV::Resource(tokens_view(v@)),
        Token::AttributedResource(v) => TokenV::AttributedResource(tokens_view(v@)),
        Token::NamedEnv(v) => TokenV::NamedEnv(tokens_view(v@)),
        Token::DefaultEnv(v) => TokenV::DefaultEnv(tokens_view(v@)),
        Token::ImplicitDefaultEnv(v) => TokenV::ImplicitDefaultEnv(tokens_view(v@)),
        Token::Policy(v) => TokenV::Policy(tokens_view(v@)),
        Token::Allow(v) => TokenV::Allow(tokens_view(v@)),
        Token::Rule(v) => TokenV::Rule(tokens_view(v@)),
        Token::Array(a) => TokenV::Array(crate::text::strings_view(a.0@)),
        Token::Requirement(v) => TokenV::Requirement(tokens_view(v@)),
        Token::Assertion(v) => TokenV::Assertion(tokens_view(v@)),
        Token::Negation(v) => TokenV::Negation(tokens_view(v@)),
        Token::Search(v) => TokenV::Search(tokens_view(v@)),
        Token::ActorAttribute(a) => TokenV::ActorAttribute(a),
        Token::ResourceAttribute(a) => TokenV::ResourceAttribute(a),
        Token::Operator(o) => TokenV::Operator(o),
        Token::StringDefinition(v) => TokenV::StringDefinition(tokens_view(v@)),
        Token::Identifier(i) => TokenV::Identifier(i.0@),
        Token::String(s) => TokenV::String(s@),
        Token::MacroDefinition => TokenV::MacroDefinition,
        Token::MacroCall(v) => TokenV::MacroCall(tokens_view(v@)),
        Token::Null => TokenV::Null,
    }
}

/// The contents of a list of tokens.
pub open spec fn tokens_view(v: Seq<Token>) -> Seq<TokenV>
    decreases v,
{
    if v.len() == 0 {
        Seq::empty()
    } else {
        tokens_view(v.drop_last()).push(token_view(v.last()))
    }
}

/// The name under which a token is shown in messages.
pub open spec fn token_name(t: Token) -> Seq<char> {
    match t {
        Token::File(_) => "File"@,
        Token::Version(_) => "Version"@,
        Token::Resource(_) => "Resource"@,
        Token::AttributedResource(_) => "AttributedResource"@,
        Token::NamedEnv(_) => "NamedEnv"@,
        Token::DefaultEnv(_) => "DefaultEnv"@,
        Token::ImplicitDefaultEnv(_) => "ImplicitDefaultEnv"@,
        Token::Policy(_) => "Policy"@,
        Token::Allow(_) => "Allow"@,
        Token::Rule(_) => "Rule"@,
        Token::Array(_) => "Array"@,
        Token::Requirement(_) => "Requirement"@,
        Token::Assertion(_) => "Assertion"@,
        Token::Negation(_) => "Negation"@,
        Token::Search(_) => "Search"@,
        Token::ActorAttribute(_) => "ActorAttribute"@,
        Token::ResourceAttribute(_) => "ResourceAttribute"@,
        Token::Operator(_) => "Operator"@,
        Token::StringDefinition(_) => "StringDefinition"@,
        Token::Identifier(_) => "Identifier"@,
        Token::String(_) => "String"@,
        Token::MacroDefinition => "MacroDefinition"@,
        Token::MacroCall(_) => "MacroCall"@,
        Token::Null => "Null"@,
    }
}

impl Token {
    /// The name under which the token is shown in messages.
    pub fn name(&self) -> (r: String)
        ensures
            r@ == token_name(*self),
    {
        proof {
            reveal_strlit("File");
            reveal_strlit("Version");
            reveal_strlit("Resource");
            reveal_strlit("AttributedResource");
            reveal_strlit("NamedEnv");
            reveal_strlit("DefaultEnv");
            reveal_strlit("ImplicitDefaultEnv");
            reveal_strlit("Policy");
            reveal_strlit("Allow");
            reveal_strlit("Rule");
            reveal_strlit("Array");
            reveal_strlit("Requirement");
            reveal_strlit("Assertion");
            reveal_strlit("Negation");
            reveal_strlit("Search");
            reveal_strlit("ActorAttribute");
            reveal_strlit("ResourceAttribute");
            reveal_strlit("Operator");
            reveal_strlit("StringDefinition");
            reveal_strlit("Identifier");
            reveal_strlit("String");
            reveal_strlit("MacroDefinition");
            reveal_strlit("MacroCall");
            reveal_strlit("Null");
        }
        let s = match self {
            Token::File(_) => "File",
            Token::Version(_) => "Version",
            Token::Resource(_) => "Resource",
            Token::AttributedResource(_) => "AttributedResource",
            Token::NamedEnv(_) => "NamedEnv",
            Token::DefaultEnv(_) => "DefaultEnv",
            Token::ImplicitDefaultEnv(_) => "ImplicitDefaultEnv",
            Token::Policy(_) => "Policy",
            Token::Allow(_) => "Allow",
            Token::Rule(_) => "Rule",
            Token::Array(_) => "Array",
            Token::Requirement(_) => "Requirement",
            Token::Assertion(_) => "Assertion",
            Token::Negation(_) => "Negation",
            Token::Search(_) => "Search",
            Token::ActorAttribute(_) => "ActorAttribute",
            Token::ResourceAttribute(_) => "ResourceAttribute",
            Token::Operator(_) => "Operator",
            Token::StringDefinition(_) => "StringDefinition",
            Token::Identifier(_) => "Identifier",
            Token::String(_) => "String",
            Token::MacroDefinition => "MacroDefinition",
            Token::MacroCall(_) => "MacroCall",
            Token::Null => "Null",
        };
        s.to_owned()
    }

    pub fn inner_file(&self) -> (r: Option<&Vec<Token>>)
        ensures
            match *self {
                Token::File(v) => r == Some(&v),
                _ => r is None,
            },
    {
        if let Token::File(inner) = self {
            return Some(inner);
        }
        None
    }

    pub fn inner_version(&self) -> (r: Option<FileVersion>)
        ensures
            match *self {
                Token::Version(v) => r == Some(v),
                _ => r is None,
            },
    {
        if let Token::Version(inner) = self {
            return Some(*inner);
        }
        None
    }

    pub fn inner_env(&self) -> (r: Option<&Vec<Token>>)
        ensures
            match *self {
                Token::NamedEnv(v) => r == Some(&v),
                _ => r is None,
            },
    {
        if let Token::NamedEnv(inner) = self {
            return Some(inner);
        }
        None
    }

    pub fn inner_resource(&self) -> (r: Option<&Vec<Token>>)
        ensures
            match *self {
                Token::Resource(v) => r == Some(&v),
                _ => r is None,
            },
    {
        if let Token::Resource(inner) = self {
            return Some(inner);
        }
        None
    }

    pub fn inner_attributed_resource(&self) -> (r: Option<&Vec<Token>>)
        ensures
            match *self {
                Token::AttributedResource(v) => r == Some(&v),
                _ => r is None,
            },
    {
        if let Token::AttributedResource(inner) = self {
            return Some(inner);
        }
        None
    }

    pub fn inner_rule(&self) -> (r: Option<&Vec<Token>>)
        ensures
            match *self {
                Token::Rule(v) => r == Some(&v),
                _ => r is None,
            },
    {
        if let Token::Rule(inner) = self {
            return Some(inner);
        }
        None
    }

    pub fn inner_policy(&self) -> (r: Option<&Vec<Token>>)
        ensures
            match *self {
                Token::Policy(v) => r == Some(&v),
                _ => r is None,
            },
    {
        if let Token::Policy(inner) = self {
            return Some(inner);
        }
        None
    }

    pub fn inner_allow(&self) -> (r: Option<&Vec<Token>>)
        ensures
            match *self {
                Token::Allow(v) => r == Some(&v),
                _ => r is None,
            },
    {
        if let Token::Allow(inner) = self {
            return Some(inner);
        }
        None
    }

    pub fn inner_array(&self) -> (r: Option<&Array>)
        ensures
            match *self {
                Token::Array(v) => r == Some(&v),
                _ => r is None,
            },
    {
        if let Token::Array(inner) = self {
            return Some(inner);
        }
        None
    }

    pub fn inner_requirement(&self) -> (r: Option<&Vec<Token>>)
        ensures
            match *self {
                Token::Requirement(v) => r == Some(&v),
                _ => r is None,
            },
    {
        if let Token::Requirement(inner) = self {
            return Some(inner);
        }
        None
    }

    pub fn inner_resource_attribute(&self) -> (r: Option<ResourceAttribute>)
        ensures
            match *self {
                Token::ResourceAttribute(v) => r == Some(v),
                _ => r is None,
            },
    {
        if let Token::ResourceAttribute(inner) = self {
            return Some(*inner);
        }
        None
    }

    pub fn inner_identifier(&self) -> (r: Option<&Identifier>)
        ensures
            match *self {
                Token::Identifier(v) => r == Some(&v),
                _ => r is None,
            },
    {
        if let Token::Identifier(inner) = self {
            return Some(inner);
        }
        None
    }

    pub fn inner_str(&self) -> (r: Option<&String>)
        ensures
            match *self {
                Token::String(v) => r == Some(&v),
                _ => r is None,
            },
    {
        if let Token::String(inner) = self {
            return Some(inner);
        }
        None
    }
}

/// The syntax versions of the Minos language.
#[derive(Debug, Clone, Copy, PartialEq, Eq, PartialOrd, Ord, Hash)]
pub enum FileVersion {
    V0_16,
    V0_16M,
}

pub open spec fn file_version_text(v: FileVersion) -> Seq<char> {
    match v {
        FileVersion::V0_16 => "0.16"@,
        FileVersion::V0_16M => "0.16M"@,
    }
}

impl FileVersion {
    /// The version written as in a Minos text.
    pub fn as_text(&self) -> (r: String)
        ensures
            r@ == file_version_text(*self),
    {
        proof {
            reveal_strlit("0.16");
            reveal_strlit("0.16M");
        }
        match self {
            FileVersion::V0_16 => "0.16".to_owned(),
            FileVersion::V0_16M => "0.16M".to_owned(),
        }
    }

    /// The version that `s` writes, if it writes one.
    pub fn parse(s: &str) -> (r: Option<FileVersion>)
        ensures
            r matches Some(v) ==> file_version_text(v) == s@,
            r is None ==> (forall|v: FileVersion| file_version_text(v) != s@),
    {
        proof {
            reveal_strlit("0.16");
            reveal_strlit("0.16M");
        }
        if str_eq(s, "0.16") {
            Some(FileVersion::V0_16)
        } else if str_eq(s, "0.16M") {
            Some(FileVersion::V0_16M)
        } else {
            proof {
                assert forall|v: FileVersion| file_version_text(v) != s@ by {
                    match v {
                        FileVersion::V0_16 => {},
                        FileVersion::V0_16M => {},
                    }
                }
            }
            None
        }
    }
}

/// A list of string values, such as the permissions of a policy.
#[derive(Debug)]
pub struct Array(pub Vec<String>);

/// A name: of a resource type, an environment, or a bare value.
#[derive(Debug)]
pub struct Identifier(pub String);

impl Clone for Identifier {
    fn clone(&self) -> (r: Self)
        ensures
            r == *self,
    {
        Identifier(self.0.clone())
    }
}

impl Identifier {
    pub fn new(s: &str) -> (r: Identifier)
        ensures
            r.0@ == s@,
    {
        Identifier(s.to_owned())
    }

    pub fn as_str(&self) -> (r: &str)
        ensures
            r@ == self.0@,
    {
        self.0.as_str()
    }
}

impl Clone for Array {
    fn clone(&self) -> (r: Self)
        ensures
            r.0@ == self.0@,
    {
        Array(crate::text::clone_strings(&self.0))
    }
}

/// The attributes of an actor that a requirement can read.
#[derive(Debug, Clone, Copy, PartialEq, Eq)]
pub enum ActorAttribute {
    Type,
    Id,
    Groups,
    Roles,
    Status,
}

/// The attributes of a resource that a requirement can read.
#[derive(Debug, Clone, Copy, PartialEq, Eq)]
pub enum ResourceAttribute {
    Id,
    Type,
    Owner,
    Status,
}

/// The comparisons that a requirement makes.
#[derive(Debug, Clone, Copy, PartialEq, Eq)]
pub enum Operator {
    Assertion,
    Negation,
    Search,
}

pub open spec fn actor_attribute_text(a: ActorAttribute) -> Seq<char> {
    match a {
        ActorAttribute::Type => "actor.type"@,
        ActorAttribute::Id => "actor.id"@,
        ActorAttribute::Groups => "actor.groups"@,
        ActorAttribute::Roles => "actor.roles"@,
        ActorAttribute::Status => "actor.status"@,
    }
}

pub open spec fn resource_attribute_text(a: ResourceAttribute) -> Seq<char> {
    match a {
        ResourceAttribute::Id => "resource.id"@,
        ResourceAttribute::Type => "resource.type"@,
        ResourceAttribute::Owner => "resource.owner"@,
        ResourceAttribute::Status => "resource.status"@,
    }
}

pub open spec fn operator_text(o: Operator) -> Seq<char> {
    match o {
        Operator::Assertion => "="@,
        Operator::Negation => "!="@,
        Operator::Search => "*="@,
    }
}

impl ActorAttribute {
    /// The attribute written as in a Minos text.
    pub fn as_text(&self) -> (r: &'static str)
        ensures
            r@ == actor_attribute_text(*self),
    {
        proof {
            reveal_strlit("actor.type");
            reveal_strlit("actor.id");
            reveal_strlit("actor.groups");
            reveal_strlit("actor.roles");
            reveal_strlit("actor.status");
        }
        match self {
            ActorAttribute::Type => "actor.type",
            ActorAttribute::Id => "actor.id",
            ActorAttribute::Groups => "actor.groups",
            ActorAttribute::Roles => "actor.roles",
            ActorAttribute::Status => "actor.status",
        }
    }

    /// The attribute that `s` writes, if it writes one.
    pub fn parse(s: &str) -> (r: Option<ActorAttribute>)
        ensures
            r matches Some(a) ==> actor_attribute_text(a) == s@,
            r is None ==> (forall|a: ActorAttribute| actor_attribute_text(a) != s@),
    {
        let all = [
            ActorAttribute::Type,
            ActorAttribute::Id,
            ActorAttribute::Groups,
            ActorAttribute::Roles,
            ActorAttribute::Status,
        ];
        let mut i: usize = 0;
        while i < 5
            invariant
                0 <= i <= 5,
                all@ == seq![
                    ActorAttribute::Type,
                    ActorAttribute::Id,
                    ActorAttribute::Groups,
                    ActorAttribute::Roles,
                    ActorAttribute::Status,
                ],
                forall|j: int| 0 <= j < i ==> actor_attribute_text(#[trigger] all@[j]) != s@,
            decreases 5 - i,
        {
            let a = all[i];
            if str_eq(a.as_text(), s) {
                return Some(a);
            }
            i = i + 1;
        }
        proof {
            assert forall|a: ActorAttribute| actor_attribute_text(a) != s@ by {
                match a {
                    ActorAttribute::Type => assert(all@[0] == a),
                    ActorAttribute::Id => assert(all@[1] == a),
                    ActorAttribute::Groups => assert(all@[2] == a),
                    ActorAttribute::Roles => assert(all@[3] == a),
                    ActorAttribute::Status => assert(all@[4] == a),
                }
            }
        }
        None
    }
}

impl ResourceAttribute {
    /// The attribute written as in a Minos text.
    pub fn as_text(&self) -> (r: &'static str)
        ensures
            r@ == resource_attribute_text(*self),
    {
        proof {
            reveal_strlit("resource.id");
            reveal_strlit("resource.type");
            reveal_strlit("resource.owner");
            reveal_strlit("resource.status");
        }
        match self {
            ResourceAttribute::Id => "resource.id",
            ResourceAttribute::Type => "resource.type",
            ResourceAttribute::Owner => "resource.owner",
            ResourceAttribute::Status => "resource.status",
        }
    }

    /// The attribute that `s` writes, if it writes one.
    pub fn parse(s: &str) -> (r: Option<ResourceAttribute>)
        ensures
            r matches Some(a) ==> resource_attribute_text(a) == s@,
            r is None ==> (forall|a: ResourceAttribute| resource_attribute_text(a) != s@),
    {
        let all = [
            ResourceAttribute::Id,
            ResourceAttribute::Type,
            ResourceAttribute::Owner,
            ResourceAttribute::Status,
        ];
        let mut i: usize = 0;
        while i < 4
            invariant
                0 <= i <= 4,
                all@ == seq![
                    ResourceAttribute::Id,
                    ResourceAttribute::Type,
                    ResourceAttribute::Owner,
                    ResourceAttribute::Status,
                ],
                forall|j: int| 0 <= j < i ==> resource_attribute_text(#[trigger] all@[j]) != s@,
            decreases 4 - i,
        {
            let a = all[i];
            if str_eq(a.as_text(), s) {
                return Some(a);
            }
            i = i + 1;
        }
        proof {
            assert forall|a: ResourceAttribute| resource_attribute_text(a) != s@ by {
                match a {
                    ResourceAttribute::Id => assert(all@[0] == a),
                    ResourceAttribute::Type => assert(all@[1] == a),
                    ResourceAttribute::Owner => assert(all@[2] == a),
                    ResourceAttribute::Status => assert(all@[3] == a),
                }
            }
        }
        None
    }
}

impl Operator {
    /// The operator written as in a Minos text.
    pub fn as_text(&self) -> (r: &'static str)
        ensures
            r@ == operator_text(*self),
    {
        proof {
            reveal_strlit("=");
            reveal_strlit("!=");
            reveal_strlit("*=");
        }
        match self {
            Operator::Assertion => "=",
            Operator::Negation => "!=",
            Operator::Search => "*=",
        }
    }

    /// The operator that `s` writes, if it writes one.
    pub fn parse(s: &str) -> (r: Option<Operator>)
        ensures
            r matches Some(o) ==> operator_text(o) == s@,
            r is None ==> (forall|o: Operator| operator_text(o) != s@),
    {
        proof {
            reveal_strlit("=");
            reveal_strlit("!=");
            reveal_strlit("*=");
        }
        if str_eq(s, "=") {
            Some(Operator::Assertion)
        } else if str_eq(s, "!=") {
            Some(Operator::Negation)
        } else if str_eq(s, "*=") {
            Some(Operator::Search)
        } else {
            proof {
                assert forall|o: Operator| operator_text(o) != s@ by {
                    match o {
                        Operator::Assertion => {},
                        Operator::Negation => {},
                        Operator::Search => {},
                    }
                }
            }
            None
        }
    }
}

} // verus!
