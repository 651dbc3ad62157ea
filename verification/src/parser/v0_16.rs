//! The grammar of Minos texts of syntax `0.16`, and a reader that follows it.
//!
//! ```text
//! file        := "syntax" "=" VERSION ";" item*
//! item        := "resource" WORD "{" [ "id" "=" STRING ";" ] body "}"
//! body        := env* | policy+
//! env         := "env" WORD "{" policy* "}"
//! policy      := "policy" "{" "allow" "=" array ";" rule* "}"
//! array       := "[" [ STRING ( "," STRING )* [ "," ] ] "]"
//! rule        := "rule" "{" requirement* "}"
//! requirement := ATTRIBUTE ( "=" | "!=" | "*=" ) value ";"
//! value       := ATTRIBUTE | WORD | STRING | array
//! ```
//!
//! An `env` named `DEFAULT` is the default environment; policies written directly in a
//! resource form its implicit default environment.
use vstd::prelude::*;

use crate::language::requirements::requirement_token_shaped;
use crate::language::environment::env_token_shaped;
use crate::language::policy::policy_token_shaped;
use crate::language::rule::rule_token_shaped;
use crate::language::storage::{file_token_shaped, item_token_shaped};
use crate::parser::lexer::{lexemes_view, LexV, Lexeme};
use crate::errors::MinosResult;
use crate::language::storage::Storage;
use crate::parser::{reads_as, MinosParser};
use crate::text::str_eq;
use crate::tokens::{
    token_view, tokens_view, ActorAttribute, Array, FileVersion, Identifier, Operator, ResourceAttribute, Token,
    TokenV,
};

verus! {

/// The lexeme is the word `w`.
pub open spec fn is_word(l: LexV, w: Seq<char>) -> bool {
    l matches LexV::Word(x) && x == w
}

/// The attribute that a word names, as a token.
pub open spec fn word_attribute(w: Seq<char>) -> Option<TokenV> {
    if w == "actor.type"@ {
        Some(TokenV::ActorAttribute(ActorAttribute::Type))
    } else if w == "actor.id"@ {
        Some(TokenV::ActorAttribute(ActorAttribute::Id))
    } else if w == "actor.groups"@ {
        Some(TokenV::ActorAttribute(ActorAttribute::Groups))
    } else if w == "actor.roles"@ {
        Some(TokenV::ActorAttribute(ActorAttribute::Roles))
    } else if w == "actor.status"@ {
        Some(TokenV::ActorAttribute(ActorAttribute::Status))
    } else if w == "resource.id"@ {
        Some(TokenV::ResourceAttribute(ResourceAttribute::Id))
    } else if w == "resource.type"@ {
        Some(TokenV::ResourceAttribute(ResourceAttribute::Type))
    } else if w == "resource.owner"@ {
        Some(TokenV::ResourceAttribute(ResourceAttribute::Owner))
    } else if w == "resource.status"@ {
        Some(TokenV::ResourceAttribute(ResourceAttribute::Status))
    } else {
        None
    }
}

/// Each attribute and version, written as in a Minos text, is read back as itself.
pub proof fn lemma_words_round_trip(a: ActorAttribute, b: ResourceAttribute, v: FileVersion)
    ensures
        word_attribute(crate::tokens::actor_attribute_text(a)) == Some(TokenV::ActorAttribute(a)),
        word_attribute(crate::tokens::resource_attribute_text(b)) == Some(TokenV::ResourceAttribute(b)),
        word_version(crate::tokens::file_version_text(v)) == Some(v),
{
    reveal_strlit("actor.type");
    reveal_strlit("actor.id");
    reveal_strlit("actor.groups");
    reveal_strlit("actor.roles");
    reveal_strlit("actor.status");
    reveal_strlit("resource.id");
    reveal_strlit("resource.type");
    reveal_strlit("resource.owner");
    reveal_strlit("resource.status");
    reveal_strlit("0.16");
    reveal_strlit("0.16M");
    assert("actor.type"@.len() == 10 && "actor.id"@.len() == 8 && "actor.groups"@.len() == 12);
    assert("actor.roles"@.len() == 11 && "actor.status"@.len() == 12 && "resource.id"@.len() == 11);
    assert("resource.type"@.len() == 13 && "resource.owner"@.len() == 14 && "resource.status"@.len() == 15);
    assert("actor.groups"@[6] != "actor.status"@[6]);
    assert("actor.roles"@[0] != "resource.id"@[0]);
    assert("0.16"@.len() != "0.16M"@.len());
}

/// The syntax version that a word names.
pub open spec fn word_version(w: Seq<char>) -> Option<FileVersion> {
    if w == "0.16"@ {
        Some(FileVersion::V0_16)
    } else if w == "0.16M"@ {
        Some(FileVersion::V0_16M)
    } else {
        None
    }
}

/// The operator that a lexeme writes.
pub open spec fn lex_operator(l: LexV) -> Option<Operator> {
    match l {
        LexV::Eq => Some(Operator::Assertion),
        LexV::NotEq => Some(Operator::Negation),
        LexV::SearchEq => Some(Operator::Search),
        _ => None,
    }
}

/// The comparison that a requirement token holds: its operator and its sides.
pub open spec fn comparison_of(t: TokenV) -> Option<(Operator, Seq<TokenV>)> {
    match t {
        TokenV::Requirement(inner) => if inner.len() == 1 {
            match inner[0] {
                TokenV::Assertion(s) => Some((Operator::Assertion, s)),
                TokenV::Negation(s) => Some((Operator::Negation, s)),
                TokenV::Search(s) => Some((Operator::Search, s)),
                _ => None,
            }
        } else {
            None
        },
        _ => None,
    }
}

/// Whether `o` is the operator that the lexeme `l` writes: `=` an assertion, `!=` a negation,
/// `*=` a search.
pub open spec fn written_operator(l: LexV, o: Operator) -> bool {
    &&& l is Eq ==> o is Assertion
    &&& l is NotEq ==> o is Negation
    &&& l is SearchEq ==> o is Search
}

/// The strings of an array, after its `[`, and the position after its `]`.
pub open spec fn p_strings(ls: Seq<LexV>, i: int) -> Option<(Seq<Seq<char>>, int)>
    decreases ls.len() - i,
{
    if i < 0 || i >= ls.len() {
        None
    } else {
        match ls[i] {
            LexV::RBracket => Some((Seq::empty(), i + 1)),
            LexV::Str(s) => if i + 1 >= ls.len() {
                None
            } else {
                match ls[i + 1] {
                    LexV::RBracket => Some((seq![s], i + 2)),
                    LexV::Comma => match p_strings(ls, i + 2) {
                        Some((r, j)) => Some((seq![s] + r, j)),
                        None => None,
                    },
                    _ => None,
                }
            },
            _ => None,
        }
    }
}

/// `array := "[" [ STRING ( "," STRING )* [ "," ] ] "]"`
pub open spec fn p_array(ls: Seq<LexV>, i: int) -> Option<(TokenV, int)> {
    if 0 <= i < ls.len() && ls[i] is LBracket {
        match p_strings(ls, i + 1) {
            Some((a, j)) => Some((TokenV::Array(a), j)),
            None => None,
        }
    } else {
        None
    }
}

/// `value := ATTRIBUTE | WORD | STRING | array`
pub open spec fn p_value(ls: Seq<LexV>, i: int) -> Option<(TokenV, int)> {
    if 0 <= i < ls.len() {
        match ls[i] {
            LexV::Word(w) => match word_attribute(w) {
                Some(a) => Some((a, i + 1)),
                None => Some((TokenV::Identifier(w), i + 1)),
            },
            LexV::Str(s) => Some((TokenV::String(s), i + 1)),
            LexV::LBracket => p_array(ls, i),
            _ => None,
        }
    } else {
        None
    }
}

/// The requirement token of a comparison.
pub open spec fn requirement_of(o: Operator, sides: Seq<TokenV>) -> TokenV {
    match o {
        Operator::Assertion => TokenV::Requirement(seq![TokenV::Assertion(sides)]),
        Operator::Negation => TokenV::Requirement(seq![TokenV::Negation(sides)]),
        Operator::Search => TokenV::Requirement(seq![TokenV::Search(sides)]),
    }
}

/// `requirement := ATTRIBUTE ( "=" | "!=" | "*=" ) value ";"`
pub open spec fn p_requirement(ls: Seq<LexV>, i: int) -> Option<(TokenV, int)> {
    if 0 <= i && i + 1 < ls.len() && ls[i] is Word && word_attribute(ls[i]->Word_0) is Some && lex_operator(
        ls[i + 1],
    ) is Some {
        let a = word_attribute(ls[i]->Word_0)->0;
        let o = lex_operator(ls[i + 1])->0;
        match p_value(ls, i + 2) {
            Some((v, j)) => if 0 <= j < ls.len() && ls[j] is Semi {
                Some((requirement_of(o, seq![a, TokenV::Operator(o), v]), j + 1))
            } else {
                None
            },
            None => None,
        }
    } else {
        None
    }
}

/// `requirement*`, up to the closing `}` (which is left to read).
pub open spec fn p_requirements(ls: Seq<LexV>, i: int) -> Option<(Seq<TokenV>, int)>
    decreases ls.len() - i,
{
    if i < 0 || i >= ls.len() {
        None
    } else if ls[i] is RBrace {
        Some((Seq::empty(), i))
    } else {
        match p_requirement(ls, i) {
            Some((t, j)) => if i < j <= ls.len() {
                match p_requirements(ls, j) {
                    Some((r, k)) => Some((seq![t] + r, k)),
                    None => None,
                }
            } else {
                None
            },
            None => None,
        }
    }
}

/// `rule := "rule" "{" requirement* "}"`
pub open spec fn p_rule(ls: Seq<LexV>, i: int) -> Option<(TokenV, int)> {
    if 0 <= i && i + 1 < ls.len() && is_word(ls[i], "rule"@) && ls[i + 1] is LBrace {
        match p_requirements(ls, i + 2) {
            Some((r, j)) => if 0 <= j < ls.len() && ls[j] is RBrace {
                Some((TokenV::Rule(r), j + 1))
            } else {
                None
            },
            None => None,
        }
    } else {
        None
    }
}

/// `rule*`, up to the closing `}` (which is left to read).
pub open spec fn p_rules(ls: Seq<LexV>, i: int) -> Option<(Seq<TokenV>, int)>
    decreases ls.len() - i,
{
    if i < 0 || i >= ls.len() {
        None
    } else if ls[i] is RBrace {
        Some((Seq::empty(), i))
    } else {
        match p_rule(ls, i) {
            Some((t, j)) => if i < j <= ls.len() {
                match p_rules(ls, j) {
                    Some((r, k)) => Some((seq![t] + r, k)),
                    None => None,
                }
            } else {
                None
            },
            None => None,
        }
    }
}

/// `policy := "policy" "{" "allow" "=" array ";" rule* "}"`
pub open spec fn p_policy(ls: Seq<LexV>, i: int) -> Option<(TokenV, int)> {
    if 0 <= i && i < ls.len() && ls.len() - i > 4 && is_word(ls[i], "policy"@) && ls[i + 1] is LBrace && is_word(
        ls[i + 2],
        "allow"@,
    ) && ls[i + 3] is Eq {
        match p_array(ls, i + 4) {
            Some((a, j)) => if 0 <= j < ls.len() && ls[j] is Semi {
                match p_rules(ls, j + 1) {
                    Some((r, k)) => if 0 <= k < ls.len() && ls[k] is RBrace {
                        Some((TokenV::Policy(seq![TokenV::Allow(seq![a])] + r), k + 1))
                    } else {
                        None
                    },
                    None => None,
                }
            } else {
                None
            },
            None => None,
        }
    } else {
        None
    }
}

/// `policy*`, up to the closing `}` (which is left to read).
pub open spec fn p_policies(ls: Seq<LexV>, i: int) -> Option<(Seq<TokenV>, int)>
    decreases ls.len() - i,
{
    if i < 0 || i >= ls.len() {
        None
    } else if ls[i] is RBrace {
        Some((Seq::empty(), i))
    } else {
        match p_policy(ls, i) {
            Some((t, j)) => if i < j <= ls.len() {
                match p_policies(ls, j) {
                    Some((r, k)) => Some((seq![t] + r, k)),
                    None => None,
                }
            } else {
                None
            },
            None => None,
        }
    }
}

/// `env := "env" WORD "{" policy* "}"`
pub open spec fn p_env(ls: Seq<LexV>, i: int) -> Option<(TokenV, int)> {
    if 0 <= i && i < ls.len() && ls.len() - i > 2 && is_word(ls[i], "env"@) && ls[i + 1] is Word && ls[i + 2] is LBrace {
        let name = ls[i + 1]->Word_0;
        match p_policies(ls, i + 3) {
            Some((ps, j)) => if 0 <= j < ls.len() && ls[j] is RBrace {
                if name == "DEFAULT"@ {
                    Some((TokenV::DefaultEnv(ps), j + 1))
                } else {
                    Some((TokenV::NamedEnv(seq![TokenV::Identifier(name)] + ps), j + 1))
                }
            } else {
                None
            },
            None => None,
        }
    } else {
        None
    }
}

/// `env*`, up to the closing `}` (which is left to read).
pub open spec fn p_envs(ls: Seq<LexV>, i: int) -> Option<(Seq<TokenV>, int)>
    decreases ls.len() - i,
{
    if i < 0 || i >= ls.len() {
        None
    } else if ls[i] is RBrace {
        Some((Seq::empty(), i))
    } else {
        match p_env(ls, i) {
            Some((t, j)) => if i < j <= ls.len() {
                match p_envs(ls, j) {
                    Some((r, k)) => Some((seq![t] + r, k)),
                    None => None,
                }
            } else {
                None
            },
            None => None,
        }
    }
}

/// `body := env* | policy+`: policies written directly form the implicit default environment.
pub open spec fn p_body(ls: Seq<LexV>, i: int) -> Option<(Seq<TokenV>, int)> {
    if 0 <= i < ls.len() && is_word(ls[i], "policy"@) {
        match p_policies(ls, i) {
            Some((ps, j)) => Some((seq![TokenV::ImplicitDefaultEnv(ps)], j)),
            None => None,
        }
    } else {
        p_envs(ls, i)
    }
}

/// The `id = STRING;` that makes a resource an attributed resource.
pub open spec fn has_id_clause(ls: Seq<LexV>, i: int) -> bool {
    0 <= i && i < ls.len() && ls.len() - i > 3 && is_word(ls[i], "id"@) && ls[i + 1] is Eq && ls[i + 2] is Str && ls[i + 3] is Semi
}

/// `item := "resource" WORD "{" [ "id" "=" STRING ";" ] body "}"`
pub open spec fn p_item(ls: Seq<LexV>, i: int) -> Option<(TokenV, int)> {
    if 0 <= i && i < ls.len() && ls.len() - i > 2 && is_word(ls[i], "resource"@) && ls[i + 1] is Word && ls[i + 2] is LBrace {
        let name = TokenV::Identifier(ls[i + 1]->Word_0);
        if has_id_clause(ls, i + 3) {
            let id = TokenV::String(ls[i + 5]->Str_0);
            match p_body(ls, i + 7) {
                Some((envs, j)) => if 0 <= j < ls.len() && ls[j] is RBrace {
                    Some((TokenV::AttributedResource(seq![name, id] + envs), j + 1))
                } else {
                    None
                },
                None => None,
            }
        } else {
            match p_body(ls, i + 3) {
                Some((envs, j)) => if 0 <= j < ls.len() && ls[j] is RBrace {
                    Some((TokenV::Resource(seq![name] + envs), j + 1))
                } else {
                    None
                },
                None => None,
            }
        }
    } else {
        None
    }
}

/// `item*`, up to the end of the text.
pub open spec fn p_items(ls: Seq<LexV>, i: int) -> Option<Seq<TokenV>>
    decreases ls.len() - i,
{
    if i < 0 {
        None
    } else if i >= ls.len() {
        Some(Seq::empty())
    } else {
        match p_item(ls, i) {
            Some((t, j)) => if i < j <= ls.len() {
                match p_items(ls, j) {
                    Some(r) => Some(seq![t] + r),
                    None => None,
                }
            } else {
                None
            },
            None => None,
        }
    }
}

/// `file := "syntax" "=" VERSION ";" item*`, read as a `File` token: the version, the items,
/// and an end marker.
pub open spec fn p_file(ls: Seq<LexV>) -> Option<TokenV> {
    if 4 <= ls.len() && is_word(ls[0], "syntax"@) && ls[1] is Eq && ls[2] is Word && word_version(ls[2]->Word_0)
        is Some && ls[3] is Semi {
        match p_items(ls, 4) {
            Some(items) => Some(
                TokenV::File(seq![TokenV::Version(word_version(ls[2]->Word_0)->0)] + items + seq![TokenV::Null]),
            ),
            None => None,
        }
    } else {
        None
    }
}

pub proof fn lemma_tokens_view(v: Seq<Token>)
    ensures
        tokens_view(v).len() == v.len(),
        forall|k: int| 0 <= k < v.len() ==> #[trigger] tokens_view(v)[k] == token_view(v[k]),
    decreases v.len(),
{
    if v.len() > 0 {
        lemma_tokens_view(v.drop_last());
        assert forall|k: int| 0 <= k < v.len() implies #[trigger] tokens_view(v)[k] == token_view(v[k]) by {
            if k < v.len() - 1 {
                assert(v.drop_last()[k] == v[k]);
            }
        }
    }
}

/// The lexeme at `i` is the word `w`.
pub(crate) fn word_at(ls: &Vec<Lexeme>, i: usize, w: &str) -> (r: bool)
    ensures
        r == (i < ls.len() && is_word(lexemes_view(ls@)[i as int], w@)),
{
    if i < ls.len() {
        match &ls[i] {
            Lexeme::Word(x) => str_eq(x.as_str(), w),
            _ => false,
        }
    } else {
        false
    }
}

pub(crate) fn word_attribute_exec(w: &String) -> (r: Option<Token>)
    ensures
        match word_attribute(w@) {
            Some(t) => r matches Some(x) && token_view(x) == t && (x is ActorAttribute || x is ResourceAttribute),
            None => r is None,
        },
{
    let s = w.as_str();
    if str_eq(s, "actor.type") {
        Some(Token::ActorAttribute(ActorAttribute::Type))
    } else if str_eq(s, "actor.id") {
        Some(Token::ActorAttribute(ActorAttribute::Id))
    } else if str_eq(s, "actor.groups") {
        Some(Token::ActorAttribute(ActorAttribute::Groups))
    } else if str_eq(s, "actor.roles") {
        Some(Token::ActorAttribute(ActorAttribute::Roles))
    } else if str_eq(s, "actor.status") {
        Some(Token::ActorAttribute(ActorAttribute::Status))
    } else if str_eq(s, "resource.id") {
        Some(Token::ResourceAttribute(ResourceAttribute::Id))
    } else if str_eq(s, "resource.type") {
        Some(Token::ResourceAttribute(ResourceAttribute::Type))
    } else if str_eq(s, "resource.owner") {
        Some(Token::ResourceAttribute(ResourceAttribute::Owner))
    } else if str_eq(s, "resource.status") {
        Some(Token::ResourceAttribute(ResourceAttribute::Status))
    } else {
        None
    }
}

pub(crate) fn word_version_exec(w: &String) -> (r: Option<FileVersion>)
    ensures
        r == word_version(w@),
{
    let s = w.as_str();
    if str_eq(s, "0.16") {
        Some(FileVersion::V0_16)
    } else if str_eq(s, "0.16M") {
        Some(FileVersion::V0_16M)
    } else {
        None
    }
}

/// The strings of an array after its `[`.
pub(crate) fn read_strings(ls: &Vec<Lexeme>, i: usize) -> (r: Result<(Vec<String>, usize), usize>)
    ensures
        match p_strings(lexemes_view(ls@), i as int) {
            Some((a, j)) => r matches Ok((v, k)) && crate::text::strings_view(v@) == a && k == j,
            None => r is Err,
        },
    decreases ls.len() - i,
{
    let ghost lv = lexemes_view(ls@);
    if i >= ls.len() {
        return Err(i);
    }
    match &ls[i] {
        Lexeme::RBracket => {
            let v: Vec<String> = Vec::new();
            proof {
                assert(crate::text::strings_view(v@) =~= Seq::<Seq<char>>::empty());
            }
            Ok((v, i + 1))
        },
        Lexeme::Str(s) => {
            if i + 1 >= ls.len() {
                return Err(i + 1);
            }
            match &ls[i + 1] {
                Lexeme::RBracket => {
                    let mut v: Vec<String> = Vec::new();
                    v.push(s.clone());
                    proof {
                        assert(crate::text::strings_view(v@) =~= seq![s@]);
                    }
                    Ok((v, i + 2))
                },
                Lexeme::Comma => {
                    let (mut rest, j) = read_strings(ls, i + 2)?;
                    rest.insert(0, s.clone());
                    proof {
                        let a = (p_strings(lv, i + 2)->0).0;
                        assert(crate::text::strings_view(rest@) =~= seq![s@] + a);
                    }
                    Ok((rest, j))
                },
                _ => Err(i + 1),
            }
        },
        _ => Err(i),
    }
}

pub(crate) fn read_array(ls: &Vec<Lexeme>, i: usize) -> (r: Result<(Token, usize), usize>)
    ensures
        match p_array(lexemes_view(ls@), i as int) {
            Some((t, j)) => r matches Ok((x, k)) && token_view(x) == t && k == j && x is Array,
            None => r is Err,
        },
{
    if i < ls.len() {
        if let Lexeme::LBracket = &ls[i] {
            let (v, j) = read_strings(ls, i + 1)?;
            return Ok((Token::Array(Array(v)), j));
        }
    }
    Err(i)
}

fn read_value(ls: &Vec<Lexeme>, i: usize) -> (r: Result<(Token, usize), usize>)
    ensures
        match p_value(lexemes_view(ls@), i as int) {
            Some((t, j)) => r matches Ok((x, k)) && token_view(x) == t && k == j,
            None => r is Err,
        },
{
    if i >= ls.len() {
        return Err(i);
    }
    match &ls[i] {
        Lexeme::Word(w) => match word_attribute_exec(w) {
            Some(a) => Ok((a, i + 1)),
            None => Ok((Token::Identifier(Identifier(w.clone())), i + 1)),
        },
        Lexeme::Str(s) => Ok((Token::String(s.clone()), i + 1)),
        Lexeme::LBracket => read_array(ls, i),
        _ => Err(i),
    }
}

pub(crate) fn operator_at(ls: &Vec<Lexeme>, i: usize) -> (r: Option<Operator>)
    requires
        i < ls.len(),
    ensures
        r == lex_operator(lexemes_view(ls@)[i as int]),
{
    match &ls[i] {
        Lexeme::Eq => Some(Operator::Assertion),
        Lexeme::NotEq => Some(Operator::Negation),
        Lexeme::SearchEq => Some(Operator::Search),
        _ => None,
    }
}

pub(crate) fn semi_at(ls: &Vec<Lexeme>, j: usize) -> (r: bool)
    ensures
        r == (j < ls.len() && lexemes_view(ls@)[j as int] is Semi),
{
    j < ls.len() && match &ls[j] {
        Lexeme::Semi => true,
        _ => false,
    }
}

pub(crate) fn rbrace_at(ls: &Vec<Lexeme>, j: usize) -> (r: bool)
    ensures
        r == (j < ls.len() && lexemes_view(ls@)[j as int] is RBrace),
{
    j < ls.len() && match &ls[j] {
        Lexeme::RBrace => true,
        _ => false,
    }
}

pub(crate) fn lbrace_at(ls: &Vec<Lexeme>, j: usize) -> (r: bool)
    ensures
        r == (j < ls.len() && lexemes_view(ls@)[j as int] is LBrace),
{
    j < ls.len() && match &ls[j] {
        Lexeme::LBrace => true,
        _ => false,
    }
}

pub(crate) fn eq_at(ls: &Vec<Lexeme>, j: usize) -> (r: bool)
    ensures
        r == (j < ls.len() && lexemes_view(ls@)[j as int] is Eq),
{
    j < ls.len() && match &ls[j] {
        Lexeme::Eq => true,
        _ => false,
    }
}

fn read_requirement(ls: &Vec<Lexeme>, i: usize) -> (r: Result<(Token, usize), usize>)
    ensures
        match p_requirement(lexemes_view(ls@), i as int) {
            Some((t, j)) => r matches Ok((x, k)) && token_view(x) == t && k == j && x is Requirement
                && requirement_token_shaped(x),
            None => r is Err,
        },
{
    let ghost lv = lexemes_view(ls@);
    if i >= ls.len() || ls.len() - i <= 1 {
        return Err(i);
    }
    let attr = match &ls[i] {
        Lexeme::Word(w) => match word_attribute_exec(w) {
            Some(a) => a,
            None => {
                return Err(i);
            },
        },
        _ => {
            return Err(i);
        },
    };
    let op = match operator_at(ls, i + 1) {
        Some(o) => o,
        None => {
            return Err(i + 1);
        },
    };
    let (value, j) = read_value(ls, i + 2)?;
    if !semi_at(ls, j) {
        return Err(j);
    }
    let mut sides: Vec<Token> = Vec::new();
    sides.push(attr);
    sides.push(Token::Operator(op));
    sides.push(value);
    proof {
        lemma_tokens_view(sides@);
        assert(tokens_view(sides@) =~= seq![token_view(sides@[0]), TokenV::Operator(op), token_view(sides@[2])]);
    }
    let kind = match op {
        Operator::Assertion => Token::Assertion(sides),
        Operator::Negation => Token::Negation(sides),
        Operator::Search => Token::Search(sides),
    };
    let mut outer: Vec<Token> = Vec::new();
    outer.push(kind);
    proof {
        lemma_tokens_view(outer@);
        assert(tokens_view(outer@) =~= seq![token_view(outer@[0])]);
    }
    Ok((Token::Requirement(outer), j + 1))
}

pub(crate) fn read_requirements(ls: &Vec<Lexeme>, i: usize) -> (r: Result<(Vec<Token>, usize), usize>)
    ensures
        match p_requirements(lexemes_view(ls@), i as int) {
            Some((ts, j)) => r matches Ok((v, k)) && tokens_view(v@) == ts && k == j && forall|n: int|
                0 <= n < v.len() ==> requirement_token_shaped(#[trigger] v@[n]),
            None => r is Err,
        },
    decreases ls.len() - i,
{
    let ghost lv = lexemes_view(ls@);
    if i >= ls.len() {
        return Err(i);
    }
    if rbrace_at(ls, i) {
        proof {
            lemma_tokens_view(Seq::<Token>::empty());
        }
        return Ok((Vec::new(), i));
    }
    let (t, j) = read_requirement(ls, i)?;
    if !(i < j && j <= ls.len()) {
        return Err(i);
    }
    let (mut rest, k) = read_requirements(ls, j)?;
    let ghost old_rest = rest@;
    rest.insert(0, t);
    proof {
        lemma_tokens_view(rest@);
        lemma_tokens_view(old_rest);
        assert(tokens_view(rest@) =~= seq![token_view(t)] + tokens_view(old_rest));
        assert forall|n: int| 0 <= n < rest.len() implies requirement_token_shaped(#[trigger] rest@[n]) by {
            if n > 0 {
                assert(rest@[n] == old_rest[n - 1]);
            }
        }
    }
    Ok((rest, k))
}

fn read_rule(ls: &Vec<Lexeme>, i: usize) -> (r: Result<(Token, usize), usize>)
    ensures
        match p_rule(lexemes_view(ls@), i as int) {
            Some((t, j)) => r matches Ok((x, k)) && token_view(x) == t && k == j && x is Rule && rule_token_shaped(x),
            None => r is Err,
        },
{
    if !(word_at(ls, i, "rule") && lbrace_at(ls, i + 1)) {
        return Err(i);
    }
    let (reqs, j) = read_requirements(ls, i + 2)?;
    if !rbrace_at(ls, j) {
        return Err(j);
    }
    Ok((Token::Rule(reqs), j + 1))
}

fn read_rules(ls: &Vec<Lexeme>, i: usize) -> (r: Result<(Vec<Token>, usize), usize>)
    ensures
        match p_rules(lexemes_view(ls@), i as int) {
            Some((ts, j)) => r matches Ok((v, k)) && tokens_view(v@) == ts && k == j && forall|n: int|
                0 <= n < v.len() ==> (#[trigger] v@[n]) is Rule && rule_token_shaped(v@[n]),
            None => r is Err,
        },
    decreases ls.len() - i,
{
    if i >= ls.len() {
        return Err(i);
    }
    if rbrace_at(ls, i) {
        proof {
            lemma_tokens_view(Seq::<Token>::empty());
        }
        return Ok((Vec::new(), i));
    }
    let (t, j) = read_rule(ls, i)?;
    if !(i < j && j <= ls.len()) {
        return Err(i);
    }
    let (mut rest, k) = read_rules(ls, j)?;
    let ghost old_rest = rest@;
    rest.insert(0, t);
    proof {
        lemma_tokens_view(rest@);
        lemma_tokens_view(old_rest);
        assert(tokens_view(rest@) =~= seq![token_view(t)] + tokens_view(old_rest));
        assert forall|n: int| 0 <= n < rest.len() implies (#[trigger] rest@[n]) is Rule && rule_token_shaped(rest@[n]) by {
            if n > 0 {
                assert(rest@[n] == old_rest[n - 1]);
            }
        }
    }
    Ok((rest, k))
}

fn read_policy(ls: &Vec<Lexeme>, i: usize) -> (r: Result<(Token, usize), usize>)
    ensures
        match p_policy(lexemes_view(ls@), i as int) {
            Some((t, j)) => r matches Ok((x, k)) && token_view(x) == t && k == j && x is Policy
                && policy_token_shaped(x),
            None => r is Err,
        },
{
    if !(i < ls.len() && ls.len() - i > 4 && word_at(ls, i, "policy") && lbrace_at(ls, i + 1) && word_at(ls, i + 2, "allow") && eq_at(
        ls,
        i + 3,
    )) {
        return Err(i);
    }
    let (array, j) = read_array(ls, i + 4)?;
    if !semi_at(ls, j) {
        return Err(j);
    }
    let (rules, k) = read_rules(ls, j + 1)?;
    if !rbrace_at(ls, k) {
        return Err(k);
    }
    let mut allow: Vec<Token> = Vec::new();
    allow.push(array);
    proof {
        lemma_tokens_view(allow@);
        assert(tokens_view(allow@) =~= seq![token_view(allow@[0])]);
    }
    let mut inner: Vec<Token> = Vec::new();
    inner.push(Token::Allow(allow));
    let ghost rules_v = rules@;
    let mut rules = rules;
    inner.append(&mut rules);
    proof {
        lemma_tokens_view(inner@);
        lemma_tokens_view(rules_v);
        assert(tokens_view(inner@) =~= seq![token_view(inner@[0])] + tokens_view(rules_v));
        assert forall|n: int| 1 <= n < inner.len() implies rule_token_shaped(#[trigger] inner@[n]) by {
            assert(inner@[n] == rules_v[n - 1]);
        }
    }
    Ok((Token::Policy(inner), k + 1))
}

fn read_policies(ls: &Vec<Lexeme>, i: usize) -> (r: Result<(Vec<Token>, usize), usize>)
    ensures
        match p_policies(lexemes_view(ls@), i as int) {
            Some((ts, j)) => r matches Ok((v, k)) && tokens_view(v@) == ts && k == j && forall|n: int|
                0 <= n < v.len() ==> policy_token_shaped(#[trigger] v@[n]),
            None => r is Err,
        },
    decreases ls.len() - i,
{
    if i >= ls.len() {
        return Err(i);
    }
    if rbrace_at(ls, i) {
        proof {
            lemma_tokens_view(Seq::<Token>::empty());
        }
        return Ok((Vec::new(), i));
    }
    let (t, j) = read_policy(ls, i)?;
    if !(i < j && j <= ls.len()) {
        return Err(i);
    }
    let (mut rest, k) = read_policies(ls, j)?;
    let ghost old_rest = rest@;
    rest.insert(0, t);
    proof {
        lemma_tokens_view(rest@);
        lemma_tokens_view(old_rest);
        assert(tokens_view(rest@) =~= seq![token_view(t)] + tokens_view(old_rest));
        assert forall|n: int| 0 <= n < rest.len() implies policy_token_shaped(#[trigger] rest@[n]) by {
            if n > 0 {
                assert(rest@[n] == old_rest[n - 1]);
            }
        }
    }
    Ok((rest, k))
}

fn read_env(ls: &Vec<Lexeme>, i: usize) -> (r: Result<(Token, usize), usize>)
    ensures
        match p_env(lexemes_view(ls@), i as int) {
            Some((t, j)) => r matches Ok((x, k)) && token_view(x) == t && k == j && env_token_shaped(x)
                && (x is NamedEnv || x is DefaultEnv),
            None => r is Err,
        },
{
    if !(i < ls.len() && ls.len() - i > 2 && word_at(ls, i, "env") && lbrace_at(ls, i + 2)) {
        return Err(i);
    }
    let name = match &ls[i + 1] {
        Lexeme::Word(w) => w.clone(),
        _ => {
            return Err(i + 1);
        },
    };
    let (policies, j) = read_policies(ls, i + 3)?;
    if !rbrace_at(ls, j) {
        return Err(j);
    }
    if str_eq(name.as_str(), "DEFAULT") {
        Ok((Token::DefaultEnv(policies), j + 1))
    } else {
        let mut inner: Vec<Token> = Vec::new();
        inner.push(Token::Identifier(Identifier(name)));
        let ghost ps = policies@;
        let mut policies = policies;
        inner.append(&mut policies);
        proof {
            lemma_tokens_view(inner@);
            lemma_tokens_view(ps);
            assert(tokens_view(inner@) =~= seq![token_view(inner@[0])] + tokens_view(ps));
            assert forall|n: int| 1 <= n < inner.len() implies policy_token_shaped(#[trigger] inner@[n]) by {
                assert(inner@[n] == ps[n - 1]);
            }
        }
        Ok((Token::NamedEnv(inner), j + 1))
    }
}

fn read_envs(ls: &Vec<Lexeme>, i: usize) -> (r: Result<(Vec<Token>, usize), usize>)
    ensures
        match p_envs(lexemes_view(ls@), i as int) {
            Some((ts, j)) => r matches Ok((v, k)) && tokens_view(v@) == ts && k == j && forall|n: int|
                0 <= n < v.len() ==> env_token_shaped(#[trigger] v@[n]),
            None => r is Err,
        },
    decreases ls.len() - i,
{
    if i >= ls.len() {
        return Err(i);
    }
    if rbrace_at(ls, i) {
        proof {
            lemma_tokens_view(Seq::<Token>::empty());
        }
        return Ok((Vec::new(), i));
    }
    let (t, j) = read_env(ls, i)?;
    if !(i < j && j <= ls.len()) {
        return Err(i);
    }
    let (mut rest, k) = read_envs(ls, j)?;
    let ghost old_rest = rest@;
    rest.insert(0, t);
    proof {
        lemma_tokens_view(rest@);
        lemma_tokens_view(old_rest);
        assert(tokens_view(rest@) =~= seq![token_view(t)] + tokens_view(old_rest));
        assert forall|n: int| 0 <= n < rest.len() implies env_token_shaped(#[trigger] rest@[n]) by {
            if n > 0 {
                assert(rest@[n] == old_rest[n - 1]);
            }
        }
    }
    Ok((rest, k))
}

fn read_body(ls: &Vec<Lexeme>, i: usize) -> (r: Result<(Vec<Token>, usize), usize>)
    ensures
        match p_body(lexemes_view(ls@), i as int) {
            Some((ts, j)) => r matches Ok((v, k)) && tokens_view(v@) == ts && k == j && forall|n: int|
                0 <= n < v.len() ==> env_token_shaped(#[trigger] v@[n]),
            None => r is Err,
        },
{
    if word_at(ls, i, "policy") {
        let (policies, j) = read_policies(ls, i)?;
        let mut v: Vec<Token> = Vec::new();
        v.push(Token::ImplicitDefaultEnv(policies));
        proof {
            lemma_tokens_view(v@);
            assert(tokens_view(v@) =~= seq![token_view(v@[0])]);
        }
        Ok((v, j))
    } else {
        read_envs(ls, i)
    }
}

pub(crate) fn id_clause_at(ls: &Vec<Lexeme>, i: usize) -> (r: Option<String>)
    ensures
        has_id_clause(lexemes_view(ls@), i as int) ==> (r matches Some(s) && s@ == lexemes_view(ls@)[i + 2]->Str_0),
        !has_id_clause(lexemes_view(ls@), i as int) ==> r is None,
{
    if i < ls.len() && ls.len() - i > 3 && word_at(ls, i, "id") && eq_at(ls, i + 1) && semi_at(ls, i + 3) {
        if let Lexeme::Str(s) = &ls[i + 2] {
            return Some(s.clone());
        }
    }
    None
}

fn read_item(ls: &Vec<Lexeme>, i: usize) -> (r: Result<(Token, usize), usize>)
    ensures
        match p_item(lexemes_view(ls@), i as int) {
            Some((t, j)) => r matches Ok((x, k)) && token_view(x) == t && k == j && item_token_shaped(x),
            None => r is Err,
        },
{
    if !(i < ls.len() && ls.len() - i > 2 && word_at(ls, i, "resource") && lbrace_at(ls, i + 2)) {
        return Err(i);
    }
    let name = match &ls[i + 1] {
        Lexeme::Word(w) => w.clone(),
        _ => {
            return Err(i + 1);
        },
    };
    match id_clause_at(ls, i + 3) {
        Some(id) => {
            let (envs, j) = read_body(ls, i + 7)?;
            if !rbrace_at(ls, j) {
                return Err(j);
            }
            let mut inner: Vec<Token> = Vec::new();
            inner.push(Token::Identifier(Identifier(name)));
            inner.push(Token::String(id));
            let ghost es = envs@;
            let mut envs = envs;
            inner.append(&mut envs);
            proof {
                lemma_tokens_view(inner@);
                lemma_tokens_view(es);
                assert(tokens_view(inner@) =~= seq![token_view(inner@[0]), token_view(inner@[1])] + tokens_view(es));
                assert forall|n: int| 2 <= n < inner.len() implies env_token_shaped(#[trigger] inner@[n]) by {
                    assert(inner@[n] == es[n - 2]);
                }
            }
            Ok((Token::AttributedResource(inner), j + 1))
        },
        None => {
            let (envs, j) = read_body(ls, i + 3)?;
            if !rbrace_at(ls, j) {
                return Err(j);
            }
            let mut inner: Vec<Token> = Vec::new();
            inner.push(Token::Identifier(Identifier(name)));
            let ghost es = envs@;
            let mut envs = envs;
            inner.append(&mut envs);
            proof {
                lemma_tokens_view(inner@);
                lemma_tokens_view(es);
                assert(tokens_view(inner@) =~= seq![token_view(inner@[0])] + tokens_view(es));
                assert forall|n: int| 1 <= n < inner.len() implies env_token_shaped(#[trigger] inner@[n]) by {
                    assert(inner@[n] == es[n - 1]);
                }
            }
            Ok((Token::Resource(inner), j + 1))
        },
    }
}

fn read_items(ls: &Vec<Lexeme>, i: usize) -> (r: Result<Vec<Token>, usize>)
    ensures
        match p_items(lexemes_view(ls@), i as int) {
            Some(ts) => r matches Ok(v) && tokens_view(v@) == ts && forall|n: int|
                0 <= n < v.len() ==> item_token_shaped(#[trigger] v@[n]),
            None => r is Err,
        },
    decreases ls.len() - i,
{
    if i >= ls.len() {
        proof {
            lemma_tokens_view(Seq::<Token>::empty());
        }
        return Ok(Vec::new());
    }
    let (t, j) = read_item(ls, i)?;
    if !(i < j && j <= ls.len()) {
        return Err(i);
    }
    let mut rest = read_items(ls, j)?;
    let ghost old_rest = rest@;
    rest.insert(0, t);
    proof {
        lemma_tokens_view(rest@);
        lemma_tokens_view(old_rest);
        assert(tokens_view(rest@) =~= seq![token_view(t)] + tokens_view(old_rest));
        assert forall|n: int| 0 <= n < rest.len() implies item_token_shaped(#[trigger] rest@[n]) by {
            if n > 0 {
                assert(rest@[n] == old_rest[n - 1]);
            }
        }
    }
    Ok(rest)
}

/// Reads the `File` token of a list of lexemes, or the index of the lexeme at which the
/// grammar is broken.
pub fn read_file(ls: &Vec<Lexeme>) -> (r: Result<Token, usize>)
    ensures
        match p_file(lexemes_view(ls@)) {
            Some(t) => r matches Ok(x) && token_view(x) == t && file_token_shaped(x),
            None => r is Err,
        },
{
    if !(4 <= ls.len() && word_at(ls, 0, "syntax") && eq_at(ls, 1) && semi_at(ls, 3)) {
        return Err(0);
    }
    let version = match &ls[2] {
        Lexeme::Word(w) => match word_version_exec(w) {
            Some(v) => v,
            None => {
                return Err(2);
            },
        },
        _ => {
            return Err(2);
        },
    };
    let items = read_items(ls, 4)?;
    let mut inner: Vec<Token> = Vec::new();
    inner.push(Token::Version(version));
    let ghost is = items@;
    let mut items = items;
    inner.append(&mut items);
    inner.push(Token::Null);
    proof {
        lemma_tokens_view(inner@);
        lemma_tokens_view(is);
        assert(tokens_view(inner@) =~= seq![TokenV::Version(version)] + tokens_view(is) + seq![TokenV::Null]);
        assert forall|n: int| 1 <= n < inner.len() - 1 implies item_token_shaped(#[trigger] inner@[n]) by {
            assert(inner@[n] == is[n - 1]);
        }
    }
    Ok(Token::File(inner))
}

/// Reads Minos texts of syntax `0.16`.
#[derive(Debug)]
pub struct MinosParserV0_16;

impl MinosParserV0_16 {
    /// Reads a text of syntax `0.16` into a storage.
    pub fn parse_file_content(content: &str) -> (r: MinosResult<Storage>)
        ensures
            reads_as(FileVersion::V0_16, content@, r),
    {
        MinosParser::parse_str(FileVersion::V0_16, content)
    }
}

/// A requirement reads as the comparison that its operator writes: `=` an assertion, `!=`
/// a negation and `*=` a search, with the written operator between the attribute and the
/// value.
pub proof fn lemma_requirement_operator(ls: Seq<LexV>, i: int)
    ensures
        p_requirement(ls, i) matches Some((t, j)) ==> (comparison_of(t) matches Some((o, sides)) && sides.len() == 3
            && sides[1] == TokenV::Operator(o) && written_operator(ls[i + 1], o)),
{
}

} // verus!

