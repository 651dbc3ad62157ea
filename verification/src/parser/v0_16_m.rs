//! The grammar of Minos texts of syntax `0.16M`: syntax `0.16` with macros.
//!
//! ```text
//! file   := "syntax" "=" VERSION ";" ( macro | item )*
//! macro  := "macro" WORD "{" requirement* "}"      (a macro of requirements)
//!         | "macro" WORD "=" array ";"             (a macro of strings)
//! rule   := "rule" "{" ( requirement | WORD ";" )* "}"
//! array  := "[" [ elem ( "," elem )* [ "," ] ] "]"
//! elem   := STRING | WORD
//! ```
//!
//! The other rules are those of syntax `0.16`. A macro is defined before it is called; a
//! later definition of the same name hides an earlier one. A `WORD ;` in a rule calls a macro
//! of requirements, whose requirements take its place; a `WORD` in an array calls a macro,
//! whose strings take its place (a macro of requirements gives no strings). The bodies of
//! macros are written in syntax `0.16` and hold no calls.
use vstd::prelude::*;

use crate::errors::MinosResult;
use crate::language::environment::env_token_shaped;
use crate::language::policy::policy_token_shaped;
use crate::language::requirements::requirement_token_shaped;
use crate::language::rule::rule_token_shaped;
use crate::language::storage::{file_token_shaped, item_token_shaped, Storage};
use crate::parser::lexer::{lexemes_view, LexV, Lexeme};
use crate::parser::v0_16::{
    comparison_of, written_operator,
    p_body, p_env, p_envs, p_file, p_item, p_items, p_policies, p_policy, p_requirement, p_rule, p_rules, p_strings,
    p_value, eq_at, has_id_clause, id_clause_at, is_word, lbrace_at, lemma_tokens_view, lex_operator, operator_at, p_array,
    p_requirements, rbrace_at, read_array, read_requirements, requirement_of, semi_at, word_at, word_attribute,
    word_attribute_exec, word_version,
};
use crate::parser::{reads_as, MinosParser};
use crate::text::str_eq;
use crate::tokens::{token_view, tokens_view, Array, FileVersion, Identifier, Token, TokenV};

verus! {

/// A macro as the grammar sees it: its name, whether it holds strings (else requirements),
/// and the index of the lexeme where its body starts.
pub type MacroDefV = (Seq<char>, bool, int);

/// Why a text of syntax `0.16M` cannot be read.
pub enum MFail {
    /// It breaks the grammar.
    Syntax,
    /// It calls a macro that is not defined before.
    Undefined(Seq<char>),
}

/// The latest macro of that name.
pub open spec fn lookup(defs: Seq<MacroDefV>, name: Seq<char>) -> Option<(bool, int)>
    decreases defs.len(),
{
    if defs.len() == 0 {
        None
    } else if defs.last().0 == name {
        Some((defs.last().1, defs.last().2))
    } else {
        lookup(defs.drop_last(), name)
    }
}

/// The definition that `lookup` finds, with its name.
pub open spec fn found_def(defs: Seq<MacroDefV>, name: Seq<char>) -> MacroDefV {
    match lookup(defs, name) {
        Some((b, st)) => (name, b, st),
        None => (name, false, 0),
    }
}

/// A macro that is found is one of the definitions.
pub proof fn lemma_lookup_found(defs: Seq<MacroDefV>, name: Seq<char>)
    requires
        lookup(defs, name) is Some,
    ensures
        exists|k: int| 0 <= k < defs.len() && #[trigger] defs[k] == found_def(defs, name),
    decreases defs.len(),
{
    if defs.last().0 != name {
        lemma_lookup_found(defs.drop_last(), name);
        let k = choose|k: int| 0 <= k < defs.drop_last().len() && #[trigger] defs.drop_last()[k] == found_def(defs.drop_last(), name);
        assert(defs[k] == defs.drop_last()[k]);
    } else {
        assert(defs[defs.len() - 1] == defs.last());
    }
}

/// The strings of a macro of strings whose body starts at `st`.
pub open spec fn macro_strings(ls: Seq<LexV>, st: int) -> Seq<Seq<char>> {
    match p_array(ls, st) {
        Some((TokenV::Array(a), _)) => a,
        _ => Seq::empty(),
    }
}

/// The requirements of a macro of requirements whose body starts at `st`.
pub open spec fn macro_requirements(ls: Seq<LexV>, st: int) -> Seq<TokenV> {
    match p_requirements(ls, st) {
        Some((r, _)) => r,
        None => Seq::empty(),
    }
}

/// What an element of an array gives: a string, or the strings of a macro.
pub open spec fn m_elem(ls: Seq<LexV>, i: int, defs: Seq<MacroDefV>) -> Result<Seq<Seq<char>>, MFail> {
    match ls[i] {
        LexV::Str(s) => Ok(seq![s]),
        LexV::Word(w) => match lookup(defs, w) {
            None => Err(MFail::Undefined(w)),
            Some((true, st)) => Ok(macro_strings(ls, st)),
            Some((false, _)) => Ok(Seq::empty()),
        },
        _ => Err(MFail::Syntax),
    }
}

/// The strings of an array, after its `[`, and the position after its `]`.
pub open spec fn m_strings(ls: Seq<LexV>, i: int, defs: Seq<MacroDefV>) -> Result<(Seq<Seq<char>>, int), MFail>
    decreases ls.len() - i,
{
    if i < 0 || i >= ls.len() {
        Err(MFail::Syntax)
    } else if ls[i] is RBracket {
        Ok((Seq::empty(), i + 1))
    } else {
        match m_elem(ls, i, defs) {
            Err(f) => Err(f),
            Ok(piece) => if i + 1 >= ls.len() {
                Err(MFail::Syntax)
            } else {
                match ls[i + 1] {
                    LexV::RBracket => Ok((piece, i + 2)),
                    LexV::Comma => match m_strings(ls, i + 2, defs) {
                        Ok((rest, j)) => Ok((piece + rest, j)),
                        Err(f) => Err(f),
                    },
                    _ => Err(MFail::Syntax),
                }
            },
        }
    }
}

/// `array := "[" [ elem ( "," elem )* [ "," ] ] "]"`
pub open spec fn m_array(ls: Seq<LexV>, i: int, defs: Seq<MacroDefV>) -> Result<(TokenV, int), MFail> {
    if 0 <= i < ls.len() && ls[i] is LBracket {
        match m_strings(ls, i + 1, defs) {
            Ok((a, j)) => Ok((TokenV::Array(a), j)),
            Err(f) => Err(f),
        }
    } else {
        Err(MFail::Syntax)
    }
}

/// `value := ATTRIBUTE | WORD | STRING | array`
pub open spec fn m_value(ls: Seq<LexV>, i: int, defs: Seq<MacroDefV>) -> Result<(TokenV, int), MFail> {
    if 0 <= i < ls.len() {
        match ls[i] {
            LexV::Word(w) => match word_attribute(w) {
                Some(a) => Ok((a, i + 1)),
                None => Ok((TokenV::Identifier(w), i + 1)),
            },
            LexV::Str(s) => Ok((TokenV::String(s), i + 1)),
            LexV::LBracket => m_array(ls, i, defs),
            _ => Err(MFail::Syntax),
        }
    } else {
        Err(MFail::Syntax)
    }
}

/// `requirement := ATTRIBUTE ( "=" | "!=" | "*=" ) value ";"`
pub open spec fn m_requirement(ls: Seq<LexV>, i: int, defs: Seq<MacroDefV>) -> Result<(TokenV, int), MFail> {
    if 0 <= i && i + 1 < ls.len() && ls[i] is Word && word_attribute(ls[i]->Word_0) is Some && lex_operator(
        ls[i + 1],
    ) is Some {
        let a = word_attribute(ls[i]->Word_0)->0;
        let o = lex_operator(ls[i + 1])->0;
        match m_value(ls, i + 2, defs) {
            Ok((v, j)) => if 0 <= j < ls.len() && ls[j] is Semi {
                Ok((requirement_of(o, seq![a, TokenV::Operator(o), v]), j + 1))
            } else {
                Err(MFail::Syntax)
            },
            Err(f) => Err(f),
        }
    } else {
        Err(MFail::Syntax)
    }
}

/// A call of a macro in a rule: a word that names no attribute, then `;`.
pub open spec fn is_call(ls: Seq<LexV>, i: int) -> bool {
    0 <= i && i + 1 < ls.len() && ls[i] is Word && word_attribute(ls[i]->Word_0) is None && ls[i + 1] is Semi
}

/// `( requirement | WORD ";" )*`, up to the closing `}` (which is left to read).
pub open spec fn m_rule_items(ls: Seq<LexV>, i: int, defs: Seq<MacroDefV>) -> Result<(Seq<TokenV>, int), MFail>
    decreases ls.len() - i,
{
    if i < 0 || i >= ls.len() {
        Err(MFail::Syntax)
    } else if ls[i] is RBrace {
        Ok((Seq::empty(), i))
    } else if is_call(ls, i) {
        let w = ls[i]->Word_0;
        match lookup(defs, w) {
            None => Err(MFail::Undefined(w)),
            Some((true, _)) => Err(MFail::Syntax),
            Some((false, st)) => match m_rule_items(ls, i + 2, defs) {
                Ok((rest, k)) => Ok((macro_requirements(ls, st) + rest, k)),
                Err(f) => Err(f),
            },
        }
    } else {
        match m_requirement(ls, i, defs) {
            Ok((t, j)) => if i < j <= ls.len() {
                match m_rule_items(ls, j, defs) {
                    Ok((rest, k)) => Ok((seq![t] + rest, k)),
                    Err(f) => Err(f),
                }
            } else {
                Err(MFail::Syntax)
            },
            Err(f) => Err(f),
        }
    }
}

/// `rule := "rule" "{" ( requirement | WORD ";" )* "}"`
pub open spec fn m_rule(ls: Seq<LexV>, i: int, defs: Seq<MacroDefV>) -> Result<(TokenV, int), MFail> {
    if 0 <= i && i + 1 < ls.len() && is_word(ls[i], "rule"@) && ls[i + 1] is LBrace {
        match m_rule_items(ls, i + 2, defs) {
            Ok((r, j)) => if 0 <= j < ls.len() && ls[j] is RBrace {
                Ok((TokenV::Rule(r), j + 1))
            } else {
                Err(MFail::Syntax)
            },
            Err(f) => Err(f),
        }
    } else {
        Err(MFail::Syntax)
    }
}

/// `rule*`, up to the closing `}` (which is left to read).
pub open spec fn m_rules(ls: Seq<LexV>, i: int, defs: Seq<MacroDefV>) -> Result<(Seq<TokenV>, int), MFail>
    decreases ls.len() - i,
{
    if i < 0 || i >= ls.len() {
        Err(MFail::Syntax)
    } else if ls[i] is RBrace {
        Ok((Seq::empty(), i))
    } else {
        match m_rule(ls, i, defs) {
            Ok((t, j)) => if i < j <= ls.len() {
                match m_rules(ls, j, defs) {
                    Ok((r, k)) => Ok((seq![t] + r, k)),
                    Err(f) => Err(f),
                }
            } else {
                Err(MFail::Syntax)
            },
            Err(f) => Err(f),
        }
    }
}

/// `policy := "policy" "{" "allow" "=" array ";" rule* "}"`
pub open spec fn m_policy(ls: Seq<LexV>, i: int, defs: Seq<MacroDefV>) -> Result<(TokenV, int), MFail> {
    if 0 <= i && i < ls.len() && ls.len() - i > 4 && is_word(ls[i], "policy"@) && ls[i + 1] is LBrace && is_word(
        ls[i + 2],
        "allow"@,
    ) && ls[i + 3] is Eq {
        match m_array(ls, i + 4, defs) {
            Ok((a, j)) => if 0 <= j < ls.len() && ls[j] is Semi {
                match m_rules(ls, j + 1, defs) {
                    Ok((r, k)) => if 0 <= k < ls.len() && ls[k] is RBrace {
                        Ok((TokenV::Policy(seq![TokenV::Allow(seq![a])] + r), k + 1))
                    } else {
                        Err(MFail::Syntax)
                    },
                    Err(f) => Err(f),
                }
            } else {
                Err(MFail::Syntax)
            },
            Err(f) => Err(f),
        }
    } else {
        Err(MFail::Syntax)
    }
}

/// `policy*`, up to the closing `}` (which is left to read).
pub open spec fn m_policies(ls: Seq<LexV>, i: int, defs: Seq<MacroDefV>) -> Result<(Seq<TokenV>, int), MFail>
    decreases ls.len() - i,
{
    if i < 0 || i >= ls.len() {
        Err(MFail::Syntax)
    } else if ls[i] is RBrace {
        Ok((Seq::empty(), i))
    } else {
        match m_policy(ls, i, defs) {
            Ok((t, j)) => if i < j <= ls.len() {
                match m_policies(ls, j, defs) {
                    Ok((r, k)) => Ok((seq![t] + r, k)),
                    Err(f) => Err(f),
                }
            } else {
                Err(MFail::Syntax)
            },
            Err(f) => Err(f),
        }
    }
}

/// `env := "env" WORD "{" policy* "}"`
pub open spec fn m_env(ls: Seq<LexV>, i: int, defs: Seq<MacroDefV>) -> Result<(TokenV, int), MFail> {
    if 0 <= i && i < ls.len() && ls.len() - i > 2 && is_word(ls[i], "env"@) && ls[i + 1] is Word && ls[i + 2] is LBrace {
        let name = ls[i + 1]->Word_0;
        match m_policies(ls, i + 3, defs) {
            Ok((ps, j)) => if 0 <= j < ls.len() && ls[j] is RBrace {
                if name == "DEFAULT"@ {
                    Ok((TokenV::DefaultEnv(ps), j + 1))
                } else {
                    Ok((TokenV::NamedEnv(seq![TokenV::Identifier(name)] + ps), j + 1))
                }
            } else {
                Err(MFail::Syntax)
            },
            Err(f) => Err(f),
        }
    } else {
        Err(MFail::Syntax)
    }
}

/// `env*`, up to the closing `}` (which is left to read).
pub open spec fn m_envs(ls: Seq<LexV>, i: int, defs: Seq<MacroDefV>) -> Result<(Seq<TokenV>, int), MFail>
    decreases ls.len() - i,
{
    if i < 0 || i >= ls.len() {
        Err(MFail::Syntax)
    } else if ls[i] is RBrace {
        Ok((Seq::empty(), i))
    } else {
        match m_env(ls, i, defs) {
            Ok((t, j)) => if i < j <= ls.len() {
                match m_envs(ls, j, defs) {
                    Ok((r, k)) => Ok((seq![t] + r, k)),
                    Err(f) => Err(f),
                }
            } else {
                Err(MFail::Syntax)
            },
            Err(f) => Err(f),
        }
    }
}

/// `body := env* | policy+`
pub open spec fn m_body(ls: Seq<LexV>, i: int, defs: Seq<MacroDefV>) -> Result<(Seq<TokenV>, int), MFail> {
    if 0 <= i < ls.len() && is_word(ls[i], "policy"@) {
        match m_policies(ls, i, defs) {
            Ok((ps, j)) => Ok((seq![TokenV::ImplicitDefaultEnv(ps)], j)),
            Err(f) => Err(f),
        }
    } else {
        m_envs(ls, i, defs)
    }
}

/// `item := "resource" WORD "{" [ "id" "=" STRING ";" ] body "}"`
pub open spec fn m_item(ls: Seq<LexV>, i: int, defs: Seq<MacroDefV>) -> Result<(TokenV, int), MFail> {
    if 0 <= i && i < ls.len() && ls.len() - i > 2 && is_word(ls[i], "resource"@) && ls[i + 1] is Word && ls[i + 2] is LBrace {
        let name = TokenV::Identifier(ls[i + 1]->Word_0);
        if has_id_clause(ls, i + 3) {
            let id = TokenV::String(ls[i + 5]->Str_0);
            match m_body(ls, i + 7, defs) {
                Ok((envs, j)) => if 0 <= j < ls.len() && ls[j] is RBrace {
                    Ok((TokenV::AttributedResource(seq![name, id] + envs), j + 1))
                } else {
                    Err(MFail::Syntax)
                },
                Err(f) => Err(f),
            }
        } else {
            match m_body(ls, i + 3, defs) {
                Ok((envs, j)) => if 0 <= j < ls.len() && ls[j] is RBrace {
                    Ok((TokenV::Resource(seq![name] + envs), j + 1))
                } else {
                    Err(MFail::Syntax)
                },
                Err(f) => Err(f),
            }
        }
    } else {
        Err(MFail::Syntax)
    }
}

/// `macro := "macro" WORD "{" requirement* "}" | "macro" WORD "=" array ";"`: the macro
/// and the position after it.
pub open spec fn m_macro(ls: Seq<LexV>, i: int) -> Option<(MacroDefV, int)> {
    if 0 <= i && i < ls.len() && ls.len() - i > 2 && is_word(ls[i], "macro"@) && ls[i + 1] is Word {
        let name = ls[i + 1]->Word_0;
        if ls[i + 2] is LBrace {
            match p_requirements(ls, i + 3) {
                Some((_, j)) => if 0 <= j < ls.len() && ls[j] is RBrace {
                    Some(((name, false, i + 3), j + 1))
                } else {
                    None
                },
                None => None,
            }
        } else if ls[i + 2] is Eq {
            match p_array(ls, i + 3) {
                Some((_, j)) => if 0 <= j < ls.len() && ls[j] is Semi {
                    Some(((name, true, i + 3), j + 1))
                } else {
                    None
                },
                None => None,
            }
        } else {
            None
        }
    } else {
        None
    }
}

/// `( macro | item )*`, up to the end of the text: the items, with the macros defined so far.
pub open spec fn m_items(ls: Seq<LexV>, i: int, defs: Seq<MacroDefV>) -> Result<Seq<TokenV>, MFail>
    decreases ls.len() - i,
{
    if i < 0 {
        Err(MFail::Syntax)
    } else if i >= ls.len() {
        Ok(Seq::empty())
    } else if is_word(ls[i], "macro"@) {
        match m_macro(ls, i) {
            Some((d, j)) => if i < j <= ls.len() {
                m_items(ls, j, defs.push(d))
            } else {
                Err(MFail::Syntax)
            },
            None => Err(MFail::Syntax),
        }
    } else {
        match m_item(ls, i, defs) {
            Ok((t, j)) => if i < j <= ls.len() {
                match m_items(ls, j, defs) {
                    Ok(r) => Ok(seq![t] + r),
                    Err(f) => Err(f),
                }
            } else {
                Err(MFail::Syntax)
            },
            Err(f) => Err(f),
        }
    }
}

/// `file := "syntax" "=" VERSION ";" ( macro | item )*`, read as a `File` token: the
/// version, the items with their macros expanded, and an end marker.
pub open spec fn m_file(ls: Seq<LexV>) -> Result<TokenV, MFail> {
    if 4 <= ls.len() && is_word(ls[0], "syntax"@) && ls[1] is Eq && ls[2] is Word && word_version(ls[2]->Word_0)
        is Some && ls[3] is Semi {
        match m_items(ls, 4, Seq::empty()) {
            Ok(items) => Ok(
                TokenV::File(seq![TokenV::Version(word_version(ls[2]->Word_0)->0)] + items + seq![TokenV::Null]),
            ),
            Err(f) => Err(f),
        }
    } else {
        Err(MFail::Syntax)
    }
}

proof fn lemma_strings_same(ls: Seq<LexV>, i: int, defs: Seq<MacroDefV>)
    requires
        p_strings(ls, i) is Some,
    ensures
        m_strings(ls, i, defs) == Ok::<(Seq<Seq<char>>, int), MFail>(p_strings(ls, i)->0),
    decreases ls.len() - i,
{
    if 0 <= i < ls.len() && ls[i] is Str && i + 1 < ls.len() && ls[i + 1] is Comma {
        lemma_strings_same(ls, i + 2, defs);
    }
}

proof fn lemma_array_same(ls: Seq<LexV>, i: int, defs: Seq<MacroDefV>)
    requires
        p_array(ls, i) is Some,
    ensures
        m_array(ls, i, defs) == Ok::<(TokenV, int), MFail>(p_array(ls, i)->0),
{
    lemma_strings_same(ls, i + 1, defs);
}

proof fn lemma_requirement_same(ls: Seq<LexV>, i: int, defs: Seq<MacroDefV>)
    requires
        p_requirement(ls, i) is Some,
    ensures
        m_requirement(ls, i, defs) == Ok::<(TokenV, int), MFail>(p_requirement(ls, i)->0),
{
    if 0 <= i + 2 < ls.len() && ls[i + 2] is LBracket {
        lemma_array_same(ls, i + 2, defs);
    }
    assert(p_value(ls, i + 2) is Some);
}

proof fn lemma_requirements_same(ls: Seq<LexV>, i: int, defs: Seq<MacroDefV>)
    requires
        p_requirements(ls, i) is Some,
    ensures
        m_rule_items(ls, i, defs) == Ok::<(Seq<TokenV>, int), MFail>(p_requirements(ls, i)->0),
    decreases ls.len() - i,
{
    if 0 <= i < ls.len() && !(ls[i] is RBrace) {
        lemma_requirement_same(ls, i, defs);
        assert(!is_call(ls, i));
        let j = (p_requirement(ls, i)->0).1;
        lemma_requirements_same(ls, j, defs);
    }
}

proof fn lemma_rule_same(ls: Seq<LexV>, i: int, defs: Seq<MacroDefV>)
    requires
        p_rule(ls, i) is Some,
    ensures
        m_rule(ls, i, defs) == Ok::<(TokenV, int), MFail>(p_rule(ls, i)->0),
{
    lemma_requirements_same(ls, i + 2, defs);
}

proof fn lemma_rules_same(ls: Seq<LexV>, i: int, defs: Seq<MacroDefV>)
    requires
        p_rules(ls, i) is Some,
    ensures
        m_rules(ls, i, defs) == Ok::<(Seq<TokenV>, int), MFail>(p_rules(ls, i)->0),
    decreases ls.len() - i,
{
    if 0 <= i < ls.len() && !(ls[i] is RBrace) {
        lemma_rule_same(ls, i, defs);
        let j = (p_rule(ls, i)->0).1;
        lemma_rules_same(ls, j, defs);
    }
}

proof fn lemma_policy_same(ls: Seq<LexV>, i: int, defs: Seq<MacroDefV>)
    requires
        p_policy(ls, i) is Some,
    ensures
        m_policy(ls, i, defs) == Ok::<(TokenV, int), MFail>(p_policy(ls, i)->0),
{
    lemma_array_same(ls, i + 4, defs);
    let j = (p_array(ls, i + 4)->0).1;
    lemma_rules_same(ls, j + 1, defs);
}

proof fn lemma_policies_same(ls: Seq<LexV>, i: int, defs: Seq<MacroDefV>)
    requires
        p_policies(ls, i) is Some,
    ensures
        m_policies(ls, i, defs) == Ok::<(Seq<TokenV>, int), MFail>(p_policies(ls, i)->0),
    decreases ls.len() - i,
{
    if 0 <= i < ls.len() && !(ls[i] is RBrace) {
        lemma_policy_same(ls, i, defs);
        let j = (p_policy(ls, i)->0).1;
        lemma_policies_same(ls, j, defs);
    }
}

proof fn lemma_env_same(ls: Seq<LexV>, i: int, defs: Seq<MacroDefV>)
    requires
        p_env(ls, i) is Some,
    ensures
        m_env(ls, i, defs) == Ok::<(TokenV, int), MFail>(p_env(ls, i)->0),
{
    lemma_policies_same(ls, i + 3, defs);
}

proof fn lemma_envs_same(ls: Seq<LexV>, i: int, defs: Seq<MacroDefV>)
    requires
        p_envs(ls, i) is Some,
    ensures
        m_envs(ls, i, defs) == Ok::<(Seq<TokenV>, int), MFail>(p_envs(ls, i)->0),
    decreases ls.len() - i,
{
    if 0 <= i < ls.len() && !(ls[i] is RBrace) {
        lemma_env_same(ls, i, defs);
        let j = (p_env(ls, i)->0).1;
        lemma_envs_same(ls, j, defs);
    }
}

proof fn lemma_body_same(ls: Seq<LexV>, i: int, defs: Seq<MacroDefV>)
    requires
        p_body(ls, i) is Some,
    ensures
        m_body(ls, i, defs) == Ok::<(Seq<TokenV>, int), MFail>(p_body(ls, i)->0),
{
    if 0 <= i < ls.len() && is_word(ls[i], "policy"@) {
        lemma_policies_same(ls, i, defs);
    } else {
        lemma_envs_same(ls, i, defs);
    }
}

proof fn lemma_item_same(ls: Seq<LexV>, i: int, defs: Seq<MacroDefV>)
    requires
        p_item(ls, i) is Some,
    ensures
        m_item(ls, i, defs) == Ok::<(TokenV, int), MFail>(p_item(ls, i)->0),
{
    if has_id_clause(ls, i + 3) {
        lemma_body_same(ls, i + 7, defs);
    } else {
        lemma_body_same(ls, i + 3, defs);
    }
}

proof fn lemma_items_same(ls: Seq<LexV>, i: int, defs: Seq<MacroDefV>)
    requires
        p_items(ls, i) is Some,
    ensures
        m_items(ls, i, defs) == Ok::<Seq<TokenV>, MFail>(p_items(ls, i)->0),
    decreases ls.len() - i,
{
    if 0 <= i < ls.len() {
        reveal_strlit("resource");
        reveal_strlit("macro");
        assert("resource"@.len() != "macro"@.len());
        lemma_item_same(ls, i, defs);
        let j = (p_item(ls, i)->0).1;
        lemma_items_same(ls, j, defs);
    }
}

/// Every text of syntax `0.16` reads the same in the grammar of syntax `0.16M`: the
/// macros only add to what can be written.
pub proof fn lemma_file_same(ls: Seq<LexV>)
    requires
        p_file(ls) is Some,
    ensures
        m_file(ls) == Ok::<TokenV, MFail>(p_file(ls)->0),
{
    lemma_items_same(ls, 4, Seq::empty());
}

/// A macro defined in a text: its name, whether it holds strings (else requirements), and
/// the index of the lexeme where its body starts.
#[derive(Debug)]
pub struct MacroDef {
    pub name: String,
    pub strings: bool,
    pub start: usize,
}

pub open spec fn defs_view(d: Seq<MacroDef>) -> Seq<MacroDefV> {
    d.map_values(|m: MacroDef| (m.name@, m.strings, m.start as int))
}

/// The body of each macro reads in the grammar of syntax `0.16`.
pub open spec fn defs_ok(ls: Seq<LexV>, d: Seq<MacroDefV>) -> bool {
    forall|k: int|
        0 <= k < d.len() ==> ((#[trigger] d[k]).1 ==> p_array(ls, d[k].2) is Some) && (!d[k].1 ==> p_requirements(
            ls,
            d[k].2,
        ) is Some)
}

/// Why reading a text of syntax `0.16M` stopped.
#[derive(Debug)]
pub enum ReadFail {
    /// At this lexeme the grammar is broken.
    Syntax(usize),
    /// This macro is called before any definition.
    Undefined(String),
}

pub open spec fn fail_view(f: ReadFail) -> MFail {
    match f {
        ReadFail::Syntax(_) => MFail::Syntax,
        ReadFail::Undefined(s) => MFail::Undefined(s@),
    }
}

/// The latest macro of that name.
fn lookup_exec(defs: &Vec<MacroDef>, name: &String) -> (r: Option<(bool, usize)>)
    ensures
        match lookup(defs_view(defs@), name@) {
            Some((b, st)) => r matches Some((x, y)) && x == b && y as int == st,
            None => r is None,
        },
{
    let ghost dv = defs_view(defs@);
    let mut i: usize = defs.len();
    proof {
        assert(dv.take(i as int) =~= dv);
    }
    while i > 0
        invariant
            i <= defs.len(),
            dv == defs_view(defs@),
            lookup(dv, name@) == lookup(dv.take(i as int), name@),
        decreases i,
    {
        let ghost pre = dv.take(i as int);
        proof {
            assert(pre.last() == dv[i - 1]);
            assert(pre.drop_last() =~= dv.take(i - 1));
        }
        if defs[i - 1].name == *name {
            return Some((defs[i - 1].strings, defs[i - 1].start));
        }
        i = i - 1;
    }
    None
}

/// The strings of an array after its `[`, with macros expanded.
fn read_strings_m(ls: &Vec<Lexeme>, i: usize, defs: &Vec<MacroDef>) -> (r: Result<(Vec<String>, usize), ReadFail>)
    requires
        defs_ok(lexemes_view(ls@), defs_view(defs@)),
    ensures
        match m_strings(lexemes_view(ls@), i as int, defs_view(defs@)) {
            Ok((a, j)) => r matches Ok((v, k)) && crate::text::strings_view(v@) == a && k == j,
            Err(f) => r matches Err(e) && fail_view(e) == f,
        },
    decreases ls.len() - i,
{
    let ghost lv = lexemes_view(ls@);
    let ghost dv = defs_view(defs@);
    if i >= ls.len() {
        return Err(ReadFail::Syntax(i));
    }
    proof {
        assert(lv[i as int] == ls@[i as int]@);
    }
    let mut piece: Vec<String> = match &ls[i] {
        Lexeme::RBracket => {
            let v: Vec<String> = Vec::new();
            proof {
                assert(crate::text::strings_view(v@) =~= Seq::<Seq<char>>::empty());
            }
            return Ok((v, i + 1));
        },
        Lexeme::Str(s) => {
            let mut v: Vec<String> = Vec::new();
            v.push(s.clone());
            proof {
                assert(crate::text::strings_view(v@) =~= seq![s@]);
            }
            v
        },
        Lexeme::Word(w) => match lookup_exec(defs, w) {
            None => {
                return Err(ReadFail::Undefined(w.clone()));
            },
            Some((true, st)) => {
                proof {
                    lemma_lookup_found(dv, w@);
                }
                match read_array(ls, st) {
                    Ok((Token::Array(Array(v)), _)) => v,
                    _ => {
                        return Err(ReadFail::Syntax(st));
                    },
                }
            },
            Some((false, _)) => {
                let v: Vec<String> = Vec::new();
                proof {
                    assert(crate::text::strings_view(v@) =~= Seq::<Seq<char>>::empty());
                }
                v
            },
        },
        _ => {
            return Err(ReadFail::Syntax(i));
        },
    };
    if i + 1 >= ls.len() {
        return Err(ReadFail::Syntax(i + 1));
    }
    proof {
        assert(lv[i + 1] == ls@[i + 1]@);
    }
    match &ls[i + 1] {
        Lexeme::RBracket => Ok((piece, i + 2)),
        Lexeme::Comma => {
            let (mut rest, j) = read_strings_m(ls, i + 2, defs)?;
            let ghost p = crate::text::strings_view(piece@);
            let ghost q = crate::text::strings_view(rest@);
            piece.append(&mut rest);
            proof {
                assert(crate::text::strings_view(piece@) =~= p + q);
            }
            Ok((piece, j))
        },
        _ => Err(ReadFail::Syntax(i + 1)),
    }
}

fn read_array_m(ls: &Vec<Lexeme>, i: usize, defs: &Vec<MacroDef>) -> (r: Result<(Token, usize), ReadFail>)
    requires
        defs_ok(lexemes_view(ls@), defs_view(defs@)),
    ensures
        match m_array(lexemes_view(ls@), i as int, defs_view(defs@)) {
            Ok((t, j)) => r matches Ok((x, k)) && token_view(x) == t && k == j && x is Array,
            Err(f) => r matches Err(e) && fail_view(e) == f,
        },
{
    if i < ls.len() {
        if let Lexeme::LBracket = &ls[i] {
            let (v, j) = read_strings_m(ls, i + 1, defs)?;
            return Ok((Token::Array(Array(v)), j));
        }
    }
    Err(ReadFail::Syntax(i))
}

fn read_value_m(ls: &Vec<Lexeme>, i: usize, defs: &Vec<MacroDef>) -> (r: Result<(Token, usize), ReadFail>)
    requires
        defs_ok(lexemes_view(ls@), defs_view(defs@)),
    ensures
        match m_value(lexemes_view(ls@), i as int, defs_view(defs@)) {
            Ok((t, j)) => r matches Ok((x, k)) && token_view(x) == t && k == j,
            Err(f) => r matches Err(e) && fail_view(e) == f,
        },
{
    if i >= ls.len() {
        return Err(ReadFail::Syntax(i));
    }
    match &ls[i] {
        Lexeme::Word(w) => match word_attribute_exec(w) {
            Some(a) => Ok((a, i + 1)),
            None => Ok((Token::Identifier(Identifier(w.clone())), i + 1)),
        },
        Lexeme::Str(s) => Ok((Token::String(s.clone()), i + 1)),
        Lexeme::LBracket => read_array_m(ls, i, defs),
        _ => Err(ReadFail::Syntax(i)),
    }
}

fn read_requirement_m(ls: &Vec<Lexeme>, i: usize, defs: &Vec<MacroDef>) -> (r: Result<(Token, usize), ReadFail>)
    requires
        defs_ok(lexemes_view(ls@), defs_view(defs@)),
    ensures
        match m_requirement(lexemes_view(ls@), i as int, defs_view(defs@)) {
            Ok((t, j)) => r matches Ok((x, k)) && token_view(x) == t && k == j && x is Requirement
                && requirement_token_shaped(x),
            Err(f) => r matches Err(e) && fail_view(e) == f,
        },
{
    if i >= ls.len() || ls.len() - i <= 1 {
        return Err(ReadFail::Syntax(i));
    }
    let attr = match &ls[i] {
        Lexeme::Word(w) => match word_attribute_exec(w) {
            Some(a) => a,
            None => {
                return Err(ReadFail::Syntax(i));
            },
        },
        _ => {
            return Err(ReadFail::Syntax(i));
        },
    };
    let op = match operator_at(ls, i + 1) {
        Some(o) => o,
        None => {
            return Err(ReadFail::Syntax(i + 1));
        },
    };
    let (value, j) = read_value_m(ls, i + 2, defs)?;
    if !semi_at(ls, j) {
        return Err(ReadFail::Syntax(j));
    }
    let mut sides: Vec<Token> = Vec::new();
    sides.push(attr);
    sides.push(Token::Operator(op));
    sides.push(value);
    proof {
        lemma_tokens_view(sides@);
        assert(tokens_view(sides@) =~= seq![token_view(sides@[0]), TokenV::Operator(op), token_view(sides@[2])]);
    }
    let kind = match op {
        crate::tokens::Operator::Assertion => Token::Assertion(sides),
        crate::tokens::Operator::Negation => Token::Negation(sides),
        crate::tokens::Operator::Search => Token::Search(sides),
    };
    let mut outer: Vec<Token> = Vec::new();
    outer.push(kind);
    proof {
        lemma_tokens_view(outer@);
        assert(tokens_view(outer@) =~= seq![token_view(outer@[0])]);
    }
    Ok((Token::Requirement(outer), j + 1))
}

/// The name of a macro called at `i` in a rule, if a call stands there.
fn call_at(ls: &Vec<Lexeme>, i: usize) -> (r: Option<&String>)
    ensures
        is_call(lexemes_view(ls@), i as int) <==> r is Some,
        r matches Some(w) ==> w@ == lexemes_view(ls@)[i as int]->Word_0,
{
    proof {
        if i < ls.len() {
            assert(lexemes_view(ls@)[i as int] == ls@[i as int]@);
        }
    }
    if i < ls.len() && ls.len() - i > 1 && semi_at(ls, i + 1) {
        if let Lexeme::Word(w) = &ls[i] {
            if word_attribute_exec(w).is_none() {
                return Some(w);
            }
        }
    }
    None
}

fn read_rule_items_m(ls: &Vec<Lexeme>, i: usize, defs: &Vec<MacroDef>) -> (r: Result<(Vec<Token>, usize), ReadFail>)
    requires
        defs_ok(lexemes_view(ls@), defs_view(defs@)),
    ensures
        match m_rule_items(lexemes_view(ls@), i as int, defs_view(defs@)) {
            Ok((ts, j)) => r matches Ok((v, k)) && tokens_view(v@) == ts && k == j && forall|n: int|
                0 <= n < v.len() ==> requirement_token_shaped(#[trigger] v@[n]),
            Err(f) => r matches Err(e) && fail_view(e) == f,
        },
    decreases ls.len() - i,
{
    let ghost lv = lexemes_view(ls@);
    let ghost dv = defs_view(defs@);
    if i >= ls.len() {
        return Err(ReadFail::Syntax(i));
    }
    if rbrace_at(ls, i) {
        proof {
            lemma_tokens_view(Seq::<Token>::empty());
        }
        return Ok((Vec::new(), i));
    }
    if let Some(w) = call_at(ls, i) {
        match lookup_exec(defs, w) {
            None => {
                return Err(ReadFail::Undefined(w.clone()));
            },
            Some((true, _)) => {
                return Err(ReadFail::Syntax(i));
            },
            Some((false, st)) => {
                proof {
                    lemma_lookup_found(dv, w@);
                }
                let (mut reqs, _) = match read_requirements(ls, st) {
                    Ok(x) => x,
                    Err(p) => {
                        return Err(ReadFail::Syntax(p));
                    },
                };
                let (mut rest, k) = read_rule_items_m(ls, i + 2, defs)?;
                let ghost a = reqs@;
                let ghost b = rest@;
                reqs.append(&mut rest);
                proof {
                    lemma_tokens_view(reqs@);
                    lemma_tokens_view(a);
                    lemma_tokens_view(b);
                    assert(tokens_view(reqs@) =~= tokens_view(a) + tokens_view(b));
                    assert forall|n: int| 0 <= n < reqs.len() implies requirement_token_shaped(#[trigger] reqs@[n]) by {
                        if n < a.len() {
                            assert(reqs@[n] == a[n]);
                        } else {
                            assert(reqs@[n] == b[n - a.len()]);
                        }
                    }
                }
                return Ok((reqs, k));
            },
        }
    }
    let (t, j) = read_requirement_m(ls, i, defs)?;
    if !(i < j && j <= ls.len()) {
        return Err(ReadFail::Syntax(i));
    }
    let (mut rest, k) = read_rule_items_m(ls, j, defs)?;
    let ghost old_rest = rest@;
    rest.insert(0, t);
    proof {
        lemma_tokens_view(rest@);
        lemma_tokens_view(old_rest);
        assert(tokens_view(rest@) =~= seq![token_view(t)] + tokens_view(old_rest));
        assert forall|n: int| 0 <= n < rest.len() implies requirement_token_shaped(#[trigger] rest@[n]) by {
            if n > 0 {
                assert(rest@[n] == old_rest[n - 1]);
            }
        }
    }
    Ok((rest, k))
}

fn read_rule_m(ls: &Vec<Lexeme>, i: usize, defs: &Vec<MacroDef>) -> (r: Result<(Token, usize), ReadFail>)
    requires
        defs_ok(lexemes_view(ls@), defs_view(defs@)),
    ensures
        match m_rule(lexemes_view(ls@), i as int, defs_view(defs@)) {
            Ok((t, j)) => r matches Ok((x, k)) && token_view(x) == t && k == j && x is Rule && rule_token_shaped(x),
            Err(f) => r matches Err(e) && fail_view(e) == f,
        },
{
    if !(word_at(ls, i, "rule") && lbrace_at(ls, i + 1)) {
        return Err(ReadFail::Syntax(i));
    }
    let (reqs, j) = read_rule_items_m(ls, i + 2, defs)?;
    if !rbrace_at(ls, j) {
        return Err(ReadFail::Syntax(j));
    }
    Ok((Token::Rule(reqs), j + 1))
}

fn read_rules_m(ls: &Vec<Lexeme>, i: usize, defs: &Vec<MacroDef>) -> (r: Result<(Vec<Token>, usize), ReadFail>)
    requires
        defs_ok(lexemes_view(ls@), defs_view(defs@)),
    ensures
        match m_rules(lexemes_view(ls@), i as int, defs_view(defs@)) {
            Ok((ts, j)) => r matches Ok((v, k)) && tokens_view(v@) == ts && k == j && forall|n: int|
                0 <= n < v.len() ==> (#[trigger] v@[n]) is Rule && rule_token_shaped(v@[n]),
            Err(f) => r matches Err(e) && fail_view(e) == f,
        },
    decreases ls.len() - i,
{
    if i >= ls.len() {
        return Err(ReadFail::Syntax(i));
    }
    if rbrace_at(ls, i) {
        proof {
            lemma_tokens_view(Seq::<Token>::empty());
        }
        return Ok((Vec::new(), i));
    }
    let (t, j) = read_rule_m(ls, i, defs)?;
    if !(i < j && j <= ls.len()) {
        return Err(ReadFail::Syntax(i));
    }
    let (mut rest, k) = read_rules_m(ls, j, defs)?;
    let ghost old_rest = rest@;
    rest.insert(0, t);
    proof {
        lemma_tokens_view(rest@);
        lemma_tokens_view(old_rest);
        assert(tokens_view(rest@) =~= seq![token_view(t)] + tokens_view(old_rest));
        assert forall|n: int| 0 <= n < rest.len() implies (#[trigger] rest@[n]) is Rule && rule_token_shaped(rest@[n]) by {
            if n > 0 {
                assert(rest@[n] == old_rest[n - 1]);
            }
        }
    }
    Ok((rest, k))
}

fn read_policy_m(ls: &Vec<Lexeme>, i: usize, defs: &Vec<MacroDef>) -> (r: Result<(Token, usize), ReadFail>)
    requires
        defs_ok(lexemes_view(ls@), defs_view(defs@)),
    ensures
        match m_policy(lexemes_view(ls@), i as int, defs_view(defs@)) {
            Ok((t, j)) => r matches Ok((x, k)) && token_view(x) == t && k == j && x is Policy
                && policy_token_shaped(x),
            Err(f) => r matches Err(e) && fail_view(e) == f,
        },
{
    if !(i < ls.len() && ls.len() - i > 4 && word_at(ls, i, "policy") && lbrace_at(ls, i + 1) && word_at(
        ls,
        i + 2,
        "allow",
    ) && eq_at(ls, i + 3)) {
        return Err(ReadFail::Syntax(i));
    }
    let (array, j) = read_array_m(ls, i + 4, defs)?;
    if !semi_at(ls, j) {
        return Err(ReadFail::Syntax(j));
    }
    let (rules, k) = read_rules_m(ls, j + 1, defs)?;
    if !rbrace_at(ls, k) {
        return Err(ReadFail::Syntax(k));
    }
    let mut allow: Vec<Token> = Vec::new();
    allow.push(array);
    proof {
        lemma_tokens_view(allow@);
        assert(tokens_view(allow@) =~= seq![token_view(allow@[0])]);
    }
    let mut inner: Vec<Token> = Vec::new();
    inner.push(Token::Allow(allow));
    let ghost rules_v = rules@;
    let mut rules = rules;
    inner.append(&mut rules);
    proof {
        lemma_tokens_view(inner@);
        lemma_tokens_view(rules_v);
        assert(tokens_view(inner@) =~= seq![token_view(inner@[0])] + tokens_view(rules_v));
        assert forall|n: int| 1 <= n < inner.len() implies rule_token_shaped(#[trigger] inner@[n]) by {
            assert(inner@[n] == rules_v[n - 1]);
        }
    }
    Ok((Token::Policy(inner), k + 1))
}

fn read_policies_m(ls: &Vec<Lexeme>, i: usize, defs: &Vec<MacroDef>) -> (r: Result<(Vec<Token>, usize), ReadFail>)
    requires
        defs_ok(lexemes_view(ls@), defs_view(defs@)),
    ensures
        match m_policies(lexemes_view(ls@), i as int, defs_view(defs@)) {
            Ok((ts, j)) => r matches Ok((v, k)) && tokens_view(v@) == ts && k == j && forall|n: int|
                0 <= n < v.len() ==> policy_token_shaped(#[trigger] v@[n]),
            Err(f) => r matches Err(e) && fail_view(e) == f,
        },
    decreases ls.len() - i,
{
    if i >= ls.len() {
        return Err(ReadFail::Syntax(i));
    }
    if rbrace_at(ls, i) {
        proof {
            lemma_tokens_view(Seq::<Token>::empty());
        }
        return Ok((Vec::new(), i));
    }
    let (t, j) = read_policy_m(ls, i, defs)?;
    if !(i < j && j <= ls.len()) {
        return Err(ReadFail::Syntax(i));
    }
    let (mut rest, k) = read_policies_m(ls, j, defs)?;
    let ghost old_rest = rest@;
    rest.insert(0, t);
    proof {
        lemma_tokens_view(rest@);
        lemma_tokens_view(old_rest);
        assert(tokens_view(rest@) =~= seq![token_view(t)] + tokens_view(old_rest));
        assert forall|n: int| 0 <= n < rest.len() implies policy_token_shaped(#[trigger] rest@[n]) by {
            if n > 0 {
                assert(rest@[n] == old_rest[n - 1]);
            }
        }
    }
    Ok((rest, k))
}

fn read_env_m(ls: &Vec<Lexeme>, i: usize, defs: &Vec<MacroDef>) -> (r: Result<(Token, usize), ReadFail>)
    requires
        defs_ok(lexemes_view(ls@), defs_view(defs@)),
    ensures
        match m_env(lexemes_view(ls@), i as int, defs_view(defs@)) {
            Ok((t, j)) => r matches Ok((x, k)) && token_view(x) == t && k == j && env_token_shaped(x)
                && (x is NamedEnv || x is DefaultEnv),
            Err(f) => r matches Err(e) && fail_view(e) == f,
        },
{
    if !(i < ls.len() && ls.len() - i > 2 && word_at(ls, i, "env") && lbrace_at(ls, i + 2)) {
        return Err(ReadFail::Syntax(i));
    }
    let name = match &ls[i + 1] {
        Lexeme::Word(w) => w.clone(),
        _ => {
            return Err(ReadFail::Syntax(i + 1));
        },
    };
    let (policies, j) = read_policies_m(ls, i + 3, defs)?;
    if !rbrace_at(ls, j) {
        return Err(ReadFail::Syntax(j));
    }
    if str_eq(name.as_str(), "DEFAULT") {
        Ok((Token::DefaultEnv(policies), j + 1))
    } else {
        let mut inner: Vec<Token> = Vec::new();
        inner.push(Token::Identifier(Identifier(name)));
        let ghost ps = policies@;
        let mut policies = policies;
        inner.append(&mut policies);
        proof {
            lemma_tokens_view(inner@);
            lemma_tokens_view(ps);
            assert(tokens_view(inner@) =~= seq![token_view(inner@[0])] + tokens_view(ps));
            assert forall|n: int| 1 <= n < inner.len() implies policy_token_shaped(#[trigger] inner@[n]) by {
                assert(inner@[n] == ps[n - 1]);
            }
        }
        Ok((Token::NamedEnv(inner), j + 1))
    }
}

fn read_envs_m(ls: &Vec<Lexeme>, i: usize, defs: &Vec<MacroDef>) -> (r: Result<(Vec<Token>, usize), ReadFail>)
    requires
        defs_ok(lexemes_view(ls@), defs_view(defs@)),
    ensures
        match m_envs(lexemes_view(ls@), i as int, defs_view(defs@)) {
            Ok((ts, j)) => r matches Ok((v, k)) && tokens_view(v@) == ts && k == j && forall|n: int|
                0 <= n < v.len() ==> env_token_shaped(#[trigger] v@[n]),
            Err(f) => r matches Err(e) && fail_view(e) == f,
        },
    decreases ls.len() - i,
{
    if i >= ls.len() {
        return Err(ReadFail::Syntax(i));
    }
    if rbrace_at(ls, i) {
        proof {
            lemma_tokens_view(Seq::<Token>::empty());
        }
        return Ok((Vec::new(), i));
    }
    let (t, j) = read_env_m(ls, i, defs)?;
    if !(i < j && j <= ls.len()) {
        return Err(ReadFail::Syntax(i));
    }
    let (mut rest, k) = read_envs_m(ls, j, defs)?;
    let ghost old_rest = rest@;
    rest.insert(0, t);
    proof {
        lemma_tokens_view(rest@);
        lemma_tokens_view(old_rest);
        assert(tokens_view(rest@) =~= seq![token_view(t)] + tokens_view(old_rest));
        assert forall|n: int| 0 <= n < rest.len() implies env_token_shaped(#[trigger] rest@[n]) by {
            if n > 0 {
                assert(rest@[n] == old_rest[n - 1]);
            }
        }
    }
    Ok((rest, k))
}

fn read_body_m(ls: &Vec<Lexeme>, i: usize, defs: &Vec<MacroDef>) -> (r: Result<(Vec<Token>, usize), ReadFail>)
    requires
        defs_ok(lexemes_view(ls@), defs_view(defs@)),
    ensures
        match m_body(lexemes_view(ls@), i as int, defs_view(defs@)) {
            Ok((ts, j)) => r matches Ok((v, k)) && tokens_view(v@) == ts && k == j && forall|n: int|
                0 <= n < v.len() ==> env_token_shaped(#[trigger] v@[n]),
            Err(f) => r matches Err(e) && fail_view(e) == f,
        },
{
    if word_at(ls, i, "policy") {
        let (policies, j) = read_policies_m(ls, i, defs)?;
        let mut v: Vec<Token> = Vec::new();
        v.push(Token::ImplicitDefaultEnv(policies));
        proof {
            lemma_tokens_view(v@);
            assert(tokens_view(v@) =~= seq![token_view(v@[0])]);
        }
        Ok((v, j))
    } else {
        read_envs_m(ls, i, defs)
    }
}

fn read_item_m(ls: &Vec<Lexeme>, i: usize, defs: &Vec<MacroDef>) -> (r: Result<(Token, usize), ReadFail>)
    requires
        defs_ok(lexemes_view(ls@), defs_view(defs@)),
    ensures
        match m_item(lexemes_view(ls@), i as int, defs_view(defs@)) {
            Ok((t, j)) => r matches Ok((x, k)) && token_view(x) == t && k == j && item_token_shaped(x),
            Err(f) => r matches Err(e) && fail_view(e) == f,
        },
{
    if !(i < ls.len() && ls.len() - i > 2 && word_at(ls, i, "resource") && lbrace_at(ls, i + 2)) {
        return Err(ReadFail::Syntax(i));
    }
    let name = match &ls[i + 1] {
        Lexeme::Word(w) => w.clone(),
        _ => {
            return Err(ReadFail::Syntax(i + 1));
        },
    };
    match id_clause_at(ls, i + 3) {
        Some(id) => {
            let (envs, j) = read_body_m(ls, i + 7, defs)?;
            if !rbrace_at(ls, j) {
                return Err(ReadFail::Syntax(j));
            }
            let mut inner: Vec<Token> = Vec::new();
            inner.push(Token::Identifier(Identifier(name)));
            inner.push(Token::String(id));
            let ghost es = envs@;
            let mut envs = envs;
            inner.append(&mut envs);
            proof {
                lemma_tokens_view(inner@);
                lemma_tokens_view(es);
                assert(tokens_view(inner@) =~= seq![token_view(inner@[0]), token_view(inner@[1])] + tokens_view(es));
                assert forall|n: int| 2 <= n < inner.len() implies env_token_shaped(#[trigger] inner@[n]) by {
                    assert(inner@[n] == es[n - 2]);
                }
            }
            Ok((Token::AttributedResource(inner), j + 1))
        },
        None => {
            let (envs, j) = read_body_m(ls, i + 3, defs)?;
            if !rbrace_at(ls, j) {
                return Err(ReadFail::Syntax(j));
            }
            let mut inner: Vec<Token> = Vec::new();
            inner.push(Token::Identifier(Identifier(name)));
            let ghost es = envs@;
            let mut envs = envs;
            inner.append(&mut envs);
            proof {
                lemma_tokens_view(inner@);
                lemma_tokens_view(es);
                assert(tokens_view(inner@) =~= seq![token_view(inner@[0])] + tokens_view(es));
                assert forall|n: int| 1 <= n < inner.len() implies env_token_shaped(#[trigger] inner@[n]) by {
                    assert(inner@[n] == es[n - 1]);
                }
            }
            Ok((Token::Resource(inner), j + 1))
        },
    }
}

/// The macro defined at `i` and the position after it.
fn read_macro(ls: &Vec<Lexeme>, i: usize) -> (r: Option<(MacroDef, usize)>)
    ensures
        match m_macro(lexemes_view(ls@), i as int) {
            Some((d, j)) => r matches Some((m, k)) && (m.name@, m.strings, m.start as int) == d && k == j,
            None => r is None,
        },
{
    if !(i < ls.len() && ls.len() - i > 2 && word_at(ls, i, "macro")) {
        return None;
    }
    let name = match &ls[i + 1] {
        Lexeme::Word(w) => w.clone(),
        _ => {
            return None;
        },
    };
    if lbrace_at(ls, i + 2) {
        match read_requirements(ls, i + 3) {
            Ok((_, j)) => if rbrace_at(ls, j) {
                Some((MacroDef { name, strings: false, start: i + 3 }, j + 1))
            } else {
                None
            },
            Err(_) => None,
        }
    } else if eq_at(ls, i + 2) {
        match read_array(ls, i + 3) {
            Ok((_, j)) => if semi_at(ls, j) {
                Some((MacroDef { name, strings: true, start: i + 3 }, j + 1))
            } else {
                None
            },
            Err(_) => None,
        }
    } else {
        None
    }
}

fn read_items_m(ls: &Vec<Lexeme>, i: usize, defs: Vec<MacroDef>) -> (r: Result<Vec<Token>, ReadFail>)
    requires
        defs_ok(lexemes_view(ls@), defs_view(defs@)),
    ensures
        match m_items(lexemes_view(ls@), i as int, defs_view(defs@)) {
            Ok(ts) => r matches Ok(v) && tokens_view(v@) == ts && forall|n: int|
                0 <= n < v.len() ==> item_token_shaped(#[trigger] v@[n]),
            Err(f) => r matches Err(e) && fail_view(e) == f,
        },
    decreases ls.len() - i,
{
    let ghost lv = lexemes_view(ls@);
    if i >= ls.len() {
        proof {
            lemma_tokens_view(Seq::<Token>::empty());
        }
        return Ok(Vec::new());
    }
    if word_at(ls, i, "macro") {
        return match read_macro(ls, i) {
            Some((m, j)) => {
                if !(i < j && j <= ls.len()) {
                    return Err(ReadFail::Syntax(i));
                }
                let ghost d = (m.name@, m.strings, m.start as int);
                let ghost before = defs_view(defs@);
                let mut defs = defs;
                defs.push(m);
                proof {
                    assert(defs_view(defs@) =~= before.push(d));
                    assert forall|k: int| 0 <= k < defs_view(defs@).len() implies ((#[trigger] defs_view(defs@)[k]).1 ==> p_array(
                        lv,
                        defs_view(defs@)[k].2,
                    ) is Some) && (!defs_view(defs@)[k].1 ==> p_requirements(lv, defs_view(defs@)[k].2) is Some) by {
                        if k < before.len() {
                            assert(defs_view(defs@)[k] == before[k]);
                        }
                    }
                }
                read_items_m(ls, j, defs)
            },
            None => Err(ReadFail::Syntax(i)),
        };
    }
    let (t, j) = read_item_m(ls, i, &defs)?;
    if !(i < j && j <= ls.len()) {
        return Err(ReadFail::Syntax(i));
    }
    let mut rest = read_items_m(ls, j, defs)?;
    let ghost old_rest = rest@;
    rest.insert(0, t);
    proof {
        lemma_tokens_view(rest@);
        lemma_tokens_view(old_rest);
        assert(tokens_view(rest@) =~= seq![token_view(t)] + tokens_view(old_rest));
        assert forall|n: int| 0 <= n < rest.len() implies item_token_shaped(#[trigger] rest@[n]) by {
            if n > 0 {
                assert(rest@[n] == old_rest[n - 1]);
            }
        }
    }
    Ok(rest)
}

/// Reads the `File` token of a list of lexemes of syntax `0.16M`, expanding its macros, or
/// why it cannot.
pub fn read_file_m(ls: &Vec<Lexeme>) -> (r: Result<Token, ReadFail>)
    ensures
        match m_file(lexemes_view(ls@)) {
            Ok(t) => r matches Ok(x) && token_view(x) == t && file_token_shaped(x),
            Err(f) => r matches Err(e) && fail_view(e) == f,
        },
{
    if !(4 <= ls.len() && word_at(ls, 0, "syntax") && eq_at(ls, 1) && semi_at(ls, 3)) {
        return Err(ReadFail::Syntax(0));
    }
    let version = match &ls[2] {
        Lexeme::Word(w) => match crate::parser::v0_16::word_version_exec(w) {
            Some(v) => v,
            None => {
                return Err(ReadFail::Syntax(2));
            },
        },
        _ => {
            return Err(ReadFail::Syntax(2));
        },
    };
    let defs: Vec<MacroDef> = Vec::new();
    proof {
        assert(defs_view(defs@) =~= Seq::<MacroDefV>::empty());
    }
    let items = read_items_m(ls, 4, defs)?;
    let mut inner: Vec<Token> = Vec::new();
    inner.push(Token::Version(version));
    let ghost is = items@;
    let mut items = items;
    inner.append(&mut items);
    inner.push(Token::Null);
    proof {
        lemma_tokens_view(inner@);
        lemma_tokens_view(is);
        assert(tokens_view(inner@) =~= seq![TokenV::Version(version)] + tokens_view(is) + seq![TokenV::Null]);
        assert forall|n: int| 1 <= n < inner.len() - 1 implies item_token_shaped(#[trigger] inner@[n]) by {
            assert(inner@[n] == is[n - 1]);
        }
    }
    Ok(Token::File(inner))
}

/// With macros too, a requirement reads as the comparison that its operator writes: `=` an
/// assertion, `!=` a negation and `*=` a search, with the written operator between the
/// attribute and the value.
pub proof fn lemma_m_requirement_operator(ls: Seq<LexV>, i: int, defs: Seq<MacroDefV>)
    ensures
        m_requirement(ls, i, defs) matches Ok((t, j)) ==> (comparison_of(t) matches Some((o, sides)) && sides.len()
            == 3 && sides[1] == TokenV::Operator(o) && written_operator(ls[i + 1], o)),
{
}

} // verus!

verus! {

/// Reads Minos texts of syntax `0.16M`.
#[derive(Debug)]
pub struct MinosParserV0_16M;

impl MinosParserV0_16M {
    /// Reads a text of syntax `0.16M` into a storage.
    pub fn parse_file_content(content: &str) -> (r: MinosResult<Storage>)
        ensures
            reads_as(FileVersion::V0_16M, content@, r),
    {
        MinosParser::parse_str(FileVersion::V0_16M, content)
    }
}

} // verus!
