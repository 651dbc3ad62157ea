//! Reading Minos texts.
pub mod lexer;
pub mod v0_16;
pub mod v0_16_m;

use vstd::prelude::*;

use crate::errors::{Error, MinosResult, SyntaxError};
use crate::language::storage::{file_token_shaped, items_result, Storage};
use crate::parser::lexer::{lex_str, lex_text, lexemes_view, LexV, Lexeme};
use crate::parser::v0_16::{p_file, read_file, word_version};
use crate::parser::v0_16_m::{m_file, read_file_m, MFail, ReadFail};
use crate::pattern::{captures, groups_view, regex_accepts, regex_captures};
use crate::tokens::{file_version_text, token_view, FileVersion, Token, TokenV};

verus! {

/// The pattern that finds the declared syntax version of a Minos text; its group 1 is the
/// version.
pub const VERSION_PATTERN: &'static str = "syntax\\s*=\\s*(\\d+\\.+\\d+M*)";

/// What the search for [`VERSION_PATTERN`] finds, read as a version.
pub open spec fn version_in_groups_spec(g: Seq<Option<Seq<char>>>) -> Option<FileVersion> {
    if g.len() > 1 && g[1] is Some {
        word_version(g[1]->0)
    } else {
        None
    }
}

/// The version that a Minos text declares, as [`MinosParser::get_file_version`] finds it.
pub open spec fn declared_version(content: Seq<char>) -> Option<FileVersion> {
    if regex_accepts(VERSION_PATTERN@) {
        match regex_captures(VERSION_PATTERN@, content) {
            Some(g) => version_in_groups_spec(g),
            None => None,
        }
    } else {
        None
    }
}

/// The syntax error that a reader of syntax `version` reports.
pub open spec fn is_syntax_error(version: FileVersion, e: Error) -> bool {
    match version {
        FileVersion::V0_16 => e is RuleV0_16,
        FileVersion::V0_16M => e is RuleV0_16M,
    }
}

/// What reading `content` with the grammar of syntax `version` gives: a syntax error where
/// the text cannot be split into lexemes, breaks the grammar or declares another version;
/// otherwise the storage built from its `File` token.
pub open spec fn reads_as(version: FileVersion, content: Seq<char>, r: Result<Storage, Error>) -> bool {
    match lex_text(content) {
        None => r matches Err(e) && is_syntax_error(version, e),
        Some(ls) => match file_read(version, ls) {
            Ok(t) => if ls[2]->Word_0 == file_version_text(version) {
                exists|tok: Token|
                    #![trigger token_view(tok)]
                    token_view(tok) == t && file_token_shaped(tok) && (tok matches Token::File(inner)
                        && items_result(inner@.subrange(1, inner.len() - 1), r))
            } else {
                r matches Err(e) && is_syntax_error(version, e)
            },
            Err(MFail::Syntax) => r matches Err(e) && is_syntax_error(version, e),
            Err(MFail::Undefined(name)) => r matches Err(Error::MacroNotExist(s)) && s@ == name,
        },
    }
}

/// The `File` token that the grammar of syntax `version` reads from the lexemes `ls`, or why
/// it cannot.
pub open spec fn file_read(version: FileVersion, ls: Seq<LexV>) -> Result<TokenV, MFail> {
    match version {
        FileVersion::V0_16 => match p_file(ls) {
            Some(t) => Ok(t),
            None => Err(MFail::Syntax),
        },
        FileVersion::V0_16M => m_file(ls),
    }
}

/// Reads Minos texts into a [`Storage`].
#[derive(Debug)]
pub struct MinosParser;

fn syntax_error(version: FileVersion, position: usize, expected: &'static str) -> (r: Error)
    ensures
        is_syntax_error(version, r),
{
    let e = SyntaxError { position, expected };
    match version {
        FileVersion::V0_16 => Error::RuleV0_16(e),
        FileVersion::V0_16M => Error::RuleV0_16M(e),
    }
}

impl MinosParser {
    /// The version read from the capture groups of a search for [`VERSION_PATTERN`].
    pub fn version_in_groups(groups: &Vec<Option<String>>) -> (r: Option<FileVersion>)
        ensures
            r == version_in_groups_spec(groups_view(groups@)),
    {
        proof {
            assert(groups_view(groups@).len() == groups.len());
        }
        if groups.len() > 1 {
            proof {
                assert(groups_view(groups@)[1] == match groups@[1] {
                    Some(s) => Some(s@),
                    None => None::<Seq<char>>,
                });
            }
            match &groups[1] {
                Some(s) => {
                    let v = FileVersion::parse(s.as_str());
                    proof {
                        assert(groups_view(groups@)[1] == Some(s@));
                        reveal_strlit("0.16");
                        reveal_strlit("0.16M");
                        if v is None {
                            assert(file_version_text(FileVersion::V0_16) != s@);
                            assert(file_version_text(FileVersion::V0_16M) != s@);
                        }
                        assert("0.16"@.len() == 4 && "0.16M"@.len() == 5);
                    }
                    v
                },
                None => None,
            }
        } else {
            None
        }
    }

    /// The syntax version that a Minos text declares, as `syntax = VERSION`.
    pub fn get_file_version(content: &str) -> (r: Option<FileVersion>)
        ensures
            r == declared_version(content@),
    {
        match captures(VERSION_PATTERN, content) {
            Ok(Some(groups)) => Self::version_in_groups(&groups),
            _ => None,
        }
    }

    /// Reads a Minos text of syntax `version` and builds a [`Storage`] with it.
    ///
    /// # Errors
    /// * the syntax error of `version` when the text breaks its grammar or declares another
    ///   version;
    /// * the error of the first resource that cannot be built.
    pub fn parse_str(version: FileVersion, file_content: &str) -> (r: MinosResult<Storage>)
        ensures
            reads_as(version, file_content@, r),
            r matches Ok(s) ==> s.wf(),
    {
        let ls = match lex_str(file_content) {
            Ok(ls) => ls,
            Err(p) => {
                return Err(syntax_error(version, p, "a lexeme"));
            },
        };
        let file = match version {
            FileVersion::V0_16 => match read_file(&ls) {
                Ok(t) => t,
                Err(i) => {
                    return Err(syntax_error(version, i, "a lexeme that the grammar allows"));
                },
            },
            FileVersion::V0_16M => match read_file_m(&ls) {
                Ok(t) => t,
                Err(ReadFail::Syntax(i)) => {
                    return Err(syntax_error(version, i, "a lexeme that the grammar allows"));
                },
                Err(ReadFail::Undefined(name)) => {
                    return Err(Error::MacroNotExist(name));
                },
            },
        };
        proof {
            assert(lexemes_view(ls@)[2] == ls@[2]@);
        }
        let declared = match &ls[2] {
            Lexeme::Word(w) => FileVersion::parse(w.as_str()),
            _ => None,
        };
        let matches = match (declared, version) {
            (Some(FileVersion::V0_16), FileVersion::V0_16) => true,
            (Some(FileVersion::V0_16M), FileVersion::V0_16M) => true,
            _ => false,
        };
        proof {
            reveal_strlit("0.16");
            reveal_strlit("0.16M");
            assert("0.16"@.len() == 4 && "0.16M"@.len() == 5);
        }
        if !matches {
            return Err(syntax_error(version, 2, "the declared syntax version"));
        }
        let ghost tok = file;
        let r = Storage::from_token(file);
        proof {
            assert(file_read(version, lexemes_view(ls@)) == Ok::<TokenV, MFail>(token_view(tok)));
        }
        r
    }
}

} // verus!
