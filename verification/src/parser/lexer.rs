//! Splitting a Minos text into lexemes: words, quoted strings and punctuation, with blanks
//! and comments left out.
use vstd::prelude::*;

verus! {

/// A lexeme of a Minos text.
#[derive(Debug)]
pub enum Lexeme {
    /// A run of letters, digits, `_`, `.` and `-`.
    Word(String),
    /// The text between two double quotes.
    Str(String),
    LBrace,
    RBrace,
    LBracket,
    RBracket,
    Semi,
    Comma,
    /// `=`
    Eq,
    /// `!=`
    NotEq,
    /// `*=`
    SearchEq,
}

/// The content of a [`Lexeme`].
pub enum LexV {
    Word(Seq<char>),
    Str(Seq<char>),
    LBrace,
    RBrace,
    LBracket,
    RBracket,
    Semi,
    Comma,
    Eq,
    NotEq,
    SearchEq,
}

impl View for Lexeme {
    type V = LexV;

    open spec fn view(&self) -> LexV {
        match self {
            Lexeme::Word(s) => LexV::Word(s@),
            Lexeme::Str(s) => LexV::Str(s@),
            Lexeme::LBrace => LexV::LBrace,
            Lexeme::RBrace => LexV::RBrace,
            Lexeme::LBracket => LexV::LBracket,
            Lexeme::RBracket => LexV::RBracket,
            Lexeme::Semi => LexV::Semi,
            Lexeme::Comma => LexV::Comma,
            Lexeme::Eq => LexV::Eq,
            Lexeme::NotEq => LexV::NotEq,
            Lexeme::SearchEq => LexV::SearchEq,
        }
    }
}

pub open spec fn lexemes_view(v: Seq<Lexeme>) -> Seq<LexV> {
    v.map_values(|l: Lexeme| l@)
}

/// A character that can be part of a word.
pub open spec fn is_word_char(c: char) -> bool {
    ('a' <= c && c <= 'z') || ('A' <= c && c <= 'Z') || ('0' <= c && c <= '9') || c == '_' || c == '.' || c == '-'
}

/// A blank character.
pub open spec fn is_blank(c: char) -> bool {
    c == ' ' || c == '\t' || c == '\n' || c == '\r'
}

/// Where the lexer stands: between lexemes, in a word or a string that started at the given
/// index, or in a comment.
pub enum LexMode {
    Normal,
    InWord(int),
    InString(int),
    InBlockComment,
    InLineComment,
}

pub open spec fn mode_rank(m: LexMode) -> int {
    match m {
        LexMode::Normal => 0,
        _ => 1,
    }
}

/// The punctuation lexeme that a character stands for, if any.
pub open spec fn punct(c: char) -> Option<LexV> {
    if c == '{' {
        Some(LexV::LBrace)
    } else if c == '}' {
        Some(LexV::RBrace)
    } else if c == '[' {
        Some(LexV::LBracket)
    } else if c == ']' {
        Some(LexV::RBracket)
    } else if c == ';' {
        Some(LexV::Semi)
    } else if c == ',' {
        Some(LexV::Comma)
    } else if c == '=' {
        Some(LexV::Eq)
    } else {
        None
    }
}

pub open spec fn cons_lex(l: LexV, rest: Option<Seq<LexV>>) -> Option<Seq<LexV>> {
    match rest {
        Some(r) => Some(seq![l] + r),
        None => None,
    }
}

/// The lexemes of `s` from index `i` on, read in mode `m`; `None` where the text has a
/// character that starts no lexeme, an unterminated string or an unterminated comment.
pub open spec fn lex(s: Seq<char>, i: int, m: LexMode) -> Option<Seq<LexV>>
    decreases s.len() - i, mode_rank(m),
{
    if i < 0 {
        None
    } else if i >= s.len() {
        match m {
            LexMode::Normal => Some(Seq::empty()),
            LexMode::InLineComment => Some(Seq::empty()),
            LexMode::InWord(st) => Some(seq![LexV::Word(s.subrange(st, s.len() as int))]),
            _ => None,
        }
    } else {
        let c = s[i];
        let next_is = |d: char| i + 1 < s.len() && s[i + 1] == d;
        match m {
            LexMode::Normal => if is_blank(c) {
                lex(s, i + 1, LexMode::Normal)
            } else if c == '/' && next_is('*') {
                lex(s, i + 2, LexMode::InBlockComment)
            } else if c == '/' && next_is('/') {
                lex(s, i + 2, LexMode::InLineComment)
            } else if c == '"' {
                lex(s, i + 1, LexMode::InString(i + 1))
            } else if punct(c) is Some {
                cons_lex(punct(c)->0, lex(s, i + 1, LexMode::Normal))
            } else if c == '!' && next_is('=') {
                cons_lex(LexV::NotEq, lex(s, i + 2, LexMode::Normal))
            } else if c == '*' && next_is('=') {
                cons_lex(LexV::SearchEq, lex(s, i + 2, LexMode::Normal))
            } else if is_word_char(c) {
                lex(s, i + 1, LexMode::InWord(i))
            } else {
                None
            },
            LexMode::InWord(st) => if is_word_char(c) {
                lex(s, i + 1, LexMode::InWord(st))
            } else {
                cons_lex(LexV::Word(s.subrange(st, i)), lex(s, i, LexMode::Normal))
            },
            LexMode::InString(st) => if c == '"' {
                cons_lex(LexV::Str(s.subrange(st, i)), lex(s, i + 1, LexMode::Normal))
            } else {
                lex(s, i + 1, LexMode::InString(st))
            },
            LexMode::InBlockComment => if c == '*' && next_is('/') {
                lex(s, i + 2, LexMode::Normal)
            } else {
                lex(s, i + 1, LexMode::InBlockComment)
            },
            LexMode::InLineComment => if c == '\n' {
                lex(s, i + 1, LexMode::Normal)
            } else {
                lex(s, i + 1, LexMode::InLineComment)
            },
        }
    }
}

/// The lexemes of a whole text.
pub open spec fn lex_text(s: Seq<char>) -> Option<Seq<LexV>> {
    lex(s, 0, LexMode::Normal)
}

/// `out` followed by what is left to read.
pub open spec fn prefixed(out: Seq<LexV>, rest: Option<Seq<LexV>>) -> Option<Seq<LexV>> {
    match rest {
        Some(r) => Some(out + r),
        None => None,
    }
}

/// The characters of a string slice.
pub fn chars_of(text: &str) -> (r: Vec<char>)
    ensures
        r@ == text@,
{
    let n = text.unicode_len();
    let mut out: Vec<char> = Vec::new();
    let mut i: usize = 0;
    while i < n
        invariant
            n == text@.len(),
            0 <= i <= n,
            out@ == text@.take(i as int),
        decreases n - i,
    {
        out.push(text.get_char(i));
        proof {
            assert(text@.take(i + 1) == text@.take(i as int).push(text@[i as int]));
        }
        i = i + 1;
    }
    proof {
        assert(text@.take(n as int) == text@);
    }
    out
}

fn is_word_char_exec(c: char) -> (r: bool)
    ensures
        r == is_word_char(c),
{
    ('a' <= c && c <= 'z') || ('A' <= c && c <= 'Z') || ('0' <= c && c <= '9') || c == '_' || c == '.' || c == '-'
}

fn is_blank_exec(c: char) -> (r: bool)
    ensures
        r == is_blank(c),
{
    c == ' ' || c == '\t' || c == '\n' || c == '\r'
}

fn punct_exec(c: char) -> (r: Option<Lexeme>)
    ensures
        match punct(c) {
            Some(l) => r matches Some(x) && x@ == l,
            None => r is None,
        },
{
    if c == '{' {
        Some(Lexeme::LBrace)
    } else if c == '}' {
        Some(Lexeme::RBrace)
    } else if c == '[' {
        Some(Lexeme::LBracket)
    } else if c == ']' {
        Some(Lexeme::RBracket)
    } else if c == ';' {
        Some(Lexeme::Semi)
    } else if c == ',' {
        Some(Lexeme::Comma)
    } else if c == '=' {
        Some(Lexeme::Eq)
    } else {
        None
    }
}

/// Exec form of [`LexMode`].
enum Mode {
    Normal,
    InWord(usize),
    InString(usize),
    InBlockComment,
    InLineComment,
}

spec fn mode_view(m: Mode) -> LexMode {
    match m {
        Mode::Normal => LexMode::Normal,
        Mode::InWord(s) => LexMode::InWord(s as int),
        Mode::InString(s) => LexMode::InString(s as int),
        Mode::InBlockComment => LexMode::InBlockComment,
        Mode::InLineComment => LexMode::InLineComment,
    }
}

spec fn mode_start_ok(m: Mode, i: int) -> bool {
    match m {
        Mode::InWord(s) => s <= i,
        Mode::InString(s) => s <= i,
        _ => true,
    }
}

/// Splits a text into lexemes: the lexemes of [`lex_text`], or the character offset at which
/// the text breaks the lexical rules.
pub fn lex_str(text: &str) -> (r: Result<Vec<Lexeme>, usize>)
    ensures
        match lex_text(text@) {
            Some(ls) => r matches Ok(v) && lexemes_view(v@) == ls,
            None => r is Err,
        },
{
    let chars = chars_of(text);
    let n = chars.len();
    let mut out: Vec<Lexeme> = Vec::new();
    let mut mode = Mode::Normal;
    let mut i: usize = 0;
    while i < n
        invariant
            chars@ == text@,
            n == chars.len(),
            0 <= i <= n,
            mode_start_ok(mode, i as int),
            lex_text(text@) == prefixed(lexemes_view(out@), lex(text@, i as int, mode_view(mode))),
        decreases n - i, mode_rank(mode_view(mode)),
    {
        let c = chars[i];
        let ghost s = text@;
        let ghost before = lexemes_view(out@);
        match mode {
            Mode::Normal => {
                if is_blank_exec(c) {
                    i = i + 1;
                } else if c == '/' && i + 1 < n && chars[i + 1] == '*' {
                    mode = Mode::InBlockComment;
                    i = i + 2;
                } else if c == '/' && i + 1 < n && chars[i + 1] == '/' {
                    mode = Mode::InLineComment;
                    i = i + 2;
                } else if c == '"' {
                    mode = Mode::InString(i + 1);
                    i = i + 1;
                } else if let Some(p) = punct_exec(c) {
                    out.push(p);
                    proof {
                        assert(lexemes_view(out@) =~= before.push(punct(c)->0));
                        assert(before + (seq![punct(c)->0] + lex(s, i + 1, LexMode::Normal)->0) =~= before.push(punct(c)->0) + lex(s, i + 1, LexMode::Normal)->0);
                    }
                    i = i + 1;
                } else if c == '!' && i + 1 < n && chars[i + 1] == '=' {
                    out.push(Lexeme::NotEq);
                    proof {
                        assert(lexemes_view(out@) =~= before.push(LexV::NotEq));
                        assert(before + (seq![LexV::NotEq] + lex(s, i + 2, LexMode::Normal)->0) =~= before.push(LexV::NotEq) + lex(s, i + 2, LexMode::Normal)->0);
                    }
                    i = i + 2;
                } else if c == '*' && i + 1 < n && chars[i + 1] == '=' {
                    out.push(Lexeme::SearchEq);
                    proof {
                        assert(lexemes_view(out@) =~= before.push(LexV::SearchEq));
                        assert(before + (seq![LexV::SearchEq] + lex(s, i + 2, LexMode::Normal)->0) =~= before.push(LexV::SearchEq) + lex(s, i + 2, LexMode::Normal)->0);
                    }
                    i = i + 2;
                } else if is_word_char_exec(c) {
                    mode = Mode::InWord(i);
                    i = i + 1;
                } else {
                    return Err(i);
                }
            },
            Mode::InWord(st) => {
                if is_word_char_exec(c) {
                    i = i + 1;
                } else {
                    let w = text.substring_char(st, i).to_owned();
                    out.push(Lexeme::Word(w));
                    proof {
                        let l = LexV::Word(s.subrange(st as int, i as int));
                        assert(lexemes_view(out@) =~= before.push(l));
                        assert(before + (seq![l] + lex(s, i as int, LexMode::Normal)->0) =~= before.push(l) + lex(s, i as int, LexMode::Normal)->0);
                    }
                    mode = Mode::Normal;
                }
            },
            Mode::InString(st) => {
                if c == '"' {
                    let w = text.substring_char(st, i).to_owned();
                    out.push(Lexeme::Str(w));
                    proof {
                        let l = LexV::Str(s.subrange(st as int, i as int));
                        assert(lexemes_view(out@) =~= before.push(l));
                        assert(before + (seq![l] + lex(s, i + 1, LexMode::Normal)->0) =~= before.push(l) + lex(s, i + 1, LexMode::Normal)->0);
                    }
                    mode = Mode::Normal;
                }
                i = i + 1;
            },
            Mode::InBlockComment => {
                if c == '*' && i + 1 < n && chars[i + 1] == '/' {
                    mode = Mode::Normal;
                    i = i + 2;
                } else {
                    i = i + 1;
                }
            },
            Mode::InLineComment => {
                if c == '\n' {
                    mode = Mode::Normal;
                }
                i = i + 1;
            },
        }
    }
    match mode {
        Mode::Normal => Ok(out),
        Mode::InLineComment => Ok(out),
        Mode::InWord(st) => {
            let w = text.substring_char(st, n).to_owned();
            out.push(Lexeme::Word(w));
            proof {
                assert(lexemes_view(out@) =~= lexemes_view(out@.drop_last()).push(LexV::Word(text@.subrange(st as int, n as int))));
            }
            Ok(out)
        },
        _ => Err(n),
    }
}

} // verus!
