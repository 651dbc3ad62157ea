//! Errors raised while reading policies or authorizing requests.
use vstd::prelude::*;

verus! {

/// Where and why a Minos text could not be read.
#[derive(Debug, Clone, PartialEq, Eq)]
pub struct SyntaxError {
    /// Where reading stopped: the character offset at which no lexeme could be read, or
    /// else the index of the lexeme at which the grammar was broken.
    pub position: usize,
    /// What was expected there.
    pub expected: &'static str,
}

#[non_exhaustive]
#[derive(Debug, Clone, PartialEq, Eq)]
pub enum Error {
    EnvironmentNotFound(String),
    ResourceNotFound(String),
    ActorNotAuthorized(String),
    UnwrapInvalidStringValue,
    UnwrapInvalidListValue,
    InvalidToken { expected: &'static str, found: String },
    MissingToken,
    SyntaxNotSupported,
    PermissionNotFound(String),
    MacroNotExist(String),
    Io(String),
    /// A text that breaks the grammar of syntax `0.16`.
    RuleV0_16(SyntaxError),
    /// A text that breaks the grammar of syntax `0.16M`.
    RuleV0_16M(SyntaxError),
    /// A word that names none of the values it should name.
    ParseError(String),
}

pub type MinosResult<T> = Result<T, Error>;

/// What reading each token of `ts` in turn gives: every value when each token reads
/// (`ok`), otherwise the error of the first that does not (`fails`).
pub open spec fn list_result<T, V>(
    ts: Seq<T>,
    ok: spec_fn(T) -> bool,
    view: spec_fn(T) -> V,
    fails: spec_fn(T, Error) -> bool,
    r: Result<Seq<V>, Error>,
) -> bool {
    if forall|i: int| 0 <= i < ts.len() ==> #[trigger] ok(ts[i]) {
        r == Ok::<Seq<V>, Error>(ts.map_values(view))
    } else {
        r matches Err(e) && exists|k: int|
            0 <= k < ts.len() && !ok(ts[k]) && (forall|i: int| 0 <= i < k ==> #[trigger] ok(ts[i]))
                && #[trigger] fails(ts[k], e)
    }
}

pub proof fn lemma_list_fail<T, V>(
    ts: Seq<T>,
    ok: spec_fn(T) -> bool,
    view: spec_fn(T) -> V,
    fails: spec_fn(T, Error) -> bool,
    k: int,
    e: Error,
)
    requires
        0 <= k < ts.len(),
        !ok(ts[k]),
        forall|i: int| 0 <= i < k ==> #[trigger] ok(ts[i]),
        fails(ts[k], e),
    ensures
        list_result(ts, ok, view, fails, Err(e)),
{
}

pub proof fn lemma_list_ok<T, V>(
    ts: Seq<T>,
    ok: spec_fn(T) -> bool,
    view: spec_fn(T) -> V,
    fails: spec_fn(T, Error) -> bool,
    vs: Seq<V>,
)
    requires
        forall|i: int| 0 <= i < ts.len() ==> #[trigger] ok(ts[i]),
        vs.len() == ts.len(),
        forall|i: int| 0 <= i < ts.len() ==> #[trigger] vs[i] == view(ts[i]),
    ensures
        list_result(ts, ok, view, fails, Ok(vs)),
{
    assert(vs =~= ts.map_values(view));
}

pub proof fn lemma_list_result<T, V>(
    ts: Seq<T>,
    ok: spec_fn(T) -> bool,
    view: spec_fn(T) -> V,
    fails: spec_fn(T, Error) -> bool,
    r: Result<Seq<V>, Error>,
)
    requires
        list_result(ts, ok, view, fails, r),
    ensures
        r is Ok <==> (forall|i: int| 0 <= i < ts.len() ==> #[trigger] ok(ts[i])),
        r matches Ok(v) ==> v == ts.map_values(view),
{
}

/// A result with its value changed by `f` and its error kept.
pub open spec fn result_map<T, U>(r: Result<T, Error>, f: spec_fn(T) -> U) -> Result<U, Error> {
    match r {
        Ok(t) => Ok(f(t)),
        Err(e) => Err(e),
    }
}

/// Concatenation of three pieces of text.
fn join3(a: &str, b: &str, c: &str) -> (r: String)
    ensures
        r@ == a@ + b@ + c@,
{
    let mut s = a.to_owned();
    s.append(b);
    s.append(c);
    s
}

impl Error {
    /// The human-readable message of the error.
    pub fn message(&self) -> (r: String)
        ensures
            r@ == error_message(*self),
    {
        proof {
            reveal_strlit("environment '");
            reveal_strlit("' not found");
            reveal_strlit("resource '");
            reveal_strlit("the actor '");
            reveal_strlit("' is not authorized");
            reveal_strlit("unwrap invalid value, expects Str found List");
            reveal_strlit("unwrap invalid value, expects List found Str");
            reveal_strlit("invalid token found: ");
            reveal_strlit(", expected: ");
            reveal_strlit("expected Token, found nothing");
            reveal_strlit("sintaxis not supported");
            reveal_strlit("permission '");
            reveal_strlit("macro '");
            reveal_strlit("io err: ");
            reveal_strlit("");
            reveal_strlit("syntax error, expected: ");
            reveal_strlit("parse error: ");
        }
        match self {
            Error::EnvironmentNotFound(s) => join3("environment '", s.as_str(), "' not found"),
            Error::ResourceNotFound(s) => join3("resource '", s.as_str(), "' not found"),
            Error::ActorNotAuthorized(s) => join3("the actor '", s.as_str(), "' is not authorized"),
            Error::UnwrapInvalidStringValue => "unwrap invalid value, expects Str found List".to_owned(),
            Error::UnwrapInvalidListValue => "unwrap invalid value, expects List found Str".to_owned(),
            Error::InvalidToken { expected, found } => {
                let mut m = join3("invalid token found: ", found.as_str(), ", expected: ");
                m.append(expected);
                m
            },
            Error::MissingToken => "expected Token, found nothing".to_owned(),
            Error::SyntaxNotSupported => "sintaxis not supported".to_owned(),
            Error::PermissionNotFound(s) => join3("permission '", s.as_str(), "' not found"),
            Error::MacroNotExist(s) => join3("macro '", s.as_str(), "' not found"),
            Error::Io(s) => join3("io err: ", s.as_str(), ""),
            Error::RuleV0_16(e) => join3("syntax error, expected: ", e.expected, ""),
            Error::RuleV0_16M(e) => join3("syntax error, expected: ", e.expected, ""),
            Error::ParseError(s) => join3("parse error: ", s.as_str(), ""),
        }
    }
}

/// The message that [`Error::message`] gives for each error.
pub open spec fn error_message(e: Error) -> Seq<char> {
    match e {
        Error::EnvironmentNotFound(s) => "environment '"@ + s@ + "' not found"@,
        Error::ResourceNotFound(s) => "resource '"@ + s@ + "' not found"@,
        Error::ActorNotAuthorized(s) => "the actor '"@ + s@ + "' is not authorized"@,
        Error::UnwrapInvalidStringValue => "unwrap invalid value, expects Str found List"@,
        Error::UnwrapInvalidListValue => "unwrap invalid value, expects List found Str"@,
        Error::InvalidToken { expected, found } => "invalid token found: "@ + found@
            + ", expected: "@ + expected@,
        Error::MissingToken => "expected Token, found nothing"@,
        Error::SyntaxNotSupported => "sintaxis not supported"@,
        Error::PermissionNotFound(s) => "permission '"@ + s@ + "' not found"@,
        Error::MacroNotExist(s) => "macro '"@ + s@ + "' not found"@,
        Error::Io(s) => "io err: "@ + s@ + ""@,
        Error::RuleV0_16(e) => "syntax error, expected: "@ + e.expected@ + ""@,
        Error::RuleV0_16M(e) => "syntax error, expected: "@ + e.expected@ + ""@,
        Error::ParseError(s) => "parse error: "@ + s@ + ""@,
    }
}

} // verus!
