//! Regular-expression searches, made by the `regex` crate.
use vstd::prelude::*;

use regex::Error as RegexError;

verus! {

#[verifier::external_type_specification]
#[verifier::external_body]
pub struct ExRegexError(RegexError);

/// Whether `regex::Regex::new` compiles `pattern`.
pub uninterp spec fn regex_accepts(pattern: Seq<char>) -> bool;

/// The capture groups of the first match of `pattern` in `text` that
/// `regex::Regex::captures` reports: group 0 is the whole match, and a group that took
/// no part in the match is `None`. `None` when `pattern` does not match `text`.
pub uninterp spec fn regex_captures(pattern: Seq<char>, text: Seq<char>) -> Option<Seq<Option<Seq<char>>>>;

/// The texts of a list of capture groups.
pub open spec fn groups_view(g: Seq<Option<String>>) -> Seq<Option<Seq<char>>> {
    g.map_values(|o: Option<String>| match o {
        Some(s) => Some(s@),
        None => None,
    })
}

/// Compiles `pattern` with `regex::Regex::new` and searches `text` with
/// `regex::Regex::captures`, handing back the text of every capture group.
///
/// Trusted: the compile succeeds exactly when [`regex_accepts`] holds of `pattern`, and the
/// groups are those that [`regex_captures`] names. What a pattern matches is left to the
/// `regex` crate and not stated here.
#[verifier::external_body]
pub(crate) fn captures(pattern: &str, text: &str) -> (r: Result<Option<Vec<Option<String>>>, RegexError>)
    ensures
        r is Ok <==> regex_accepts(pattern@),
        r matches Ok(c) ==> match c {
            Some(g) => regex_captures(pattern@, text@) == Some(groups_view(g@)),
            None => regex_captures(pattern@, text@) is None,
        },
{
    let re = regex::Regex::new(pattern)?;
    let caps = match re.captures(text) {
        Some(c) => c,
        None => return Ok(None),
    };
    let mut groups = Vec::new();
    for m in caps.iter() {
        groups.push(match m {
            Some(m) => Some(m.as_str().to_owned()),
            None => None,
        });
    }
    Ok(Some(groups))
}

/// The capture groups of every match of `pattern` in `text`, one after the other, that
/// `regex::Regex::captures_iter` reports.
pub uninterp spec fn regex_all_captures(pattern: Seq<char>, text: Seq<char>) -> Seq<Seq<Option<Seq<char>>>>;

/// Compiles `pattern` with `regex::Regex::new` and searches `text` for every match with
/// `regex::Regex::captures_iter`, handing back the text of every capture group of each.
///
/// Trusted: the compile succeeds exactly when [`regex_accepts`] holds of `pattern`, and the
/// matches are those that [`regex_all_captures`] names.
#[verifier::external_body]
pub(crate) fn captures_all(pattern: &str, text: &str) -> (r: Result<Vec<Vec<Option<String>>>, RegexError>)
    ensures
        r is Ok <==> regex_accepts(pattern@),
        r matches Ok(all) ==> all@.map_values(|g: Vec<Option<String>>| groups_view(g@)) == regex_all_captures(
            pattern@,
            text@,
        ),
{
    let re = regex::Regex::new(pattern)?;
    let mut all = Vec::new();
    for caps in re.captures_iter(text) {
        let mut groups = Vec::new();
        for m in caps.iter() {
            groups.push(match m {
                Some(m) => Some(m.as_str().to_owned()),
                None => None,
            });
        }
        all.push(groups);
    }
    Ok(all)
}

} // verus!
