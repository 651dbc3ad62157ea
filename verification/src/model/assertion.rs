//! Assertions: two attributes compared, such as `actor.failed_attempts >= environment.max`.
use vstd::prelude::*;

use crate::model::attribute::{comparator_of_text, comparator_text, path_read, path_text, Attribute, Comparator};
use crate::model::{ModelError, ModelErrorV};
use crate::pattern::{captures, groups_view, regex_accepts, regex_captures};
use crate::text::strings_view;

verus! {

/// An assertion: an attribute of the actor, the resource or the environment, a comparison,
/// and another such attribute, to the end of the text.
pub const ASSERTION_REGEX_VALUE: &'static str =
    "((actor|resource|environment)\\.([a-zA-Z\\d\\._]+)) (>|=|!=|>=|<=|<) ((actor|resource|environment)\\.([a-zA-Z\\d\\._]+)+)$";

/// Something that can be turned into a list of assertions.
pub trait ToAssertions {
    fn to_assertions(&self) -> Result<Vec<Assertion>, ModelError>;
}

/// A path, as read: its parent and children.
pub type PathV = (Seq<char>, Seq<Seq<char>>);

/// What the capture groups `g` of a search in `text` give as an assertion: group 1 read as
/// the left attribute, group 4 as the comparison and group 5 as the right attribute, in
/// that order, the first failure stopping the reading.
pub open spec fn assertion_from_groups(g: Seq<Option<Seq<char>>>, text: Seq<char>) -> Result<
    (PathV, Comparator, PathV),
    ModelErrorV,
> {
    if !(g.len() > 1 && g[1] is Some) {
        Err(ModelErrorV::InvalidAssertionSyntax(text))
    } else {
        match path_read(g[1]->0) {
            Err(e) => Err(e),
            Ok(left) => if !(g.len() > 4 && g[4] is Some) {
                Err(ModelErrorV::InvalidAssertionSyntax(text))
            } else {
                match comparator_of_text(g[4]->0) {
                    None => Err(ModelErrorV::InvalidAssertionChar(g[4]->0)),
                    Some(c) => if !(g.len() > 5 && g[5] is Some) {
                        Err(ModelErrorV::InvalidAssertionSyntax(text))
                    } else {
                        match path_read(g[5]->0) {
                            Err(e) => Err(e),
                            Ok(right) => Ok((left, c, right)),
                        }
                    },
                }
            },
        }
    }
}

/// What reading `text` as an assertion gives.
pub open spec fn assertion_read(text: Seq<char>) -> Result<(PathV, Comparator, PathV), ModelErrorV> {
    if !regex_accepts(ASSERTION_REGEX_VALUE@) {
        Err(ModelErrorV::InvalidPattern(ASSERTION_REGEX_VALUE@))
    } else {
        match regex_captures(ASSERTION_REGEX_VALUE@, text) {
            Some(g) => assertion_from_groups(g, text),
            None => Err(ModelErrorV::InvalidAssertionSyntax(text)),
        }
    }
}

/// A comparison between two attributes that must always hold.
#[derive(Debug)]
pub struct Assertion {
    pub left: Attribute,
    pub operator: Comparator,
    pub right: Attribute,
}

/// An attribute, as read.
pub open spec fn attribute_view(a: Attribute) -> PathV {
    (a.parent@, strings_view(a.children@))
}

/// Whether `r` is what reading gives as `expected`.
pub open spec fn assertion_is(r: Result<Assertion, ModelError>, expected: Result<(PathV, Comparator, PathV), ModelErrorV>) -> bool {
    match expected {
        Ok((l, c, rt)) => r matches Ok(a) && attribute_view(a.left) == l && a.operator == c && attribute_view(a.right) == rt,
        Err(e) => r matches Err(x) && x@ == e,
    }
}

fn syntax_error(text: &str) -> (r: ModelError)
    ensures
        r@ == ModelErrorV::InvalidAssertionSyntax(text@),
{
    ModelError::InvalidAssertionSyntax(text.to_owned())
}

impl Assertion {
    /// Reads an assertion out of the capture groups of a search in `text`.
    pub fn from_groups(groups: &Vec<Option<String>>, text: &str) -> (r: Result<Assertion, ModelError>)
        ensures
            assertion_is(r, assertion_from_groups(groups_view(groups@), text@)),
    {
        let ghost g = groups_view(groups@);
        proof {
            assert(g.len() == groups.len());
            assert forall|k: int| 0 <= k < groups.len() implies #[trigger] g[k] == match groups@[k] {
                Some(s) => Some(s@),
                None => None::<Seq<char>>,
            } by {}
        }
        let left_text = if groups.len() > 1 {
            match &groups[1] {
                Some(s) => s,
                None => {
                    return Err(syntax_error(text));
                },
            }
        } else {
            return Err(syntax_error(text));
        };
        let left = Attribute::from_str(left_text.as_str())?;
        let op_text = if groups.len() > 4 {
            match &groups[4] {
                Some(s) => s,
                None => {
                    return Err(syntax_error(text));
                },
            }
        } else {
            return Err(syntax_error(text));
        };
        let operator = Comparator::from_str(op_text.as_str())?;
        let right_text = if groups.len() > 5 {
            match &groups[5] {
                Some(s) => s,
                None => {
                    return Err(syntax_error(text));
                },
            }
        } else {
            return Err(syntax_error(text));
        };
        let right = Attribute::from_str(right_text.as_str())?;
        Ok(Assertion { left, operator, right })
    }

    /// Reads an assertion such as `actor.failed_attempts >= environment.max_failed_attempts`.
    ///
    /// # Errors
    /// * [`ModelError::InvalidAssertionSyntax`] when the text is not an assertion;
    /// * [`ModelError::InvalidAssertionChar`] when its comparison is not one of the
    ///   comparators.
    pub fn from_str(text: &str) -> (r: Result<Assertion, ModelError>)
        ensures
            assertion_is(r, assertion_read(text@)),
    {
        match captures(ASSERTION_REGEX_VALUE, text) {
            Err(_) => Err(ModelError::InvalidPattern(ASSERTION_REGEX_VALUE.to_owned())),
            Ok(None) => Err(syntax_error(text)),
            Ok(Some(groups)) => Self::from_groups(&groups, text),
        }
    }

    /// The assertion written as its two attributes with the comparison between them,
    /// separated by spaces.
    pub fn to_text(&self) -> (r: String)
        ensures
            r@ == path_text(self.left.parent@, strings_view(self.left.children@)) + " "@ + comparator_text(
                self.operator,
            ) + " "@ + path_text(self.right.parent@, strings_view(self.right.children@)),
    {
        proof {
            reveal_strlit(" ");
        }
        let mut t = self.left.to_text();
        t.append(" ");
        let op = self.operator.to_text();
        t.append(op.as_str());
        t.append(" ");
        let right = self.right.to_text();
        t.append(right.as_str());
        t
    }
}

} // verus!
