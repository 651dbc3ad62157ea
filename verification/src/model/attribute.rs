//! Attributes: a parent object and a path of children, written `parent.child.child`.
use vstd::prelude::*;

use crate::model::{ModelError, ModelErrorV};
use crate::pattern::{captures, groups_view, regex_accepts, regex_captures};
use crate::text::{join_strings, join_with, lemma_join_split, split_char, split_on, str_eq, strings_view};

verus! {

/// An attribute path: a lowercase object name, a dot, then letters, digits, dots and `_`.
pub const ATTRIBUTE_PATH_REGEX_VALUE: &'static str = "([a-z_]+)\\.([a-zA-Z\\d\\._]+)";

/// The parent and children that a search for [`ATTRIBUTE_PATH_REGEX_VALUE`] finds: the
/// parent is group 1, the children are group 2 split on dots.
pub open spec fn path_of_groups(g: Seq<Option<Seq<char>>>) -> Option<(Seq<char>, Seq<Seq<char>>)> {
    if g.len() > 2 && g[1] is Some && g[2] is Some {
        Some((g[1]->0, split_on(g[2]->0, '.')))
    } else {
        None
    }
}

/// What reading `text` as an attribute path gives: its parent and children, or why it
/// cannot be read.
pub open spec fn path_read(text: Seq<char>) -> Result<(Seq<char>, Seq<Seq<char>>), ModelErrorV> {
    if !regex_accepts(ATTRIBUTE_PATH_REGEX_VALUE@) {
        Err(ModelErrorV::InvalidPattern(ATTRIBUTE_PATH_REGEX_VALUE@))
    } else {
        match regex_captures(ATTRIBUTE_PATH_REGEX_VALUE@, text) {
            Some(g) => path_from_groups(g, text),
            None => Err(ModelErrorV::InvalidAssertionSyntax(text)),
        }
    }
}

/// What the capture groups `g` of a search in `text` give as an attribute path.
pub open spec fn path_from_groups(g: Seq<Option<Seq<char>>>, text: Seq<char>) -> Result<
    (Seq<char>, Seq<Seq<char>>),
    ModelErrorV,
> {
    match path_of_groups(g) {
        Some(p) => Ok(p),
        None => Err(ModelErrorV::InvalidAssertionSyntax(text)),
    }
}

/// How an attribute path is written: the parent, a dot, and the children joined by dots.
pub open spec fn path_text(parent: Seq<char>, children: Seq<Seq<char>>) -> Seq<char> {
    parent + "."@ + join_with(children, "."@)
}

/// An object key with a path of attributes under it.
#[derive(Debug)]
pub struct Attribute {
    /// The object key.
    pub parent: String,
    /// The attributes under it.
    pub children: Vec<String>,
}

/// Whether a reading of a path, as `r`, gives `expected`.
pub open spec fn read_as(r: Result<(String, Vec<String>), ModelError>, expected: Result<(Seq<char>, Seq<Seq<char>>), ModelErrorV>) -> bool {
    match expected {
        Ok((p, cs)) => r matches Ok((a, b)) && a@ == p && strings_view(b@) == cs,
        Err(e) => r matches Err(x) && x@ == e,
    }
}

/// Reads the parent and children out of the capture groups of a search in `text`.
pub fn read_path_groups(groups: &Vec<Option<String>>, text: &str) -> (r: Result<(String, Vec<String>), ModelError>)
    ensures
        read_as(r, path_from_groups(groups_view(groups@), text@)),
{
    proof {
        assert(groups_view(groups@).len() == groups.len());
    }
    if groups.len() > 2 {
        proof {
            assert(groups_view(groups@)[1] == match groups@[1] {
                Some(s) => Some(s@),
                None => None::<Seq<char>>,
            });
            assert(groups_view(groups@)[2] == match groups@[2] {
                Some(s) => Some(s@),
                None => None::<Seq<char>>,
            });
        }
        if let (Some(p), Some(c)) = (&groups[1], &groups[2]) {
            let children = split_char(c.as_str(), '.');
            return Ok((p.clone(), children));
        }
    }
    Err(ModelError::InvalidAssertionSyntax(text.to_owned()))
}

/// Reads an attribute path from `text` with the regular expression
/// [`ATTRIBUTE_PATH_REGEX_VALUE`].
pub fn read_path(text: &str) -> (r: Result<(String, Vec<String>), ModelError>)
    ensures
        read_as(r, path_read(text@)),
{
    match captures(ATTRIBUTE_PATH_REGEX_VALUE, text) {
        Err(_) => Err(ModelError::InvalidPattern(ATTRIBUTE_PATH_REGEX_VALUE.to_owned())),
        Ok(None) => Err(ModelError::InvalidAssertionSyntax(text.to_owned())),
        Ok(Some(groups)) => read_path_groups(&groups, text),
    }
}

/// Writes a path as its parent, a dot, and its children joined by dots.
pub fn write_path(parent: &String, children: &Vec<String>) -> (r: String)
    ensures
        r@ == path_text(parent@, strings_view(children@)),
{
    proof {
        reveal_strlit(".");
    }
    let mut t = parent.clone();
    t.append(".");
    let j = join_strings(children, ".");
    t.append(j.as_str());
    t
}

/// The path read from a group 1 of `p` and a group 2 of `c` is written back as `p.c`.
pub proof fn lemma_path_round_trip(g: Seq<Option<Seq<char>>>, text: Seq<char>)
    requires
        g.len() > 2,
        g[1] is Some,
        g[2] is Some,
    ensures
        path_from_groups(g, text) matches Ok((p, cs)) && path_text(p, cs) == g[1]->0 + "."@ + g[2]->0,
{
    reveal_strlit(".");
    lemma_join_split(g[2]->0, '.');
    assert(seq!['.'] =~= "."@);
}

impl Attribute {
    pub fn new(parent: String, children: Vec<String>) -> (r: Attribute)
        ensures
            r.parent == parent,
            r.children == children,
    {
        Attribute { parent, children }
    }

    pub fn parent(&self) -> (r: &str)
        ensures
            r@ == self.parent@,
    {
        self.parent.as_str()
    }

    pub fn children(&self) -> (r: &[String])
        ensures
            r@ == self.children@,
    {
        self.children.as_slice()
    }

    /// Reads an attribute written `parent.child.child`.
    ///
    /// # Errors
    /// [`ModelError::InvalidAssertionSyntax`] with `text` when no attribute path is found in it.
    pub fn from_str(text: &str) -> (r: Result<Attribute, ModelError>)
        ensures
            match path_read(text@) {
                Ok((p, cs)) => r matches Ok(a) && a.parent@ == p && strings_view(a.children@) == cs,
                Err(e) => r matches Err(x) && x@ == e,
            },
    {
        let (parent, children) = read_path(text)?;
        Ok(Attribute { parent, children })
    }

    /// The attribute written `parent.child.child`.
    pub fn to_text(&self) -> (r: String)
        ensures
            r@ == path_text(self.parent@, strings_view(self.children@)),
    {
        write_path(&self.parent, &self.children)
    }
}

impl Clone for Attribute {
    fn clone(&self) -> (r: Self)
        ensures
            r.parent@ == self.parent@,
            r.children@ == self.children@,
    {
        Attribute { parent: self.parent.clone(), children: crate::text::clone_strings(&self.children) }
    }
}

/// The comparisons that an assertion makes.
#[derive(Debug, Clone, Copy, PartialEq, Eq, Structural)]
pub enum Comparator {
    /// `=`
    Equal,
    /// `!=`
    Distinct,
    /// `<`
    Minor,
    /// `>`
    Major,
    /// `<=`
    MinorOrEqual,
    /// `>=`
    MajorOrEqual,
    /// `$include`
    Include,
}

/// How each comparator is written.
pub open spec fn comparator_text(c: Comparator) -> Seq<char> {
    match c {
        Comparator::Equal => "="@,
        Comparator::Distinct => "!="@,
        Comparator::Minor => "<"@,
        Comparator::Major => ">"@,
        Comparator::MinorOrEqual => "<="@,
        Comparator::MajorOrEqual => ">="@,
        Comparator::Include => "$include"@,
    }
}

/// The comparator that a text writes, if it writes one.
pub open spec fn comparator_of_text(s: Seq<char>) -> Option<Comparator> {
    if s == "="@ {
        Some(Comparator::Equal)
    } else if s == "!="@ {
        Some(Comparator::Distinct)
    } else if s == "<"@ {
        Some(Comparator::Minor)
    } else if s == ">"@ {
        Some(Comparator::Major)
    } else if s == "<="@ {
        Some(Comparator::MinorOrEqual)
    } else if s == ">="@ {
        Some(Comparator::MajorOrEqual)
    } else if s == "$include"@ {
        Some(Comparator::Include)
    } else {
        None
    }
}

impl Comparator {
    /// The comparator as written, such as `<=`.
    pub fn to_text(&self) -> (r: String)
        ensures
            r@ == comparator_text(*self),
    {
        match self {
            Comparator::Equal => "=".to_owned(),
            Comparator::Distinct => "!=".to_owned(),
            Comparator::Minor => "<".to_owned(),
            Comparator::Major => ">".to_owned(),
            Comparator::MinorOrEqual => "<=".to_owned(),
            Comparator::MajorOrEqual => ">=".to_owned(),
            Comparator::Include => "$include".to_owned(),
        }
    }

    /// The comparator that `s` writes.
    ///
    /// # Errors
    /// [`ModelError::InvalidAssertionChar`] with `s` when it writes none.
    pub fn from_str(s: &str) -> (r: Result<Comparator, ModelError>)
        ensures
            match comparator_of_text(s@) {
                Some(c) => r matches Ok(x) && x == c,
                None => r matches Err(e) && e@ == ModelErrorV::InvalidAssertionChar(s@),
            },
    {
        if str_eq(s, "=") {
            Ok(Comparator::Equal)
        } else if str_eq(s, "!=") {
            Ok(Comparator::Distinct)
        } else if str_eq(s, "<") {
            Ok(Comparator::Minor)
        } else if str_eq(s, ">") {
            Ok(Comparator::Major)
        } else if str_eq(s, "<=") {
            Ok(Comparator::MinorOrEqual)
        } else if str_eq(s, ">=") {
            Ok(Comparator::MajorOrEqual)
        } else if str_eq(s, "$include") {
            Ok(Comparator::Include)
        } else {
            Err(ModelError::InvalidAssertionChar(s.to_owned()))
        }
    }
}

/// Reading back how a comparator is written gives the comparator.
pub proof fn lemma_comparator_round_trip(c: Comparator)
    ensures
        comparator_of_text(comparator_text(c)) == Some(c),
{
    reveal_strlit("=");
    reveal_strlit("!=");
    reveal_strlit("<");
    reveal_strlit(">");
    reveal_strlit("<=");
    reveal_strlit(">=");
    reveal_strlit("$include");
    assert("="@.len() == 1 && "!="@.len() == 2 && "<"@.len() == 1 && ">"@.len() == 1);
    assert("<="@.len() == 2 && ">="@.len() == 2 && "$include"@.len() == 8);
    assert("="@[0] != "<"@[0] && "="@[0] != ">"@[0] && "<"@[0] != ">"@[0]);
    assert("!="@[0] != "<="@[0] && "!="@[0] != ">="@[0] && "<="@[0] != ">="@[0]);
}

} // verus!
