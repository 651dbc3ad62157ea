//! Policy files of the rule model: a declared syntax version, then `[[policies]]` sections.
use vstd::prelude::*;

use crate::model::{ModelError, ModelErrorV};
use crate::pattern::{captures_all, groups_view, regex_accepts, regex_all_captures};

verus! {

/// The resource that a policy is about: one resource by its id, or every resource of a type.
#[derive(Debug, Clone, Copy)]
pub enum ResourceIdentifier<'a> {
    ResourceId(&'a str),
    ResourceType(&'a str),
}

/// The oldest syntax version that the rule model reads.
pub const MIN_COMPATIBLE_SYNTAX_VERSION: &'static str = "0.10";

/// The newest syntax version that the rule model reads.
pub const MAX_COMPATIBLE_SYNTAX_VERSION: &'static str = "0.10";

/// Finds the declared syntax version (group 1 of the first match) and each `[[policies]]`
/// section (the whole of each later match).
pub const FILE_POLICIES_REGEX_VALUE: &'static str = "syntax_version\\s*=\\s*\"([\\d\\.-]+)\"|\\[\\[policies\\]\\]\\n+(?:(?:resource_type|resource_id)\\s*=\\s*\".+\")\\n+(?:(?:\\[.+policies\\.rules\\]\\])\\n+(?:.+\\n?)*\\n*)*";

/// Finds, in a policy section, the identifier of its resource (group 1 says `resource_id` or
/// `resource_type`, group 2 gives the value) and each rules section.
pub const FILE_RULES_REGEX_VALUE: &'static str = "(resource_type|resource_id)\\s*=\\s*\"(.+)\"|(?:\\[.+policies\\.rules\\]\\])\\n+permissions\\s+=\\s*\\[\\n*(?:\\s*\".+:\\d+(?:ns|Ms|ms|s|m|h|d)\",*\\n*)+\\]\\n+(?:(?:actor|resource|environment)\\.[a-zA-Z\\d\\._]+\\s*(?:=|\\$contains|>|<|>=|<=|!=)\\s*.+\\n*)+";

/// Whether `versions::Versioning::new` reads `s` as a version.
pub uninterp spec fn versioning_parses(s: Seq<char>) -> bool;

/// How `versions::Versioning` orders the versions `a` and `b`: -1, 0 or 1.
pub uninterp spec fn versioning_order(a: Seq<char>, b: Seq<char>) -> int;

/// Reads `s` with `versions::Versioning::new`.
///
/// Trusted: the result says whether [`versioning_parses`] holds of `s`.
#[verifier::external_body]
fn versioning_valid(s: &str) -> (r: bool)
    ensures
        r == versioning_parses(s@),
{
    versions::Versioning::new(s).is_some()
}

/// Compares two versions read with `versions::Versioning::new`, by `Ord::cmp`.
///
/// Trusted: the result is [`versioning_order`] of the two texts; how versions are ordered is
/// left to the `versions` crate.
#[verifier::external_body]
fn versioning_compare(a: &str, b: &str) -> (r: i8)
    requires
        versioning_parses(a@),
        versioning_parses(b@),
    ensures
        r == versioning_order(a@, b@),
        -1 <= r <= 1,
{
    let x = versions::Versioning::new(a).unwrap();
    let y = versions::Versioning::new(b).unwrap();
    match x.cmp(&y) {
        std::cmp::Ordering::Less => -1,
        std::cmp::Ordering::Equal => 0,
        std::cmp::Ordering::Greater => 1,
    }
}

/// Every section after the first match has a whole match.
pub open spec fn sections_ok(caps: Seq<Seq<Option<Seq<char>>>>) -> bool {
    forall|k: int| 1 <= k < caps.len() ==> (#[trigger] caps[k]).len() > 0 && caps[k][0] is Some
}

/// Whether version `v` is within the compatible versions.
pub open spec fn version_compatible(v: Seq<char>) -> bool {
    versioning_order(v, MIN_COMPATIBLE_SYNTAX_VERSION@) >= 0 && versioning_order(v, MAX_COMPATIBLE_SYNTAX_VERSION@) <= 0
}

/// What [`FileParser::obtain_policies`] gives for a text: its `[[policies]]` sections, or why
/// it cannot give them.
pub open spec fn policies_read(text: Seq<char>) -> Result<Seq<Seq<char>>, ModelErrorV> {
    if !regex_accepts(FILE_POLICIES_REGEX_VALUE@) {
        Err(ModelErrorV::InvalidPattern(FILE_POLICIES_REGEX_VALUE@))
    } else {
        policies_in_captures(regex_all_captures(FILE_POLICIES_REGEX_VALUE@, text))
    }
}

/// What the matches `caps` of [`FILE_POLICIES_REGEX_VALUE`] give: the version of the first,
/// which must be compatible, then the whole of each later one.
pub open spec fn policies_in_captures(caps: Seq<Seq<Option<Seq<char>>>>) -> Result<Seq<Seq<char>>, ModelErrorV> {
    if !(caps.len() > 0 && caps[0].len() > 1 && caps[0][1] is Some) {
        Err(ModelErrorV::FormatWithoutVersion)
    } else {
        let v = caps[0][1]->0;
        if !versioning_parses(v) || !versioning_parses(MIN_COMPATIBLE_SYNTAX_VERSION@) || !versioning_parses(
            MAX_COMPATIBLE_SYNTAX_VERSION@,
        ) || !version_compatible(v) {
            Err(ModelErrorV::InvalidVersion)
        } else if !sections_ok(caps) {
            Err(ModelErrorV::InvalidPolicyFormat)
        } else {
            Ok(caps.skip(1).map_values(|c: Seq<Option<Seq<char>>>| c[0]->0))
        }
    }
}

/// Whether the first of the matches `caps` of [`FILE_RULES_REGEX_VALUE`] names the resource
/// of a policy: its group 1 is `resource_id` or `resource_type` and its group 2 has a text.
pub open spec fn identifier_in_captures_ok(caps: Seq<Seq<Option<Seq<char>>>>) -> bool {
    &&& caps.len() > 0
    &&& caps[0].len() > 2
    &&& caps[0][1] matches Some(k) && (k == "resource_id"@ || k == "resource_type"@)
    &&& caps[0][2] is Some
}

/// The identifier that the first of the matches `caps` names: whether it is a resource id
/// (else a resource type), and its value.
pub open spec fn identifier_in_captures(caps: Seq<Seq<Option<Seq<char>>>>) -> (bool, Seq<char>) {
    (caps[0][1]->0 == "resource_id"@, caps[0][2]->0)
}

/// Whether [`FileParser::obtain_rules_from_policy`] can read the identifier of `policy`: the
/// pattern is refused, or its first match names the resource.
pub open spec fn rules_readable(policy: Seq<char>) -> bool {
    regex_accepts(FILE_RULES_REGEX_VALUE@) ==> identifier_in_captures_ok(
        regex_all_captures(FILE_RULES_REGEX_VALUE@, policy),
    )
}

/// What [`FileParser::obtain_rules_from_policy`] gives for `policy`: the identifier of its
/// resource, or the error of a refused pattern.
pub open spec fn rules_read(policy: Seq<char>) -> Result<(bool, Seq<char>), ModelErrorV> {
    if !regex_accepts(FILE_RULES_REGEX_VALUE@) {
        Err(ModelErrorV::InvalidPattern(FILE_RULES_REGEX_VALUE@))
    } else {
        Ok(identifier_in_captures(regex_all_captures(FILE_RULES_REGEX_VALUE@, policy)))
    }
}

/// The view of a list of matches.
pub open spec fn matches_view(all: Seq<Vec<Option<String>>>) -> Seq<Seq<Option<Seq<char>>>> {
    all.map_values(|g: Vec<Option<String>>| groups_view(g@))
}

/// Reads the policies of a file of the rule model.
#[derive(Debug)]
pub struct FileParser<'a> {
    pub file_content: &'a str,
}

impl<'a> FileParser<'a> {
    pub fn new(file_content: &'a str) -> (r: FileParser<'a>)
        ensures
            r.file_content == file_content,
    {
        FileParser { file_content }
    }

    /// The `[[policies]]` sections of the file, in order.
    ///
    /// # Errors
    /// * [`ModelError::FormatWithoutVersion`]: the file declares no syntax version first;
    /// * [`ModelError::InvalidVersion`]: the version cannot be read, or is not a compatible one;
    /// * [`ModelError::InvalidPolicyFormat`]: a section has no text.
    pub fn obtain_policies(&self) -> (r: Result<Vec<String>, ModelError>)
        ensures
            match policies_read(self.file_content@) {
                Ok(ps) => r matches Ok(v) && crate::text::strings_view(v@) == ps,
                Err(e) => r matches Err(x) && x@ == e,
            },
    {
        match captures_all(FILE_POLICIES_REGEX_VALUE, self.file_content) {
            Ok(all) => Self::policies_from_captures(&all),
            Err(_) => Err(ModelError::InvalidPattern(FILE_POLICIES_REGEX_VALUE.to_owned())),
        }
    }

    /// Whether the first of the matches `all` of [`FILE_RULES_REGEX_VALUE`] names the
    /// resource of a policy.
    pub fn identifier_captures_ok(all: &Vec<Vec<Option<String>>>) -> (r: bool)
        ensures
            r == identifier_in_captures_ok(matches_view(all@)),
    {
        let ghost caps = matches_view(all@);
        if all.len() == 0 || all[0].len() <= 2 {
            return false;
        }
        proof {
            assert(caps[0] == groups_view(all@[0]@));
            assert(caps[0][1] == match all@[0]@[1] {
                Some(s) => Some(s@),
                None => None::<Seq<char>>,
            });
            assert(caps[0][2] == match all@[0]@[2] {
                Some(s) => Some(s@),
                None => None::<Seq<char>>,
            });
        }
        let key_ok = match &all[0][1] {
            Some(k) => crate::text::str_eq(k.as_str(), "resource_id") || crate::text::str_eq(k.as_str(), "resource_type"),
            None => false,
        };
        key_ok && all[0][2].is_some()
    }

    /// The identifier that the first of the matches `all` of [`FILE_RULES_REGEX_VALUE`]
    /// names: whether it is a resource id (else a resource type), and its value.
    pub fn identifier_from_captures(all: &Vec<Vec<Option<String>>>) -> (r: (bool, String))
        requires
            identifier_in_captures_ok(matches_view(all@)),
        ensures
            (r.0, r.1@) == identifier_in_captures(matches_view(all@)),
    {
        let ghost caps = matches_view(all@);
        proof {
            assert(caps[0] == groups_view(all@[0]@));
            assert(caps[0][1] == match all@[0]@[1] {
                Some(s) => Some(s@),
                None => None::<Seq<char>>,
            });
            assert(caps[0][2] == match all@[0]@[2] {
                Some(s) => Some(s@),
                None => None::<Seq<char>>,
            });
        }
        let is_id = match &all[0][1] {
            Some(k) => crate::text::str_eq(k.as_str(), "resource_id"),
            None => false,
        };
        let value = match &all[0][2] {
            Some(v) => v.clone(),
            None => String::new(),
        };
        (is_id, value)
    }

    /// The identifier of the resource that a policy section is about: whether it is a
    /// resource id (else a resource type), and its value.
    ///
    /// # Errors
    /// [`ModelError::InvalidPattern`] when the regular expression engine refuses the pattern.
    pub fn obtain_rules_from_policy(&self, policy: &str) -> (r: Result<(bool, String), ModelError>)
        requires
            rules_readable(policy@),
        ensures
            match rules_read(policy@) {
                Ok(x) => r matches Ok(y) && (y.0, y.1@) == x,
                Err(e) => r matches Err(x) && x@ == e,
            },
    {
        match captures_all(FILE_RULES_REGEX_VALUE, policy) {
            Ok(all) => Ok(Self::identifier_from_captures(&all)),
            Err(_) => Err(ModelError::InvalidPattern(FILE_RULES_REGEX_VALUE.to_owned())),
        }
    }

    /// Reads the identifier of the resource of a policy section as
    /// [`FileParser::obtain_rules_from_policy`] does, when the section names it; `None` when
    /// the pattern finds no such name.
    pub fn try_obtain_rules_from_policy(&self, policy: &str) -> (r: Option<Result<(bool, String), ModelError>>)
        ensures
            r is Some <==> rules_readable(policy@),
            r matches Some(o) ==> match rules_read(policy@) {
                Ok(x) => o matches Ok(y) && (y.0, y.1@) == x,
                Err(e) => o matches Err(x) && x@ == e,
            },
    {
        let readable = match captures_all(FILE_RULES_REGEX_VALUE, policy) {
            Ok(all) => Self::identifier_captures_ok(&all),
            Err(_) => true,
        };
        if readable {
            Some(self.obtain_rules_from_policy(policy))
        } else {
            None
        }
    }

    /// The sections that the matches of [`FILE_POLICIES_REGEX_VALUE`] in a file give.
    #[verifier::loop_isolation(false)]
    pub fn policies_from_captures(all: &Vec<Vec<Option<String>>>) -> (r: Result<Vec<String>, ModelError>)
        ensures
            match policies_in_captures(all@.map_values(|g: Vec<Option<String>>| groups_view(g@))) {
                Ok(ps) => r matches Ok(v) && crate::text::strings_view(v@) == ps,
                Err(e) => r matches Err(x) && x@ == e,
            },
    {
        let ghost caps = all@.map_values(|g: Vec<Option<String>>| groups_view(g@));
        proof {
            assert(caps.len() == all.len());
        }
        if all.len() == 0 || all[0].len() <= 1 {
            return Err(ModelError::FormatWithoutVersion);
        }
        proof {
            assert(caps[0] == groups_view(all@[0]@));
            assert(caps[0][1] == match all@[0]@[1] {
                Some(s) => Some(s@),
                None => None::<Seq<char>>,
            });
        }
        let version = match &all[0][1] {
            Some(v) => v,
            None => {
                return Err(ModelError::FormatWithoutVersion);
            },
        };
        if !versioning_valid(version.as_str()) || !versioning_valid(MIN_COMPATIBLE_SYNTAX_VERSION)
            || !versioning_valid(MAX_COMPATIBLE_SYNTAX_VERSION) {
            return Err(ModelError::InvalidVersion);
        }
        if versioning_compare(version.as_str(), MIN_COMPATIBLE_SYNTAX_VERSION) < 0 || versioning_compare(
            version.as_str(),
            MAX_COMPATIBLE_SYNTAX_VERSION,
        ) > 0 {
            return Err(ModelError::InvalidVersion);
        }
        let mut out: Vec<String> = Vec::new();
        let n = all.len();
        let mut i: usize = 1;
        while i < n
            invariant
                n == all.len(),
                1 <= i <= n,
                caps == all@.map_values(|g: Vec<Option<String>>| groups_view(g@)),
                out@.len() == i - 1,
                forall|k: int| 1 <= k < i ==> (#[trigger] caps[k]).len() > 0 && caps[k][0] is Some,
                forall|k: int| 1 <= k < i ==> (#[trigger] out@[k - 1])@ == caps[k][0]->0,
            decreases n - i,
        {
            proof {
                assert(caps[i as int] == groups_view(all@[i as int]@));
                assert(caps[i as int].len() == all@[i as int].len());
            }
            if all[i].len() == 0 {
                return Err(ModelError::InvalidPolicyFormat);
            }
            proof {
                assert(caps[i as int][0] == match all@[i as int]@[0] {
                    Some(s) => Some(s@),
                    None => None::<Seq<char>>,
                });
            }
            match &all[i][0] {
                Some(text) => {
                    out.push(text.clone());
                },
                None => {
                    return Err(ModelError::InvalidPolicyFormat);
                },
            }
            i = i + 1;
        }
        proof {
            let want = caps.skip(1).map_values(|c: Seq<Option<Seq<char>>>| c[0]->0);
            assert forall|k: int| 0 <= k < want.len() implies crate::text::strings_view(out@)[k] == want[k] by {
                assert(out@[(k + 1) - 1]@ == caps[k + 1][0]->0);
                assert(caps.skip(1)[k] == caps[k + 1]);
            }
            assert(crate::text::strings_view(out@) =~= want);
        }
        Ok(out)
    }
}

} // verus!
