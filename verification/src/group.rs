//! Groups of actors.
use vstd::prelude::*;

verus! {

/// The id of a group.
#[derive(Debug)]
pub struct GroupId(pub String);

impl GroupId {
    pub fn new(s: &str) -> (r: GroupId)
        ensures
            r.0@ == s@,
    {
        GroupId(s.to_owned())
    }

    pub fn as_str(&self) -> (r: &str)
        ensures
            r@ == self.0@,
    {
        self.0.as_str()
    }

    /// The id as an owned string.
    pub fn to_text(&self) -> (r: String)
        ensures
            r@ == self.0@,
    {
        self.0.clone()
    }
}

impl From<String> for GroupId {
    fn from(s: String) -> (r: GroupId) {
        GroupId(s)
    }
}

impl vstd::std_specs::convert::FromSpecImpl<String> for GroupId {
    open spec fn obeys_from_spec() -> bool {
        true
    }

    open spec fn from_spec(v: String) -> GroupId {
        GroupId(v)
    }
}

impl Clone for GroupId {
    fn clone(&self) -> (r: Self)
        ensures
            r.0@ == self.0@,
    {
        GroupId(self.0.clone())
    }
}

impl Default for GroupId {
    fn default() -> (r: Self)
        ensures
            r.0@.len() == 0,
    {
        GroupId(String::new())
    }
}

/// A group of actors: its id and a name for people to read.
#[derive(Debug)]
pub struct Group {
    pub id: GroupId,
    pub alias: String,
}

impl Default for Group {
    fn default() -> (r: Self)
        ensures
            r.id.0@.len() == 0,
            r.alias@.len() == 0,
    {
        Group { id: GroupId::default(), alias: String::new() }
    }
}

impl Clone for Group {
    fn clone(&self) -> (r: Self)
        ensures
            r.id.0@ == self.id.0@,
            r.alias@ == self.alias@,
    {
        Group { id: self.id.clone(), alias: self.alias.clone() }
    }
}

} // verus!
