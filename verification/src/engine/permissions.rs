//! The list of permissions granted by an authorization.
use vstd::prelude::*;

use crate::language::policy::Permission;
use crate::text::{seq_has, strings_contain, strings_view};

verus! {

/// The permissions granted to an actor, in the order the policies gave them.
#[derive(Debug, PartialEq, Eq)]
pub struct Permissions(pub Vec<String>);

impl View for Permissions {
    type V = Seq<Seq<char>>;

    open spec fn view(&self) -> Seq<Seq<char>> {
        strings_view(self.0@)
    }
}

impl Permissions {
    pub fn new() -> (r: Permissions)
        ensures
            r@.len() == 0,
    {
        Permissions(Vec::new())
    }

    /// Whether `item` is among the permissions.
    pub fn has(&self, item: &str) -> (r: bool)
        ensures
            r == seq_has(self@, item@),
    {
        strings_contain(&self.0, &item.to_owned())
    }

    /// Adds the names of `permissions` at the end.
    pub fn append_permissions(&mut self, permissions: &Vec<Permission>)
        ensures
            final(self)@ == old(self)@ + permissions@.map_values(|p: Permission| p.0@),
    {
        let n = permissions.len();
        let mut i: usize = 0;
        let ghost start = self@;
        while i < n
            invariant
                n == permissions.len(),
                0 <= i <= n,
                self@ == start + permissions@.take(i as int).map_values(|p: Permission| p.0@),
            decreases n - i,
        {
            let ghost before = self.0@;
            self.0.push(permissions[i].0.clone());
            proof {
                assert(strings_view(self.0@) =~= strings_view(before).push(permissions@[i as int].0@));
                assert(permissions@.take(i + 1).map_values(|p: Permission| p.0@) == permissions@.take(
                    i as int,
                ).map_values(|p: Permission| p.0@).push(permissions@[i as int].0@));
                assert(strings_view(self.0@) =~= start + permissions@.take(i + 1).map_values(|p: Permission| p.0@));
            }
            i = i + 1;
        }
        proof {
            assert(permissions@.take(n as int) == permissions@);
        }
    }

    pub fn len(&self) -> (r: usize)
        ensures
            r == self@.len(),
    {
        self.0.len()
    }

    pub fn is_empty(&self) -> (r: bool)
        ensures
            r == (self@.len() == 0),
    {
        self.0.len() == 0
    }

    pub fn contains(&self, permission: &String) -> (r: bool)
        ensures
            r == seq_has(self@, permission@),
    {
        strings_contain(&self.0, permission)
    }

    /// The permission names, in order.
    pub fn as_slice(&self) -> (r: &[String])
        ensures
            r@ == self.0@,
    {
        self.0.as_slice()
    }
}

impl Default for Permissions {
    fn default() -> (r: Permissions)
        ensures
            r@.len() == 0,
    {
        Permissions::new()
    }
}

} // verus!
