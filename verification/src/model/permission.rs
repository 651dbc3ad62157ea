//! Named permissions that last a while.
use vstd::prelude::*;

use crate::model::ModelError;

verus! {

/// Something that can be turned into a list of permissions.
pub trait ToPermissions {
    fn to_permissions(&self) -> Result<Vec<Permission>, ModelError>;
}

/// A permission with an expressive name and a duration.
#[derive(Debug)]
pub struct Permission {
    /// The expressive id.
    pub name: String,
    /// In milliseconds.
    pub duration: u128,
}

impl Permission {
    pub fn new(name: &str, duration: u128) -> (r: Permission)
        ensures
            r.name@ == name@,
            r.duration == duration,
    {
        Permission { name: name.to_owned(), duration }
    }

    /// The message that says the permission is required: its name.
    pub fn required_msg(&self) -> (r: &str)
        ensures
            r@ == self.name@,
    {
        self.name.as_str()
    }
}

impl Clone for Permission {
    fn clone(&self) -> (r: Self)
        ensures
            r.name@ == self.name@,
            r.duration == self.duration,
    {
        Permission { name: self.name.clone(), duration: self.duration }
    }
}

} // verus!
