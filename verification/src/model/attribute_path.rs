//! Attribute paths: a parent object and a path of children, written `parent.child.child`.
use vstd::prelude::*;

use crate::model::attribute::{path_read, path_text, read_path, write_path};
use crate::model::ModelError;
use crate::text::strings_view;

verus! {

/// An object key with a path of attributes under it.
#[derive(Debug)]
pub struct AttributePath {
    /// The object key.
    pub parent: String,
    /// The attributes under it.
    pub children: Vec<String>,
}

impl AttributePath {
    pub fn new(parent: String, children: Vec<String>) -> (r: AttributePath)
        ensures
            r.parent == parent,
            r.children == children,
    {
        AttributePath { parent, children }
    }

    pub fn parent(&self) -> (r: &str)
        ensures
            r@ == self.parent@,
    {
        self.parent.as_str()
    }

    pub fn children(&self) -> (r: &[String])
        ensures
            r@ == self.children@,
    {
        self.children.as_slice()
    }

    /// Reads a path written `parent.child.child`.
    ///
    /// # Errors
    /// [`ModelError::InvalidAssertionSyntax`] with `text` when no attribute path is found in it.
    pub fn from_str(text: &str) -> (r: Result<AttributePath, ModelError>)
        ensures
            match path_read(text@) {
                Ok((p, cs)) => r matches Ok(a) && a.parent@ == p && strings_view(a.children@) == cs,
                Err(e) => r matches Err(x) && x@ == e,
            },
    {
        let (parent, children) = read_path(text)?;
        Ok(AttributePath { parent, children })
    }

    /// The path written `parent.child.child`.
    pub fn to_text(&self) -> (r: String)
        ensures
            r@ == path_text(self.parent@, strings_view(self.children@)),
    {
        write_path(&self.parent, &self.children)
    }
}

} // verus!
