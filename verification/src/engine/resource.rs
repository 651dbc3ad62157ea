//! The thing to which access is asked.
use vstd::prelude::*;

use crate::language::requirements::{Value, ValueView};
use crate::tokens::{Identifier, ResourceAttribute};

verus! {

/// What access is asked to: a typed resource, maybe with an id, an owner and a status.
#[derive(Debug)]
pub struct Resource {
    pub id: Option<String>,
    pub type_: String,
    pub owner: Option<String>,
    pub status: Option<String>,
}

pub trait AsResource {
    fn as_resource(&self) -> Resource;
}

pub trait IntoResource {
    fn into_resource(self) -> Resource;
}

pub trait TryIntoResource {
    type Error;

    fn try_into_resource(self) -> Result<Resource, Self::Error>;
}

/// The value of an attribute of a resource, as the requirements see it.
pub open spec fn resource_attribute_value(res: Resource, attr: ResourceAttribute) -> Option<ValueView> {
    match attr {
        ResourceAttribute::Id => match res.id {
            Some(s) => Some(ValueView::Str(s@)),
            None => None,
        },
        ResourceAttribute::Type => Some(ValueView::Ident(res.type_@)),
        ResourceAttribute::Owner => match res.owner {
            Some(s) => Some(ValueView::Str(s@)),
            None => None,
        },
        ResourceAttribute::Status => match res.status {
            Some(s) => Some(ValueView::Ident(s@)),
            None => None,
        },
    }
}

impl Resource {
    /// A resource of type `type_`, without status.
    pub fn new(id: Option<String>, type_: String, owner: Option<String>) -> (r: Resource)
        ensures
            r.id == id,
            r.type_ == type_,
            r.owner == owner,
            r.status is None,
    {
        Resource { id, type_, owner, status: None }
    }

    pub fn id(&self) -> (r: &Option<String>)
        ensures
            r == &self.id,
    {
        &self.id
    }

    pub fn type_(&self) -> (r: &String)
        ensures
            r == &self.type_,
    {
        &self.type_
    }

    pub fn owner(&self) -> (r: &Option<String>)
        ensures
            r == &self.owner,
    {
        &self.owner
    }

    pub fn status(&self) -> (r: &Option<String>)
        ensures
            r == &self.status,
    {
        &self.status
    }

    /// The value of one attribute of the resource.
    pub fn get_attribute(&self, attr: ResourceAttribute) -> (r: Option<Value>)
        ensures
            r matches Some(v) ==> resource_attribute_value(*self, attr) == Some(v@),
            r is None <==> resource_attribute_value(*self, attr) is None,
    {
        match attr {
            ResourceAttribute::Id => match &self.id {
                Some(s) => Some(Value::String(s.clone())),
                None => None,
            },
            ResourceAttribute::Type => Some(Value::Identifier(Identifier(self.type_.clone()))),
            ResourceAttribute::Owner => match &self.owner {
                Some(s) => Some(Value::String(s.clone())),
                None => None,
            },
            ResourceAttribute::Status => match &self.status {
                Some(s) => Some(Value::Identifier(Identifier(s.clone()))),
                None => None,
            },
        }
    }
}

} // verus!
