//! The party that asks for access.
use vstd::prelude::*;

use crate::language::requirements::{Value, ValueView};
use crate::text::{clone_strings, strings_view};
use crate::tokens::{ActorAttribute, Array, Identifier};

verus! {

/// Who asks for access: a typed identity with an optional status, its groups and its roles.
#[derive(Debug)]
pub struct Actor {
    pub id: String,
    pub type_: String,
    pub status: Option<String>,
    pub groups: Vec<String>,
    pub roles: Vec<String>,
}

pub trait AsActor {
    fn as_actor(&self) -> Actor;
}

pub trait IntoActor {
    fn into_actor(self) -> Actor;
}

pub trait TryIntoActor {
    type Error;

    fn try_into_actor(self) -> Result<Actor, Self::Error>;
}

/// The value of an attribute of an actor, as the requirements see it.
pub open spec fn actor_attribute_value(actor: Actor, attr: ActorAttribute) -> Option<ValueView> {
    match attr {
        ActorAttribute::Type => Some(ValueView::Ident(actor.type_@)),
        ActorAttribute::Id => Some(ValueView::Str(actor.id@)),
        ActorAttribute::Groups => Some(ValueView::List(strings_view(actor.groups@))),
        ActorAttribute::Roles => Some(ValueView::List(strings_view(actor.roles@))),
        ActorAttribute::Status => match actor.status {
            Some(s) => Some(ValueView::Ident(s@)),
            None => None,
        },
    }
}

impl Actor {
    /// An actor of type `type_` named `id`, without status.
    pub fn new(type_: String, id: String, groups: Vec<String>, roles: Vec<String>) -> (r: Actor)
        ensures
            r.type_ == type_,
            r.id == id,
            r.status is None,
            r.groups == groups,
            r.roles == roles,
    {
        Actor { id, type_, status: None, groups, roles }
    }

    /// An owned copy of a list of names.
    pub fn transform_list(list: &Vec<String>) -> (r: Vec<String>)
        ensures
            r@ == list@,
    {
        clone_strings(list)
    }

    pub fn id(&self) -> (r: &String)
        ensures
            r == &self.id,
    {
        &self.id
    }

    pub fn type_(&self) -> (r: &String)
        ensures
            r == &self.type_,
    {
        &self.type_
    }

    pub fn status(&self) -> (r: &Option<String>)
        ensures
            r == &self.status,
    {
        &self.status
    }

    pub fn groups(&self) -> (r: &Vec<String>)
        ensures
            r == &self.groups,
    {
        &self.groups
    }

    pub fn roles(&self) -> (r: &Vec<String>)
        ensures
            r == &self.roles,
    {
        &self.roles
    }

    /// The value of one attribute of the actor.
    pub fn get_attribute(&self, attr: ActorAttribute) -> (r: Option<Value>)
        ensures
            r matches Some(v) ==> actor_attribute_value(*self, attr) == Some(v@),
            r is None <==> actor_attribute_value(*self, attr) is None,
    {
        match attr {
            ActorAttribute::Type => Some(Value::Identifier(Identifier(self.type_.clone()))),
            ActorAttribute::Id => Some(Value::String(self.id.clone())),
            ActorAttribute::Groups => Some(Value::Array(Array(clone_strings(&self.groups)))),
            ActorAttribute::Roles => Some(Value::Array(Array(clone_strings(&self.roles)))),
            ActorAttribute::Status => match &self.status {
                Some(s) => Some(Value::Identifier(Identifier(s.clone()))),
                None => None,
            },
        }
    }
}

} // verus!
