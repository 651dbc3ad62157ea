//! Rules of the rule model: the permissions they grant and the attributes they read.
use vstd::prelude::*;

use crate::model::assertion::Assertion;
use crate::model::attribute::Attribute;
use crate::model::permission::{Permission, ToPermissions};
use crate::model::assertion::ToAssertions;
use crate::model::ModelError;

verus! {

/// Something that can be turned into a rule.
pub trait ToRule: ToPermissions + ToAssertions {
    fn to_rule(&self) -> Result<Rule, ModelError>;
}

/// What a rule reads of the actor: the groups it must belong to and other attributes.
#[derive(Debug)]
pub struct ActorRuleAttributes {
    pub groups: Vec<String>,
    pub attributes: Vec<Attribute>,
}

/// What a rule reads of the resource: whether the actor must own it, and other attributes.
#[derive(Debug)]
pub struct ResourceRuleAttributes {
    pub owner_check: bool,
    pub attributes: Vec<Attribute>,
}

impl Default for ActorRuleAttributes {
    fn default() -> (r: Self)
        ensures
            r.groups@.len() == 0,
            r.attributes@.len() == 0,
    {
        ActorRuleAttributes { groups: Vec::new(), attributes: Vec::new() }
    }
}

impl Default for ResourceRuleAttributes {
    fn default() -> (r: Self)
        ensures
            !r.owner_check,
            r.attributes@.len() == 0,
    {
        ResourceRuleAttributes { owner_check: false, attributes: Vec::new() }
    }
}

/// A rule: the permissions it grants, the attributes it reads and the assertions that must
/// hold.
#[derive(Debug)]
pub struct Rule {
    pub permissions: Vec<Permission>,
    pub actor_attributes: ActorRuleAttributes,
    pub resource_attributes: ResourceRuleAttributes,
    pub environment_attributes: Vec<Attribute>,
    pub assertions: Vec<Assertion>,
}

impl Default for Rule {
    fn default() -> (r: Self)
        ensures
            r.permissions@.len() == 0,
            r.actor_attributes.groups@.len() == 0,
            r.actor_attributes.attributes@.len() == 0,
            !r.resource_attributes.owner_check,
            r.resource_attributes.attributes@.len() == 0,
            r.environment_attributes@.len() == 0,
            r.assertions@.len() == 0,
    {
        Rule {
            permissions: Vec::new(),
            actor_attributes: ActorRuleAttributes::default(),
            resource_attributes: ResourceRuleAttributes::default(),
            environment_attributes: Vec::new(),
            assertions: Vec::new(),
        }
    }
}

} // verus!
