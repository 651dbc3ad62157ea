//! Requirements of syntax `0.14`: an attribute of the actor compared with a value.
use vstd::prelude::*;

use crate::engine::actor::Actor;
use crate::minos::lang::{ListValueAttribute, ListValueOperator, SingleValueAttribute, SingleValueOperator};
use crate::text::{seq_has, str_eq, strings_contain, strings_eq, strings_view};
use crate::tokens::ResourceAttribute;

verus! {

/// A requirement of syntax `0.14`.
#[derive(Debug)]
pub enum Requirement {
    /// The type or id of the actor compared with a value.
    SingleValue { attribute: SingleValueAttribute, operator: SingleValueOperator, value: String },
    /// The groups or roles of the actor compared with a list of values.
    ListValue { attribute: ListValueAttribute, operator: ListValueOperator, value: Vec<String> },
    /// An attribute of the actor compared with an attribute of the resource.
    AttributesComparation {
        left_attribute: SingleValueAttribute,
        operator: SingleValueOperator,
        right_attribute: ResourceAttribute,
    },
}

/// The value of a single-value attribute of the actor.
pub open spec fn single_value_of(actor: Actor, a: SingleValueAttribute) -> Seq<char> {
    match a {
        SingleValueAttribute::Type => actor.type_@,
        SingleValueAttribute::Id => actor.id@,
    }
}

/// The values of a list-value attribute of the actor.
pub open spec fn list_value_of(actor: Actor, a: ListValueAttribute) -> Seq<Seq<char>> {
    match a {
        ListValueAttribute::Groups => strings_view(actor.groups@),
        ListValueAttribute::Roles => strings_view(actor.roles@),
    }
}

/// Whether the actor satisfies a requirement that compares it with values: equal or
/// distinct single values; an equal list, or a list that holds every value.
pub open spec fn requirement_holds(r: Requirement, actor: Actor) -> bool {
    match r {
        Requirement::SingleValue { attribute, operator, value } => match operator {
            SingleValueOperator::Equal => single_value_of(actor, attribute) == value@,
            SingleValueOperator::Distinct => single_value_of(actor, attribute) != value@,
        },
        Requirement::ListValue { attribute, operator, value } => match operator {
            ListValueOperator::Equal => list_value_of(actor, attribute) == strings_view(value@),
            ListValueOperator::Contains => forall|i: int|
                0 <= i < value@.len() ==> seq_has(list_value_of(actor, attribute), #[trigger] value@[i]@),
        },
        Requirement::AttributesComparation { .. } => false,
    }
}

/// Whether `actor_list` holds every string of `to_find`.
pub fn find_in_list(actor_list: &Vec<String>, to_find: &Vec<String>) -> (r: bool)
    ensures
        r == forall|i: int| 0 <= i < to_find@.len() ==> seq_has(strings_view(actor_list@), #[trigger] to_find@[i]@),
{
    let n = to_find.len();
    let mut i: usize = 0;
    while i < n
        invariant
            n == to_find.len(),
            0 <= i <= n,
            forall|j: int| 0 <= j < i ==> seq_has(strings_view(actor_list@), #[trigger] to_find@[j]@),
        decreases n - i,
    {
        if !strings_contain(actor_list, &to_find[i]) {
            return false;
        }
        i = i + 1;
    }
    true
}

impl Requirement {
    fn compare_single(actor: &Actor, attribute: SingleValueAttribute, operator: SingleValueOperator, value: &String) -> (r: bool)
        ensures
            r == match operator {
                SingleValueOperator::Equal => single_value_of(*actor, attribute) == value@,
                SingleValueOperator::Distinct => single_value_of(*actor, attribute) != value@,
            },
    {
        let own = match attribute {
            SingleValueAttribute::Type => &actor.type_,
            SingleValueAttribute::Id => &actor.id,
        };
        let same = str_eq(own.as_str(), value.as_str());
        match operator {
            SingleValueOperator::Equal => same,
            SingleValueOperator::Distinct => !same,
        }
    }

    fn compare_list(actor: &Actor, attribute: ListValueAttribute, operator: ListValueOperator, value: &Vec<String>) -> (r: bool)
        ensures
            r == match operator {
                ListValueOperator::Equal => list_value_of(*actor, attribute) == strings_view(value@),
                ListValueOperator::Contains => forall|i: int|
                    0 <= i < value@.len() ==> seq_has(list_value_of(*actor, attribute), #[trigger] value@[i]@),
            },
    {
        let own = match attribute {
            ListValueAttribute::Groups => &actor.groups,
            ListValueAttribute::Roles => &actor.roles,
        };
        match operator {
            ListValueOperator::Equal => strings_eq(own, value),
            ListValueOperator::Contains => find_in_list(own, value),
        }
    }

    /// Whether the actor satisfies the requirement.
    ///
    /// A comparison with an attribute of the resource is not decided by this syntax.
    pub fn apply(&self, actor: &Actor) -> (r: bool)
        requires
            !(self is AttributesComparation),
        ensures
            r == requirement_holds(*self, *actor),
    {
        match self {
            Requirement::SingleValue { attribute, operator, value } => Self::compare_single(actor, *attribute, *operator, value),
            Requirement::ListValue { attribute, operator, value } => Self::compare_list(actor, *attribute, *operator, value),
            Requirement::AttributesComparation { .. } => false,
        }
    }
}

} // verus!
