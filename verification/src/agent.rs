//! Agents: actors by another name.
use vstd::prelude::*;

use crate::non_empty::NonEmptyString;

verus! {

/// An agent that asks for authorizations: it has an id and belongs to groups.
pub trait Agent {
    fn id(&self) -> NonEmptyString;

    fn groups(&self) -> Vec<NonEmptyString>;
}

} // verus!
