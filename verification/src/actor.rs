//! The actors that authorizations are granted to.
use vstd::prelude::*;

use crate::non_empty::NonEmptyString;

verus! {

/// An actor that asks for authorizations: it has an id and belongs to groups.
pub trait Actor {
    fn id(&self) -> NonEmptyString;

    fn groups(&self) -> Vec<NonEmptyString>;
}

} // verus!
