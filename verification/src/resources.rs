//! The resources that authorizations are granted over.
use vstd::prelude::*;

use crate::authorization::Policy;
use crate::non_empty::NonEmptyString;

verus! {

/// A resource that actors ask authorizations over: its id, its owner if it has one, its
/// policies and its type.
pub trait Resource {
    fn id(&self) -> NonEmptyString;

    fn owner(&self) -> Option<NonEmptyString>;

    fn policies(&self) -> Vec<Policy>;

    fn resource_type(&self) -> Option<NonEmptyString>;
}

} // verus!
