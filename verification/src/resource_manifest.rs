//! What is worth keeping of a resource to build it again: its type, whether it has an
//! owner, and its policies.
use vstd::prelude::*;

use crate::authorization::{failure, opt_text, ErrorKind, MinosError, Policy, PolicyV};
use crate::authorization_builder::policies_view;
use crate::non_empty::NonEmptyString;
use crate::resources::Resource;

verus! {

/// Auxiliary information for building resources, which can be saved in a file or a
/// database.
#[derive(Debug)]
pub struct ResourceManifest {
    /// The type of the resource, which identifies the manifest.
    pub resource_type: NonEmptyString,
    /// Whether the resource has an owner, which spares looking the owner up.
    pub owner: bool,
    pub policies: Vec<Policy>,
}

/// What [`ResourceManifest::from_parts`] gives for a resource of type `resource_type`, with
/// an owner when `has_owner`, and with `policies`.
pub open spec fn manifest_outcome(
    r: Result<ResourceManifest, MinosError>,
    resource_type: Option<Seq<char>>,
    has_owner: bool,
    policies: Seq<Policy>,
) -> bool {
    match resource_type {
        Some(t) => r matches Ok(m) && m.resource_type@ == t && m.owner == has_owner && m.policies@ == policies,
        None => r matches Err(e) && failure(e) == (
            ErrorKind::MissingResourceType,
            "The resource needs an explicit resource type"@,
        ),
    }
}

impl ResourceManifest {
    /// The manifest of a resource of type `resource_type`, with an owner when `has_owner`,
    /// and with `policies`.
    ///
    /// # Errors
    /// [`ErrorKind::MissingResourceType`] when the resource has no type.
    pub fn from_parts(resource_type: Option<NonEmptyString>, has_owner: bool, policies: Vec<Policy>) -> (r: Result<
        ResourceManifest,
        MinosError,
    >)
        ensures
            match resource_type {
                Some(t) => r matches Ok(m) && m.resource_type@ == t@ && m.owner == has_owner && m.policies == policies,
                None => r matches Err(e) && failure(e) == (
                    ErrorKind::MissingResourceType,
                    "The resource needs an explicit resource type"@,
                ),
            },
    {
        proof {
            reveal_strlit("The resource needs an explicit resource type");
        }
        match resource_type {
            Some(t) => Ok(ResourceManifest { resource_type: t, owner: has_owner, policies }),
            None => Err(MinosError::new(ErrorKind::MissingResourceType, "The resource needs an explicit resource type")),
        }
    }

    /// The manifest of a resource, from what it tells about itself: the outcome is that of
    /// [`ResourceManifest::from_parts`] for the type, the owner and the policies that the
    /// resource reports.
    pub fn try_from_resource<R: Resource>(resource: &R) -> (r: Result<ResourceManifest, MinosError>)
        ensures
            r matches Err(e) ==> e.kind == ErrorKind::MissingResourceType,
            exists|t: Option<Seq<char>>, o: bool, ps: Seq<Policy>| #[trigger] manifest_outcome(r, t, o, ps),
    {
        let resource_type = resource.resource_type();
        let has_owner = resource.owner().is_some();
        let policies = resource.policies();
        let ghost t = opt_text(resource_type);
        let ghost ps = policies@;
        let r = Self::from_parts(resource_type, has_owner, policies);
        proof {
            assert(manifest_outcome(r, t, has_owner, ps));
        }
        r
    }

    pub fn resource_type(&self) -> (r: &NonEmptyString)
        ensures
            r == &self.resource_type,
    {
        &self.resource_type
    }

    pub fn owner(&self) -> (r: bool)
        ensures
            r == self.owner,
    {
        self.owner
    }

    /// A copy of the policies.
    pub fn policies(&self) -> (r: Vec<Policy>)
        ensures
            policies_view(r@) == policies_view(self.policies@),
    {
        let mut out: Vec<Policy> = Vec::new();
        let n = self.policies.len();
        let mut i: usize = 0;
        while i < n
            invariant
                n == self.policies.len(),
                0 <= i <= n,
                out@.len() == i,
                forall|k: int| 0 <= k < i ==> (#[trigger] out@[k])@ == self.policies@[k]@,
            decreases n - i,
        {
            out.push(self.policies[i].clone());
            i = i + 1;
        }
        proof {
            assert(policies_view(out@) =~= policies_view(self.policies@));
        }
        out
    }
}

} // verus!
