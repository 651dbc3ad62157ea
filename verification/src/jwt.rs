//! The claims of a token that carries an authorization.
use vstd::prelude::*;

use crate::authorization::{
    failure, permission_of_text, permission_text, permissions_view, opt_text, Authorization, ErrorKind, MinosError, Permission,
    PermissionV,
};
use crate::non_empty::NonEmptyString;
use crate::text::strings_view;

verus! {

/// What a token says of an authorization: its permissions as texts, the actor, the
/// resource, the resource type (empty when it has none) and the expiration.
#[derive(Debug)]
pub struct AuthorizationClaims {
    pub permissions: Vec<String>,
    pub agent_id: String,
    pub resource_id: String,
    pub resource_type: String,
    pub exp: u64,
}

/// The content of an authorization: permissions, actor, resource, resource type and
/// expiration.
pub type AuthorizationV = (Seq<PermissionV>, Seq<char>, Seq<char>, Option<Seq<char>>, u64);

pub open spec fn authorization_view(a: Authorization) -> AuthorizationV {
    (permissions_view(a.permissions@), a.agent_id@, a.resource_id@, opt_text(a.resource_type), a.expiration)
}

/// The content of a set of claims.
pub type ClaimsV = (Seq<Seq<char>>, Seq<char>, Seq<char>, Seq<char>, u64);

pub open spec fn claims_view(c: AuthorizationClaims) -> ClaimsV {
    (strings_view(c.permissions@), c.agent_id@, c.resource_id@, c.resource_type@, c.exp)
}

/// The claims that an authorization gives.
pub open spec fn claims_of(a: AuthorizationV) -> ClaimsV {
    (
        a.0.map_values(|p: PermissionV| permission_text(p)),
        a.1,
        a.2,
        match a.3 {
            Some(t) => t,
            None => Seq::empty(),
        },
        a.4,
    )
}

/// The authorization that claims give, if their ids are not empty.
pub open spec fn authorization_of(c: ClaimsV) -> Option<AuthorizationV> {
    if c.1.len() > 0 && c.2.len() > 0 {
        Some((
            c.0.map_values(|s: Seq<char>| permission_of_text(s)),
            c.1,
            c.2,
            if c.3.len() > 0 {
                Some(c.3)
            } else {
                None
            },
            c.4,
        ))
    } else {
        None
    }
}

/// The error of claims whose actor or resource id is empty.
fn empty_id() -> (r: MinosError)
    ensures
        failure(r) == (ErrorKind::Authorization, "The claims hold an empty id"@),
{
    MinosError::new(ErrorKind::Authorization, "The claims hold an empty id")
}

impl AuthorizationClaims {
    pub fn new(
        permissions: Vec<String>,
        agent_id: NonEmptyString,
        resource_id: NonEmptyString,
        resource_type: String,
        exp: u64,
    ) -> (r: AuthorizationClaims)
        ensures
            r.permissions == permissions,
            r.agent_id@ == agent_id@,
            r.resource_id@ == resource_id@,
            r.resource_type == resource_type,
            r.exp == exp,
    {
        AuthorizationClaims {
            permissions,
            agent_id: agent_id.into_inner(),
            resource_id: resource_id.into_inner(),
            resource_type,
            exp,
        }
    }

    pub fn permissions(&self) -> (r: &Vec<String>)
        ensures
            r == &self.permissions,
    {
        &self.permissions
    }

    pub fn user_id(&self) -> (r: &str)
        ensures
            r@ == self.agent_id@,
    {
        self.agent_id.as_str()
    }

    pub fn resource_id(&self) -> (r: &str)
        ensures
            r@ == self.resource_id@,
    {
        self.resource_id.as_str()
    }

    pub fn resource_type(&self) -> (r: &str)
        ensures
            r@ == self.resource_type@,
    {
        self.resource_type.as_str()
    }

    pub fn expiration(&self) -> (r: u64)
        ensures
            r == self.exp,
    {
        self.exp
    }

    /// The permissions that the texts of the claims name.
    pub fn string_permissions_to_vec_permissions(&self) -> (r: Vec<Permission>)
        ensures
            permissions_view(r@) == strings_view(self.permissions@).map_values(|s: Seq<char>| permission_of_text(s)),
    {
        let mut out: Vec<Permission> = Vec::new();
        let n = self.permissions.len();
        let mut i: usize = 0;
        while i < n
            invariant
                n == self.permissions.len(),
                0 <= i <= n,
                out@.len() == i,
                forall|k: int| 0 <= k < i ==> (#[trigger] out@[k])@ == permission_of_text(self.permissions@[k]@),
            decreases n - i,
        {
            out.push(Permission::from_text(self.permissions[i].as_str()));
            i = i + 1;
        }
        proof {
            assert(permissions_view(out@) =~= strings_view(self.permissions@).map_values(
                |s: Seq<char>| permission_of_text(s),
            ));
        }
        out
    }

    /// The authorization that the claims carry.
    ///
    /// # Errors
    /// An [`ErrorKind::Authorization`] error, "The claims hold an empty id", when the actor or
    /// resource id is empty.
    pub fn as_authorization(&self) -> (r: Result<Authorization, MinosError>)
        ensures
            match authorization_of(claims_view(*self)) {
                Some(a) => r matches Ok(x) && authorization_view(x) == a,
                None => r matches Err(e) && failure(e) == (ErrorKind::Authorization, "The claims hold an empty id"@),
            },
    {
        let agent_id = match NonEmptyString::try_from_str(self.agent_id.as_str()) {
            Some(s) => s,
            None => {
                return Err(empty_id());
            },
        };
        let resource_id = match NonEmptyString::try_from_str(self.resource_id.as_str()) {
            Some(s) => s,
            None => {
                return Err(empty_id());
            },
        };
        Ok(Authorization {
            permissions: self.string_permissions_to_vec_permissions(),
            agent_id,
            resource_id,
            resource_type: NonEmptyString::try_from_str(self.resource_type.as_str()),
            expiration: self.exp,
        })
    }

    /// The texts of a list of permissions.
    pub fn permissions_as_vec_string(permissions: &Vec<Permission>) -> (r: Vec<String>)
        ensures
            strings_view(r@) == permissions_view(permissions@).map_values(|p: PermissionV| permission_text(p)),
    {
        let mut out: Vec<String> = Vec::new();
        let n = permissions.len();
        let mut i: usize = 0;
        while i < n
            invariant
                n == permissions.len(),
                0 <= i <= n,
                out@.len() == i,
                forall|k: int| 0 <= k < i ==> (#[trigger] out@[k])@ == permission_text(permissions@[k]@),
            decreases n - i,
        {
            out.push(permissions[i].to_text());
            i = i + 1;
        }
        proof {
            assert(strings_view(out@) =~= permissions_view(permissions@).map_values(|p: PermissionV| permission_text(p)));
        }
        out
    }

    /// The claims of an authorization; a missing resource type is written empty.
    pub fn from_authorization(auth: &Authorization) -> (r: AuthorizationClaims)
        ensures
            claims_view(r) == claims_of(authorization_view(*auth)),
            r.agent_id@.len() > 0,
            r.resource_id@.len() > 0,
            auth.resource_type is Some ==> r.resource_type@.len() > 0,
    {
        AuthorizationClaims {
            permissions: Self::permissions_as_vec_string(&auth.permissions),
            agent_id: auth.agent_id.get().to_owned(),
            resource_id: auth.resource_id.get().to_owned(),
            resource_type: match &auth.resource_type {
                Some(t) => t.get().to_owned(),
                None => String::new(),
            },
            exp: auth.expiration,
        }
    }
}

/// The basic permissions: create, read, update and delete.
pub open spec fn is_basic(p: PermissionV) -> bool {
    !(p is Custom)
}

/// An authorization whose permissions are all basic is given back by the claims made of it.
pub proof fn lemma_claims_round_trip(a: AuthorizationV)
    requires
        a.1.len() > 0,
        a.2.len() > 0,
        a.3 matches Some(t) ==> t.len() > 0,
        forall|i: int| 0 <= i < a.0.len() ==> is_basic(#[trigger] a.0[i]),
    ensures
        authorization_of(claims_of(a)) == Some(a),
{
    let c = claims_of(a);
    let back = c.0.map_values(|s: Seq<char>| permission_of_text(s));
    assert forall|i: int| 0 <= i < a.0.len() implies #[trigger] back[i] == a.0[i] by {
        crate::authorization::lemma_permission_round_trip(a.0[i]);
    }
    assert(back =~= a.0);
}

} // verus!
