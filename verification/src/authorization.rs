//! Authorizations granted to actors over resources, and the policies they come from.
use vstd::prelude::*;

use crate::actor::Actor;
use crate::non_empty::{clone_all, texts, NonEmptyString};
use crate::text::str_eq;

verus! {

/// What went wrong while granting or checking an authorization.
#[derive(Debug, Clone, Copy, PartialEq, Eq, Structural)]
pub enum ErrorKind {
    /// The actor may not do what was asked.
    Authorization,
    /// The policy cannot be applied to the resource.
    IncompatibleAuthPolicy,
    /// A text names no authorization mode.
    ParsePolicyMode,
    /// A resource has no resource type where one is needed.
    MissingResourceType,
}

/// An authorization failure: its kind and a message.
#[derive(Debug)]
pub struct MinosError {
    pub kind: ErrorKind,
    pub message: String,
}

/// The kind and message of an error.
pub open spec fn failure(e: MinosError) -> (ErrorKind, Seq<char>) {
    (e.kind, e.message@)
}

impl MinosError {
    pub fn new(kind: ErrorKind, message: &str) -> (r: MinosError)
        ensures
            r.kind == kind,
            r.message@ == message@,
    {
        MinosError { kind, message: message.to_owned() }
    }

    pub fn kind(&self) -> (r: ErrorKind)
        ensures
            r == self.kind,
    {
        self.kind
    }

    pub fn message(&self) -> (r: &str)
        ensures
            r@ == self.message@,
    {
        self.message.as_str()
    }
}

/// The text that `str::to_lowercase` gives for `s`.
pub uninterp spec fn lowercase(s: Seq<char>) -> Seq<char>;

/// Lowercases `s` with `str::to_lowercase`.
///
/// Trusted: the result is [`lowercase`] of `s`; what the Unicode lowercase mapping is, is
/// not stated.
#[verifier::external_body]
fn to_lowercase(s: &str) -> (r: String)
    ensures
        r@ == lowercase(s@),
{
    s.to_lowercase()
}

/// The text that the `Debug` format of a string gives: the string in double quotes, with
/// its special characters escaped.
pub uninterp spec fn debug_quoted(s: Seq<char>) -> Seq<char>;

/// Formats `s` with `{:?}`.
///
/// Trusted: the result is [`debug_quoted`] of `s`; the escaping rules are not stated.
#[verifier::external_body]
fn debug_str(s: &str) -> (r: String)
    ensures
        r@ == debug_quoted(s@),
{
    format!("{:?}", s)
}

/// Reads the clock with `chrono::Utc::now` and gives its `timestamp`, the seconds since
/// 1970-01-01 00:00:00 UTC.
///
/// Trusted, with nothing stated of the value: it depends on the machine's clock. Like
/// `chrono::Utc::now`, it panics when that clock reads before 1970, a state of the machine
/// that no argument can rule out.
#[verifier::external_body]
pub(crate) fn now_timestamp() -> (r: i64) {
    chrono::Utc::now().timestamp()
}

/// What an actor may do with a resource.
#[derive(Debug)]
pub enum Permission {
    /// The actor can create the resource.
    Create,
    /// The actor can read the resource.
    Read,
    /// The actor can edit the resource, but can't delete it.
    Update,
    /// The actor can delete the resource.
    Delete,
    /// The actor can perform a specific action.
    Custom(String),
}

/// The content of a [`Permission`].
pub enum PermissionV {
    Create,
    Read,
    Update,
    Delete,
    Custom(Seq<char>),
}

impl View for Permission {
    type V = PermissionV;

    open spec fn view(&self) -> PermissionV {
        match self {
            Permission::Create => PermissionV::Create,
            Permission::Read => PermissionV::Read,
            Permission::Update => PermissionV::Update,
            Permission::Delete => PermissionV::Delete,
            Permission::Custom(s) => PermissionV::Custom(s@),
        }
    }
}

impl Clone for Permission {
    fn clone(&self) -> (r: Self)
        ensures
            r@ == self@,
    {
        match self {
            Permission::Create => Permission::Create,
            Permission::Read => Permission::Read,
            Permission::Update => Permission::Update,
            Permission::Delete => Permission::Delete,
            Permission::Custom(s) => Permission::Custom(s.clone()),
        }
    }
}

/// The `Debug` text of a permission: its variant's name, and for a custom permission the
/// quoted action in brackets.
pub open spec fn permission_debug(p: PermissionV) -> Seq<char> {
    match p {
        PermissionV::Create => "Create"@,
        PermissionV::Read => "Read"@,
        PermissionV::Update => "Update"@,
        PermissionV::Delete => "Delete"@,
        PermissionV::Custom(s) => "Custom("@ + debug_quoted(s) + ")"@,
    }
}

/// The text of a permission: its `Debug` text in lowercase.
pub open spec fn permission_text(p: PermissionV) -> Seq<char> {
    match p {
        PermissionV::Create => "create"@,
        PermissionV::Read => "read"@,
        PermissionV::Update => "update"@,
        PermissionV::Delete => "delete"@,
        PermissionV::Custom(s) => lowercase(permission_debug(p)),
    }
}

/// The permission that a text names: one of the four basic ones, or a custom one.
pub open spec fn permission_of_text(s: Seq<char>) -> PermissionV {
    if s == "create"@ {
        PermissionV::Create
    } else if s == "read"@ {
        PermissionV::Read
    } else if s == "update"@ {
        PermissionV::Update
    } else if s == "delete"@ {
        PermissionV::Delete
    } else {
        PermissionV::Custom(s)
    }
}

/// Reading back the text of a basic permission gives the permission.
pub proof fn lemma_permission_round_trip(p: PermissionV)
    requires
        !(p is Custom),
    ensures
        permission_of_text(permission_text(p)) == p,
{
    reveal_strlit("create");
    reveal_strlit("read");
    reveal_strlit("update");
    reveal_strlit("delete");
    assert("create"@.len() == 6 && "read"@.len() == 4 && "update"@.len() == 6 && "delete"@.len() == 6);
    assert("create"@[0] != "update"@[0] && "create"@[0] != "delete"@[0] && "update"@[0] != "delete"@[0]);
}

/// The message of a missing permission.
pub open spec fn required_msg_text(p: PermissionV) -> Seq<char> {
    permission_debug(p) + " permission is required."@
}

/// The views of a list of permissions.
pub open spec fn permissions_view(v: Seq<Permission>) -> Seq<PermissionV> {
    v.map_values(|p: Permission| p@)
}

impl Permission {
    /// The `Debug` text of the permission.
    fn debug_text(&self) -> (r: String)
        ensures
            r@ == permission_debug(self@),
    {
        proof {
            reveal_strlit("Create");
            reveal_strlit("Read");
            reveal_strlit("Update");
            reveal_strlit("Delete");
            reveal_strlit("Custom(");
            reveal_strlit(")");
        }
        match self {
            Permission::Create => "Create".to_owned(),
            Permission::Read => "Read".to_owned(),
            Permission::Update => "Update".to_owned(),
            Permission::Delete => "Delete".to_owned(),
            Permission::Custom(s) => {
                let mut t = "Custom(".to_owned();
                let q = debug_str(s.as_str());
                t.append(q.as_str());
                t.append(")");
                t
            },
        }
    }

    /// The text of the permission, such as `read`.
    pub fn to_text(&self) -> (r: String)
        ensures
            r@ == permission_text(self@),
    {
        proof {
            reveal_strlit("create");
            reveal_strlit("read");
            reveal_strlit("update");
            reveal_strlit("delete");
        }
        match self {
            Permission::Create => "create".to_owned(),
            Permission::Read => "read".to_owned(),
            Permission::Update => "update".to_owned(),
            Permission::Delete => "delete".to_owned(),
            Permission::Custom(_) => {
                let d = self.debug_text();
                to_lowercase(d.as_str())
            },
        }
    }

    /// The permission that a text names.
    pub fn from_text(s: &str) -> (r: Permission)
        ensures
            r@ == permission_of_text(s@),
    {
        if str_eq(s, "create") {
            Permission::Create
        } else if str_eq(s, "read") {
            Permission::Read
        } else if str_eq(s, "update") {
            Permission::Update
        } else if str_eq(s, "delete") {
            Permission::Delete
        } else {
            Permission::Custom(s.to_owned())
        }
    }

    /// A short explanation of the permission being required, such as
    /// `Update permission is required.`
    pub fn required_msg(&self) -> (r: String)
        ensures
            r@ == required_msg_text(self@),
    {
        proof {
            reveal_strlit(" permission is required.");
        }
        let mut t = self.debug_text();
        t.append(" permission is required.");
        t
    }

    /// Create, Read, Update and Delete.
    pub fn crud() -> (r: Vec<Permission>)
        ensures
            permissions_view(r@) == seq![PermissionV::Create, PermissionV::Read, PermissionV::Update, PermissionV::Delete],
    {
        let r = vec![Permission::Create, Permission::Read, Permission::Update, Permission::Delete];
        proof {
            assert(permissions_view(r@) =~= seq![PermissionV::Create, PermissionV::Read, PermissionV::Update, PermissionV::Delete]);
        }
        r
    }

    /// Read, Update and Delete: [`Permission::crud`] without Create.
    pub fn rud() -> (r: Vec<Permission>)
        ensures
            permissions_view(r@) == seq![PermissionV::Read, PermissionV::Update, PermissionV::Delete],
    {
        let r = vec![Permission::Read, Permission::Update, Permission::Delete];
        proof {
            assert(permissions_view(r@) =~= seq![PermissionV::Read, PermissionV::Update, PermissionV::Delete]);
        }
        r
    }

    /// Whether the two permissions are the same.
    pub fn same(&self, other: &Permission) -> (r: bool)
        ensures
            r == (self@ == other@),
    {
        match (self, other) {
            (Permission::Create, Permission::Create) => true,
            (Permission::Read, Permission::Read) => true,
            (Permission::Update, Permission::Update) => true,
            (Permission::Delete, Permission::Delete) => true,
            (Permission::Custom(a), Permission::Custom(b)) => str_eq(a.as_str(), b.as_str()),
            _ => false,
        }
    }
}

/// Whether `list` holds `p`.
pub fn contains_permission(list: &Vec<Permission>, p: &Permission) -> (r: bool)
    ensures
        r == permissions_view(list@).contains(p@),
{
    let n = list.len();
    let mut i: usize = 0;
    while i < n
        invariant
            n == list.len(),
            0 <= i <= n,
            forall|j: int| 0 <= j < i ==> (#[trigger] list@[j])@ != p@,
        decreases n - i,
    {
        if list[i].same(p) {
            proof {
                assert(permissions_view(list@)[i as int] == p@);
            }
            return true;
        }
        i = i + 1;
    }
    proof {
        if permissions_view(list@).contains(p@) {
            let k = choose|k: int| 0 <= k < permissions_view(list@).len() && permissions_view(list@)[k] == p@;
            assert(list@[k]@ == p@);
        }
    }
    false
}

/// A copy of a list of permissions.
pub fn clone_permissions(list: &Vec<Permission>) -> (r: Vec<Permission>)
    ensures
        permissions_view(r@) == permissions_view(list@),
{
    let mut out: Vec<Permission> = Vec::new();
    let n = list.len();
    let mut i: usize = 0;
    while i < n
        invariant
            n == list.len(),
            0 <= i <= n,
            out@.len() == i,
            forall|j: int| 0 <= j < i ==> (#[trigger] out@[j])@ == list@[j]@,
        decreases n - i,
    {
        out.push(list[i].clone());
        i = i + 1;
    }
    proof {
        assert(permissions_view(out@) =~= permissions_view(list@));
    }
    out
}

/// Whether two lists hold the same permissions in the same order.
fn same_permissions(a: &Vec<Permission>, b: &Vec<Permission>) -> (r: bool)
    ensures
        r == (permissions_view(a@) == permissions_view(b@)),
{
    if a.len() != b.len() {
        proof {
            assert(permissions_view(a@).len() != permissions_view(b@).len());
        }
        return false;
    }
    let n = a.len();
    let mut i: usize = 0;
    while i < n
        invariant
            n == a.len(),
            n == b.len(),
            0 <= i <= n,
            forall|j: int| 0 <= j < i ==> (#[trigger] a@[j])@ == b@[j]@,
        decreases n - i,
    {
        if !a[i].same(&b[i]) {
            proof {
                assert(permissions_view(a@)[i as int] != permissions_view(b@)[i as int]);
            }
            return false;
        }
        i = i + 1;
    }
    proof {
        assert(permissions_view(a@) =~= permissions_view(b@));
    }
    true
}

/// Whether two lists hold the same strings in the same order.
fn same_texts(a: &Vec<NonEmptyString>, b: &Vec<NonEmptyString>) -> (r: bool)
    ensures
        r == (texts(a@) == texts(b@)),
{
    if a.len() != b.len() {
        proof {
            assert(texts(a@).len() != texts(b@).len());
        }
        return false;
    }
    let n = a.len();
    let mut i: usize = 0;
    while i < n
        invariant
            n == a.len(),
            n == b.len(),
            0 <= i <= n,
            forall|j: int| 0 <= j < i ==> (#[trigger] a@[j])@ == b@[j]@,
        decreases n - i,
    {
        if !a[i].same(&b[i]) {
            proof {
                assert(texts(a@)[i as int] != texts(b@)[i as int]);
            }
            return false;
        }
        i = i + 1;
    }
    proof {
        assert(texts(a@) =~= texts(b@));
    }
    true
}

/// How an authorization is decided.
#[derive(Debug, Clone, Copy, PartialEq, Eq, Structural)]
pub enum AuthorizationMode {
    /// Granted only if the actor owns the resource.
    Owner,
    /// Granted only if the actor belongs to one of the listed groups.
    SingleGroup,
    /// Granted only if the actor belongs to all of the listed groups.
    MultiGroup,
    /// Granted only if the actor owns the resource and belongs to one of the listed groups.
    OwnerSingleGroup,
    /// Granted only if the actor owns the resource and belongs to all of the listed groups.
    OwnerMultiGroup,
}

pub const OWNER_POLICY_MODE_STR: &'static str = "owner";
pub const SINGLE_GROUP_MODE_STR: &'static str = "single group";
pub const MULTI_GROUP_MODE_STR: &'static str = "multi group";
pub const OWNER_SINGLE_GROUP_MODE_STR: &'static str = "owner and single group";
pub const OWNER_MULTI_GROUP_MODE_STR: &'static str = "owner and multi group";

/// The text of each mode.
pub open spec fn mode_text(m: AuthorizationMode) -> Seq<char> {
    match m {
        AuthorizationMode::Owner => OWNER_POLICY_MODE_STR@,
        AuthorizationMode::SingleGroup => SINGLE_GROUP_MODE_STR@,
        AuthorizationMode::MultiGroup => MULTI_GROUP_MODE_STR@,
        AuthorizationMode::OwnerSingleGroup => OWNER_SINGLE_GROUP_MODE_STR@,
        AuthorizationMode::OwnerMultiGroup => OWNER_MULTI_GROUP_MODE_STR@,
    }
}

/// The mode that a text names, if it names one.
pub open spec fn mode_of_text(s: Seq<char>) -> Option<AuthorizationMode> {
    if s == OWNER_POLICY_MODE_STR@ {
        Some(AuthorizationMode::Owner)
    } else if s == SINGLE_GROUP_MODE_STR@ {
        Some(AuthorizationMode::SingleGroup)
    } else if s == MULTI_GROUP_MODE_STR@ {
        Some(AuthorizationMode::MultiGroup)
    } else if s == OWNER_SINGLE_GROUP_MODE_STR@ {
        Some(AuthorizationMode::OwnerSingleGroup)
    } else if s == OWNER_MULTI_GROUP_MODE_STR@ {
        Some(AuthorizationMode::OwnerMultiGroup)
    } else {
        None
    }
}

impl AuthorizationMode {
    /// The text of the mode, such as `owner and single group`.
    pub fn to_text(&self) -> (r: String)
        ensures
            r@ == mode_text(*self),
    {
        match self {
            AuthorizationMode::Owner => OWNER_POLICY_MODE_STR.to_owned(),
            AuthorizationMode::SingleGroup => SINGLE_GROUP_MODE_STR.to_owned(),
            AuthorizationMode::MultiGroup => MULTI_GROUP_MODE_STR.to_owned(),
            AuthorizationMode::OwnerSingleGroup => OWNER_SINGLE_GROUP_MODE_STR.to_owned(),
            AuthorizationMode::OwnerMultiGroup => OWNER_MULTI_GROUP_MODE_STR.to_owned(),
        }
    }

    /// The mode that `s` names.
    ///
    /// # Errors
    /// A [`ErrorKind::ParsePolicyMode`] error when `s` names no mode.
    pub fn try_from_text(s: &str) -> (r: Result<AuthorizationMode, MinosError>)
        ensures
            match mode_of_text(s@) {
                Some(m) => r == Ok::<AuthorizationMode, MinosError>(m),
                None => r matches Err(e) && failure(e) == (ErrorKind::ParsePolicyMode, "unprocessable string"@),
            },
    {
        if str_eq(s, OWNER_POLICY_MODE_STR) {
            Ok(AuthorizationMode::Owner)
        } else if str_eq(s, SINGLE_GROUP_MODE_STR) {
            Ok(AuthorizationMode::SingleGroup)
        } else if str_eq(s, MULTI_GROUP_MODE_STR) {
            Ok(AuthorizationMode::MultiGroup)
        } else if str_eq(s, OWNER_SINGLE_GROUP_MODE_STR) {
            Ok(AuthorizationMode::OwnerSingleGroup)
        } else if str_eq(s, OWNER_MULTI_GROUP_MODE_STR) {
            Ok(AuthorizationMode::OwnerMultiGroup)
        } else {
            Err(MinosError::new(ErrorKind::ParsePolicyMode, "unprocessable string"))
        }
    }
}

/// How an actor gets permissions over a resource: the authorization mode, the groups it
/// reads, the permissions it grants and how long they last.
#[derive(Debug)]
pub struct Policy {
    /// How long the authorization lasts, in seconds; never 0.
    pub duration: u64,
    pub auth_mode: AuthorizationMode,
    pub groups_ids: Option<Vec<NonEmptyString>>,
    pub permissions: Vec<Permission>,
}

/// The groups of a policy, as texts.
pub open spec fn groups_view(g: Option<Vec<NonEmptyString>>) -> Option<Seq<Seq<char>>> {
    match g {
        Some(v) => Some(texts(v@)),
        None => None,
    }
}

/// The content of a policy.
pub type PolicyV = (u64, AuthorizationMode, Option<Seq<Seq<char>>>, Seq<PermissionV>);

impl View for Policy {
    type V = PolicyV;

    open spec fn view(&self) -> PolicyV {
        (self.duration, self.auth_mode, groups_view(self.groups_ids), permissions_view(self.permissions@))
    }
}

impl Policy {
    /// The duration is never 0.
    pub open spec fn wf(&self) -> bool {
        self.duration > 0
    }

    pub fn new(
        duration: u64,
        auth_mode: AuthorizationMode,
        groups_ids: Option<Vec<NonEmptyString>>,
        permissions: Vec<Permission>,
    ) -> (r: Policy)
        requires
            duration > 0,
        ensures
            r.wf(),
            r.duration == duration,
            r.auth_mode == auth_mode,
            r.groups_ids == groups_ids,
            r.permissions == permissions,
    {
        Policy { duration, auth_mode, groups_ids, permissions }
    }

    pub fn duration(&self) -> (r: u64)
        ensures
            r == self.duration,
    {
        self.duration
    }

    pub fn mode(&self) -> (r: AuthorizationMode)
        ensures
            r == self.auth_mode,
    {
        self.auth_mode
    }

    pub fn groups_ids(&self) -> (r: &Option<Vec<NonEmptyString>>)
        ensures
            r == &self.groups_ids,
    {
        &self.groups_ids
    }

    pub fn permissions(&self) -> (r: &Vec<Permission>)
        ensures
            r == &self.permissions,
    {
        &self.permissions
    }

    /// Whether the two policies are the same in every field.
    pub fn same(&self, other: &Policy) -> (r: bool)
        ensures
            r == (self@ == other@),
    {
        if self.duration != other.duration || self.auth_mode != other.auth_mode {
            return false;
        }
        let groups = match (&self.groups_ids, &other.groups_ids) {
            (Some(a), Some(b)) => same_texts(a, b),
            (None, None) => true,
            _ => false,
        };
        groups && same_permissions(&self.permissions, &other.permissions)
    }
}

impl Clone for Policy {
    fn clone(&self) -> (r: Self)
        ensures
            r@ == self@,
    {
        let groups_ids = match &self.groups_ids {
            Some(g) => Some(clone_all(g)),
            None => None,
        };
        Policy {
            duration: self.duration,
            auth_mode: self.auth_mode,
            groups_ids,
            permissions: clone_permissions(&self.permissions),
        }
    }
}

/// The permissions that an actor holds over a resource, until a time.
#[derive(Debug)]
pub struct Authorization {
    pub permissions: Vec<Permission>,
    pub agent_id: NonEmptyString,
    pub resource_id: NonEmptyString,
    pub resource_type: Option<NonEmptyString>,
    /// The second, since 1970-01-01 00:00:00 UTC, from which the authorization is expired.
    pub expiration: u64,
}

/// The type of a resource, as text.
pub open spec fn opt_text(o: Option<NonEmptyString>) -> Option<Seq<char>> {
    match o {
        Some(s) => Some(s@),
        None => None,
    }
}

/// What [`Authorization::check_at`] finds wrong before it looks at permissions: the
/// authorization is for another resource, is expired at `now`, or is for another actor.
pub open spec fn basic_check_failure(a: Authorization, now: i64, resource_id: Seq<char>, actor_id: Seq<char>) -> Option<
    Seq<char>,
> {
    if a.resource_id@ != resource_id {
        Some("Authorization created for another resource"@)
    } else if a.expiration <= now as u64 {
        Some("The Authorization is expired"@)
    } else if actor_id != a.agent_id@ {
        Some("This Authorization is not for the user "@ + actor_id)
    } else {
        None
    }
}

/// The first of `required` that `granted` lacks.
pub open spec fn first_missing(granted: Seq<PermissionV>, required: Seq<PermissionV>) -> Option<PermissionV>
    decreases required.len(),
{
    if required.len() == 0 {
        None
    } else if !granted.contains(required[0]) {
        Some(required[0])
    } else {
        first_missing(granted, required.drop_first())
    }
}

/// What [`Authorization::check_at`] finds wrong at the time `now` for the actor `actor_id`,
/// asked for the permission `required`.
pub open spec fn check_failure(
    a: Authorization,
    now: i64,
    resource_id: Seq<char>,
    actor_id: Seq<char>,
    required: PermissionV,
) -> Option<Seq<char>> {
    match basic_check_failure(a, now, resource_id, actor_id) {
        Some(m) => Some(m),
        None => if permissions_view(a.permissions@).contains(required) {
            None
        } else {
            Some(required_msg_text(required))
        },
    }
}

/// What [`Authorization::multi_permissions_check_at`] finds wrong at the time `now` for the
/// actor `actor_id`, asked for the permissions `required`.
pub open spec fn multi_check_failure(
    a: Authorization,
    now: i64,
    resource_id: Seq<char>,
    actor_id: Seq<char>,
    required: Seq<PermissionV>,
) -> Option<Seq<char>> {
    match basic_check_failure(a, now, resource_id, actor_id) {
        Some(m) => Some(m),
        None => match first_missing(permissions_view(a.permissions@), required) {
            Some(p) => Some(required_msg_text(p)),
            None => None,
        },
    }
}

/// The outcome of a check that fails with an authorization error of message `m` where there is one.
pub open spec fn outcome_is(r: Result<(), MinosError>, m: Option<Seq<char>>) -> bool {
    match m {
        Some(msg) => r matches Err(e) && failure(e) == (ErrorKind::Authorization, msg),
        None => r is Ok,
    }
}

impl Authorization {
    pub fn permissions(&self) -> (r: Vec<Permission>)
        ensures
            permissions_view(r@) == permissions_view(self.permissions@),
    {
        clone_permissions(&self.permissions)
    }

    pub fn agent_id(&self) -> (r: String)
        ensures
            r@ == self.agent_id@,
    {
        self.agent_id.get().to_owned()
    }

    pub fn resource_id(&self) -> (r: String)
        ensures
            r@ == self.resource_id@,
    {
        self.resource_id.get().to_owned()
    }

    pub fn resource_type(&self) -> (r: Option<NonEmptyString>)
        ensures
            opt_text(r) == opt_text(self.resource_type),
    {
        match &self.resource_type {
            Some(t) => Some(t.clone()),
            None => None,
        }
    }

    pub fn expiration(&self) -> (r: u64)
        ensures
            r == self.expiration,
    {
        self.expiration
    }

    fn basic_check_at(&self, now: i64, resource_id: &str, actor_id: &NonEmptyString) -> (r: Result<(), MinosError>)
        ensures
            outcome_is(r, basic_check_failure(*self, now, resource_id@, actor_id@)),
    {
        proof {
            reveal_strlit("Authorization created for another resource");
            reveal_strlit("The Authorization is expired");
            reveal_strlit("This Authorization is not for the user ");
        }
        if !str_eq(self.resource_id.get(), resource_id) {
            return Err(MinosError::new(ErrorKind::Authorization, "Authorization created for another resource"));
        }
        if self.expiration <= now as u64 {
            return Err(MinosError::new(ErrorKind::Authorization, "The Authorization is expired"));
        }
        if !actor_id.same(&self.agent_id) {
            let mut m = "This Authorization is not for the user ".to_owned();
            m.append(actor_id.get());
            return Err(MinosError { kind: ErrorKind::Authorization, message: m });
        }
        Ok(())
    }

    /// Fails with the message of `permission` being required when the authorization does
    /// not grant it.
    pub fn search_permission(&self, permission: Permission) -> (r: Result<(), MinosError>)
        ensures
            outcome_is(
                r,
                if permissions_view(self.permissions@).contains(permission@) {
                    None
                } else {
                    Some(required_msg_text(permission@))
                },
            ),
    {
        if !contains_permission(&self.permissions, &permission) {
            let m = permission.required_msg();
            return Err(MinosError { kind: ErrorKind::Authorization, message: m });
        }
        Ok(())
    }

    /// Checks, at the time `now`, that the authorization is for `resource_id` and the actor
    /// `actor_id`, is not expired, and grants `required_permission`.
    pub fn check_at(
        &self,
        now: i64,
        resource_id: &str,
        actor_id: &NonEmptyString,
        required_permission: Permission,
    ) -> (r: Result<(), MinosError>)
        ensures
            outcome_is(r, check_failure(*self, now, resource_id@, actor_id@, required_permission@)),
    {
        self.basic_check_at(now, resource_id, actor_id)?;
        self.search_permission(required_permission)
    }

    /// Checks the authorization now, for `resource_id`, `actor` and `required_permission`:
    /// the outcome is that of [`Authorization::check_at`] at the clock's reading and for the
    /// id that the actor gives.
    pub fn check<A: Actor>(&self, resource_id: &str, actor: &A, required_permission: Permission) -> (r: Result<
        (),
        MinosError,
    >)
        ensures
            r is Ok ==> self.resource_id@ == resource_id@ && permissions_view(self.permissions@).contains(
                required_permission@,
            ),
            exists|now: i64, actor_id: Seq<char>|
                outcome_is(r, #[trigger] check_failure(*self, now, resource_id@, actor_id, required_permission@)),
    {
        let now = now_timestamp();
        let id = actor.id();
        let r = self.check_at(now, resource_id, &id, required_permission);
        proof {
            assert(outcome_is(r, check_failure(*self, now, resource_id@, id@, required_permission@)));
        }
        r
    }

    /// Checks, at the time `now`, that the authorization is for `resource_id` and the actor
    /// `actor_id`, is not expired, and grants every permission of `required_permissions`.
    pub fn multi_permissions_check_at(
        &self,
        now: i64,
        resource_id: &str,
        actor_id: &NonEmptyString,
        required_permissions: &Vec<Permission>,
    ) -> (r: Result<(), MinosError>)
        ensures
            outcome_is(r, multi_check_failure(*self, now, resource_id@, actor_id@, permissions_view(required_permissions@))),
    {
        self.basic_check_at(now, resource_id, actor_id)?;
        let ghost granted = permissions_view(self.permissions@);
        let ghost req = permissions_view(required_permissions@);
        let n = required_permissions.len();
        let mut i: usize = 0;
        proof {
            assert(req.skip(0) =~= req);
        }
        while i < n
            invariant
                n == required_permissions.len(),
                0 <= i <= n,
                granted == permissions_view(self.permissions@),
                req == permissions_view(required_permissions@),
                basic_check_failure(*self, now, resource_id@, actor_id@) is None,
                first_missing(granted, req) == first_missing(granted, req.skip(i as int)),
            decreases n - i,
        {
            proof {
                assert(req.skip(i as int)[0] == required_permissions@[i as int]@);
                assert(req.skip(i as int).drop_first() =~= req.skip(i + 1));
            }
            if !contains_permission(&self.permissions, &required_permissions[i]) {
                proof {
                    assert(req.skip(i as int).len() > 0);
                    assert(first_missing(granted, req.skip(i as int)) == Some(required_permissions@[i as int]@));
                }
                let m = required_permissions[i].required_msg();
                return Err(MinosError { kind: ErrorKind::Authorization, message: m });
            }
            i = i + 1;
        }
        proof {
            assert(req.skip(n as int).len() == 0);
        }
        Ok(())
    }

    /// Checks the authorization now, for `resource_id`, `actor` and every permission of
    /// `required_permissions`: the outcome is that of
    /// [`Authorization::multi_permissions_check_at`] at the clock's reading and for the id
    /// that the actor gives.
    pub fn multi_permissions_check<A: Actor>(
        &self,
        resource_id: &str,
        actor: &A,
        required_permissions: &Vec<Permission>,
    ) -> (r: Result<(), MinosError>)
        ensures
            r is Ok ==> self.resource_id@ == resource_id@ && first_missing(
                permissions_view(self.permissions@),
                permissions_view(required_permissions@),
            ) is None,
            exists|now: i64, actor_id: Seq<char>|
                outcome_is(
                    r,
                    #[trigger] multi_check_failure(*self, now, resource_id@, actor_id, permissions_view(required_permissions@)),
                ),
    {
        let now = now_timestamp();
        let id = actor.id();
        let r = self.multi_permissions_check_at(now, resource_id, &id, required_permissions);
        proof {
            assert(outcome_is(
                r,
                multi_check_failure(*self, now, resource_id@, id@, permissions_view(required_permissions@)),
            ));
        }
        r
    }
}

/// No required permission is missing exactly when every one of them is granted; where one
/// is missing, it is the first of the required ones that is not granted.
pub proof fn lemma_first_missing(granted: Seq<PermissionV>, required: Seq<PermissionV>)
    ensures
        first_missing(granted, required) is None <==> forall|i: int|
            0 <= i < required.len() ==> granted.contains(#[trigger] required[i]),
        first_missing(granted, required) matches Some(p) ==> exists|k: int|
            0 <= k < required.len() && #[trigger] required[k] == p && !granted.contains(p) && forall|j: int|
                0 <= j < k ==> granted.contains(#[trigger] required[j]),
    decreases required.len(),
{
    if required.len() > 0 {
        let rest = required.drop_first();
        lemma_first_missing(granted, rest);
        if granted.contains(required[0]) {
            if first_missing(granted, rest) is None {
                assert forall|i: int| 0 <= i < required.len() implies granted.contains(#[trigger] required[i]) by {
                    if i > 0 {
                        assert(required[i] == rest[i - 1]);
                    }
                }
            } else {
                let p = first_missing(granted, rest)->0;
                let k = choose|k: int|
                    0 <= k < rest.len() && #[trigger] rest[k] == p && !granted.contains(p) && forall|j: int|
                        0 <= j < k ==> granted.contains(#[trigger] rest[j]);
                assert(required[k + 1] == p);
                assert forall|j: int| 0 <= j < k + 1 implies granted.contains(#[trigger] required[j]) by {
                    if j > 0 {
                        assert(required[j] == rest[j - 1]);
                    }
                }
                let w = choose|i: int| 0 <= i < rest.len() && !granted.contains(#[trigger] rest[i]);
                assert(required[w + 1] == rest[w]);
            }
        } else {
            assert(required[0] == first_missing(granted, required)->0);
        }
    }
}

/// Checking several permissions at once succeeds exactly when the authorization is for the
/// resource and the actor, is not expired, and grants every one of the required permissions;
/// a failure on permissions names the first required permission that is not granted.
pub proof fn lemma_multi_check_all_granted(
    r: Result<(), MinosError>,
    a: Authorization,
    now: i64,
    resource_id: Seq<char>,
    actor_id: Seq<char>,
    required: Seq<PermissionV>,
)
    requires
        outcome_is(r, multi_check_failure(a, now, resource_id, actor_id, required)),
    ensures
        r is Ok <==> basic_check_failure(a, now, resource_id, actor_id) is None && forall|i: int|
            0 <= i < required.len() ==> permissions_view(a.permissions@).contains(#[trigger] required[i]),
        basic_check_failure(a, now, resource_id, actor_id) is None && r is Err ==> exists|k: int|
            0 <= k < required.len() && !permissions_view(a.permissions@).contains(#[trigger] required[k]) && (forall|
                j: int,
            |
                0 <= j < k ==> permissions_view(a.permissions@).contains(#[trigger] required[j])) && (r matches Err(e)
                && failure(e) == (ErrorKind::Authorization, required_msg_text(required[k]))),
{
    lemma_first_missing(permissions_view(a.permissions@), required);
}

/// Reading back the text of an authorization mode gives the mode.
pub proof fn lemma_mode_round_trip(m: AuthorizationMode)
    ensures
        mode_of_text(mode_text(m)) == Some(m),
{
    reveal_strlit("owner");
    reveal_strlit("single group");
    reveal_strlit("multi group");
    reveal_strlit("owner and single group");
    reveal_strlit("owner and multi group");
    assert("owner"@.len() == 5 && "single group"@.len() == 12 && "multi group"@.len() == 11);
    assert("owner and single group"@.len() == 22 && "owner and multi group"@.len() == 21);
}

} // verus!
