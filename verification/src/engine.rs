//! Evaluation of access requests against a storage of policies.
pub mod actor;
pub mod resource;

pub use actor::{Actor, AsActor, IntoActor, TryIntoActor};
pub use resource::{AsResource, IntoResource, Resource, TryIntoResource};
pub mod permissions;
pub mod minos_engine;
pub mod engine_info;
pub mod container;

pub use minos_engine::{AuthorizeRequest, Engine, FindPermissionRequest, FindPermissionsRequest};
pub use permissions::Permissions;
pub use container::Container;
