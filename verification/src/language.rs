//! The policy model: resources, environments, policies, rules and requirements.
pub mod requirements;
pub mod rule;
pub mod policy;
pub mod environment;
pub mod resource;
pub mod storage;
