//! Authorization library built around the Minos policy language.
//!
//! Policies are written in Minos text, read by [`parser::MinosParser`] into a
//! [`language::storage::Storage`], and evaluated by [`engine::Engine`]. Beside the
//! language, [`authorization_builder`] grants time-limited [`authorization::Authorization`]s
//! from policies that check ownership and group membership, and [`jwt`] carries them as
//! token claims.
pub mod errors;
pub mod keyed;
pub mod text;

pub mod language;
pub mod parser;
pub mod pattern;
pub mod tokens;

pub mod engine;

pub mod actor;
pub mod agent;
pub mod authorization;
pub mod authorization_builder;
pub mod group;
pub mod jwt;
pub mod non_empty;
pub mod resource_manifest;
pub mod resources;

pub mod minos;
pub mod model;

pub use errors::{Error, MinosResult};
