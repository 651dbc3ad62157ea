//! Syntax `0.14`: its token kinds and its requirements.
pub mod lang;
pub mod requirements;
