//! Tools for JavaScript projects: finding and applying dependency updates in
//! a project manifest, and clearing dependency-cache directories.

pub mod classify;
pub mod clean;
pub mod error;
pub mod json;
pub mod manifest;
pub mod semver;
pub mod specifier;
pub mod text;
pub mod update;
pub mod version;
