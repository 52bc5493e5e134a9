//! Rewrites the dependency versions of a TOML package manifest to the
//! minimal versions compatible under semantic versioning, touching nothing
//! but the version strings themselves.
pub mod document;
pub mod version;
pub mod handle;
pub mod fetch;

