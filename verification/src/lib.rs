//! A private package registry core: the publish payload codec, the version
//! and key design, the authoritative metadata store with its uniqueness and
//! ownership rules, and token-based authentication.

pub mod api;
pub mod auth;
pub mod checksum;
pub mod codec;
pub mod decimal;
pub mod error;
pub mod index;
pub mod keys;
pub mod order;
pub mod publish;
pub mod registry;
pub mod version;
pub mod writes;

pub use error::RegistryError;
pub use version::{eq_version, Version, VersionView};
