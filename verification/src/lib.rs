//! Core of a package registry for a multi-target scripting ecosystem:
//! the manifest and target data model, override keys, the package
//! reference union, the persisted index record format, and the
//! version/target resolution engine that answers registry queries.

pub mod errors;
pub mod index;
pub mod manifest;
pub mod names;
pub mod package;
pub mod refs;
pub mod resolve;
pub mod specifiers;
pub mod strutil;
pub mod target;
pub mod version;
