//! Error values reported by the manifest and target models. Every
//! failure is a value; nothing here panics.

use vstd::prelude::*;

verus! {

/// Failure of parsing an override key from its textual form.
#[derive(Debug, Clone, PartialEq, Eq, Structural)]
pub enum OverrideKeyFromStr {
    /// The input held no alias chain at all (the empty string).
    Empty,
}

/// Failure of merging the three dependency maps of a manifest.
#[derive(Debug, Clone)]
pub enum AllDependenciesError {
    /// An alias is used by more than one of the standard, peer and dev
    /// dependency maps; carries the reused alias.
    AliasConflict(String),
}

/// Failure of validating a target for publishing.
#[derive(Debug, Clone, PartialEq, Eq, Structural)]
pub enum TargetValidatePublishError {
    /// Neither a library path nor a binary path is set.
    NoExportedFiles,
    /// The kind requires build files and none are declared.
    NoBuildFiles,
}

/// Failure of parsing a target kind from its textual name.
#[derive(Debug, Clone)]
pub enum TargetKindFromStr {
    /// The name matches no known kind; carries the offending input.
    Unknown(String),
}

} // verus!
