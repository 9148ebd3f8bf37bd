//! Dependency specifiers: what a manifest entry asks a backend for — a
//! package by name and version requirement, on the native index or on
//! the legacy foreign registry.

use vstd::prelude::*;
use crate::target::TargetKind;

verus! {

/// A dependency as the manifest declares it, one variant per backend.
#[derive(Debug)]
pub enum DependencySpecifiers {
    /// A package of the native index: its name, the version requirement
    /// text, optionally a named index and a target kind to take it for.
    Pesde {
        name: String,
        version: String,
        index: Option<String>,
        target: Option<TargetKind>,
    },
    /// A package of the legacy foreign registry: its name there, the
    /// version requirement text, and optionally a named index.
    Wally { wally: String, version: String, index: Option<String> },
}

impl Clone for DependencySpecifiers {
    /// A clone carries the same contents.
    fn clone(&self) -> (r: Self)
        ensures
            r == *self,
    {
        match self {
            DependencySpecifiers::Pesde { name, version, index, target } => {
                DependencySpecifiers::Pesde {
                    name: name.clone(),
                    version: version.clone(),
                    index: match index {
                        Some(i) => Some(i.clone()),
                        None => None,
                    },
                    target: match target {
                        Some(t) => Some(*t),
                        None => None,
                    },
                }
            },
            DependencySpecifiers::Wally { wally, version, index } => {
                DependencySpecifiers::Wally {
                    wally: wally.clone(),
                    version: version.clone(),
                    index: match index {
                        Some(i) => Some(i.clone()),
                        None => None,
                    },
                }
            },
        }
    }
}

} // verus!
