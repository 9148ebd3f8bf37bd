//! Package references: the closed union over backend variants behind
//! one capability interface, consumed during dependency resolution.

use vstd::prelude::*;
use crate::manifest::DependencyType;
use crate::names::PackageName;
use crate::specifiers::DependencySpecifiers;
use crate::target::TargetKind;
use crate::version::Version;

verus! {

/// The native index-based package source, identified by the URL of its
/// index repository.
#[derive(Debug, Clone)]
pub struct PesdePackageSource {
    pub repo_url: String,
}

/// The legacy foreign-registry package source, identified by the URL of
/// its index repository.
#[derive(Debug, Clone)]
pub struct WallyPackageSource {
    pub repo_url: String,
}

/// The closed union of package sources a reference may point back to.
#[derive(Debug, Clone)]
pub enum PackageSources {
    Pesde(PesdePackageSource),
    Wally(WallyPackageSource),
}

/// A resolved reference to a package of the native index.
#[derive(Debug)]
pub struct PesdePackageRef {
    pub name: PackageName,
    pub version: Version,
    pub index_url: String,
    pub dependencies: Vec<(String, (DependencySpecifiers, DependencyType))>,
    pub target: TargetKind,
}

/// A resolved reference to a package of the legacy foreign registry;
/// such packages always address the Roblox kind.
#[derive(Debug)]
pub struct WallyPackageRef {
    pub name: String,
    pub version: Version,
    pub index_url: String,
    pub dependencies: Vec<(String, (DependencySpecifiers, DependencyType))>,
}

/// All possible package references, one variant per backend.
#[derive(Debug)]
pub enum PackageRefs {
    /// A package of the native index.
    Pesde(PesdePackageRef),
    /// A package of the legacy foreign registry.
    Wally(WallyPackageRef),
}

impl PackageRefs {
    /// Whether this reference points into the legacy foreign registry.
    pub fn is_wally(&self) -> (r: bool)
        ensures
            r == (self matches PackageRefs::Wally(_)),
    {
        match self {
            PackageRefs::Wally(_) => true,
            _ => false,
        }
    }

    /// The dependencies this package was published with.
    pub fn dependencies(&self) -> (r: &Vec<(String, (DependencySpecifiers, DependencyType))>)
        ensures
            r == match self {
                PackageRefs::Pesde(p) => &p.dependencies,
                PackageRefs::Wally(w) => &w.dependencies,
            },
    {
        match self {
            PackageRefs::Pesde(pkg_ref) => &pkg_ref.dependencies,
            PackageRefs::Wally(pkg_ref) => &pkg_ref.dependencies,
        }
    }

    /// Whether this reference is materialized with the current on-disk
    /// package layout; the legacy foreign registry keeps its own.
    pub fn use_new_structure(&self) -> (r: bool)
        ensures
            r == (self matches PackageRefs::Pesde(_)),
    {
        match self {
            PackageRefs::Pesde(_) => true,
            PackageRefs::Wally(_) => false,
        }
    }

    /// The target kind this reference was resolved for.
    pub fn target_kind(&self) -> (r: TargetKind)
        ensures
            r == match self {
                PackageRefs::Pesde(p) => p.target,
                PackageRefs::Wally(_) => TargetKind::Roblox,
            },
    {
        match self {
            PackageRefs::Pesde(pkg_ref) => pkg_ref.target,
            PackageRefs::Wally(_) => TargetKind::Roblox,
        }
    }

    /// The source this reference must be fetched from.
    pub fn source(&self) -> (r: PackageSources)
        ensures
            match (self, r) {
                (PackageRefs::Pesde(p), PackageSources::Pesde(s)) => s.repo_url@ == p.index_url@,
                (PackageRefs::Wally(w), PackageSources::Wally(s)) => s.repo_url@ == w.index_url@,
                _ => false,
            },
    {
        match self {
            PackageRefs::Pesde(pkg_ref) => PackageSources::Pesde(
                PesdePackageSource { repo_url: pkg_ref.index_url.clone() },
            ),
            PackageRefs::Wally(pkg_ref) => PackageSources::Wally(
                WallyPackageSource { repo_url: pkg_ref.index_url.clone() },
            ),
        }
    }
}

} // verus!
