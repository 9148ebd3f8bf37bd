//! The target model: deployment kinds, their canonical order and
//! compatibility relation, and the per-kind export description of a
//! package (`Target`).

use vstd::prelude::*;
use crate::errors::{TargetKindFromStr, TargetValidatePublishError};
use crate::strutil::str_eq;

verus! {

/// The closed set of deployment kinds. The declaration order here is the
/// canonical total order of kinds (`ordinal`): it decides which entry an
/// "any target" query selects and how target summaries are sorted, so it
/// is a stable contract, not an accident of the declaration.
#[derive(Debug, Clone, Copy, PartialEq, Eq, Hash, Structural)]
pub enum TargetKind {
    Roblox,
    Lune,
    Luau,
}

impl TargetKind {
    /// Position of the kind in the canonical total order.
    pub open spec fn ordinal(self) -> int {
        match self {
            TargetKind::Roblox => 0,
            TargetKind::Lune => 1,
            TargetKind::Luau => 2,
        }
    }

    /// The textual name of the kind.
    pub open spec fn kind_str(self) -> Seq<char> {
        match self {
            TargetKind::Roblox => "roblox"@,
            TargetKind::Lune => "lune"@,
            TargetKind::Luau => "luau"@,
        }
    }

    /// Whether a text is the name of some kind.
    pub open spec fn is_kind_name(s: Seq<char>) -> bool {
        s == "roblox"@ || s == "lune"@ || s == "luau"@
    }

    /// A project of kind `self` may link a dependency published for kind
    /// `dependency` exactly when the kinds are equal, or `self` is the
    /// superset kind `Lune` and the dependency was published for `Luau`.
    pub open spec fn compatible(self, dependency: TargetKind) -> bool {
        self == dependency || (self == TargetKind::Lune && dependency == TargetKind::Luau)
    }

    /// The name of the folder dependencies of kind `dependency` are
    /// installed into by a project of kind `self`.
    pub open spec fn packages_folder_str(self, dependency: TargetKind) -> Seq<char> {
        if self == dependency {
            "packages"@
        } else {
            dependency.kind_str() + "_packages"@
        }
    }

    /// The canonical order as an executable comparison.
    pub fn le(self, other: TargetKind) -> (r: bool)
        ensures
            r == (self.ordinal() <= other.ordinal()),
    {
        let a: u8 = match self {
            TargetKind::Roblox => 0,
            TargetKind::Lune => 1,
            TargetKind::Luau => 2,
        };
        let b: u8 = match other {
            TargetKind::Roblox => 0,
            TargetKind::Lune => 1,
            TargetKind::Luau => 2,
        };
        a <= b
    }

    /// The textual name of the kind.
    pub fn name(&self) -> (r: String)
        ensures
            r@ == self.kind_str(),
    {
        match self {
            TargetKind::Roblox => "roblox".to_owned(),
            TargetKind::Lune => "lune".to_owned(),
            TargetKind::Luau => "luau".to_owned(),
        }
    }

    /// Parses a kind from its textual name; any other text is reported
    /// back as unknown.
    pub fn from_str(s: &str) -> (r: Result<TargetKind, TargetKindFromStr>)
        ensures
            r is Ok <==> TargetKind::is_kind_name(s@),
            r matches Ok(k) ==> k.kind_str() == s@,
            r matches Err(TargetKindFromStr::Unknown(t)) ==> t@ == s@,
    {
        if str_eq(s, "roblox") {
            Ok(TargetKind::Roblox)
        } else if str_eq(s, "lune") {
            Ok(TargetKind::Lune)
        } else if str_eq(s, "luau") {
            Ok(TargetKind::Luau)
        } else {
            Err(TargetKindFromStr::Unknown(s.to_owned()))
        }
    }

    /// `self` is the consuming project's kind; `dependency` is the kind a
    /// dependency was published for.
    pub fn is_compatible_with(&self, dependency: &TargetKind) -> (r: bool)
        ensures
            r == self.compatible(*dependency),
    {
        if self == dependency {
            return true;
        }
        match (self, dependency) {
            (TargetKind::Lune, TargetKind::Luau) => true,
            _ => false,
        }
    }

    /// The folder dependencies of kind `dependency` are installed into:
    /// `"packages"` between equal kinds, else the dependency's kind name
    /// followed by `"_packages"`.
    pub fn packages_folder(&self, dependency: &TargetKind) -> (r: String)
        ensures
            r@ == self.packages_folder_str(*dependency),
    {
        if self == dependency {
            return "packages".to_owned();
        }
        let mut folder = dependency.name();
        folder.append("_packages");
        folder
    }
}

/// Law: kind compatibility is reflexive, and holds for no pair outside
/// the fixed allowed set — the only non-reflexive compatible pair is a
/// `Lune` consumer with a `Luau` dependency.
pub proof fn lemma_compatibility(a: TargetKind, b: TargetKind)
    ensures
        a.compatible(a),
        a.compatible(b) ==> a == b || (a == TargetKind::Lune && b == TargetKind::Luau),
{
}

/// Law: the canonical order of kinds is total and antisymmetric, so the
/// minimal kind among any non-empty set of distinct kinds is unique.
pub proof fn lemma_ordinal_injective(a: TargetKind, b: TargetKind)
    ensures
        a.ordinal() == b.ordinal() ==> a == b,
{
}

/// The kind-specific exports of a package: what it publishes for each
/// deployment kind it supports.
#[derive(Debug, Clone)]
pub enum Target {
    /// A Roblox package: a library entry point and the build files that
    /// make up the place tree.
    Roblox { lib: Option<String>, build_files: Vec<String> },
    /// A Lune package: a library and/or a binary entry point, plus named
    /// scripts.
    Lune { lib: Option<String>, bin: Option<String>, scripts: Option<Vec<(String, String)>> },
    /// A bare Luau package: a library and/or a binary entry point, plus
    /// named scripts.
    Luau { lib: Option<String>, bin: Option<String>, scripts: Option<Vec<(String, String)>> },
}

impl Target {
    /// The deployment kind this target describes.
    pub open spec fn spec_kind(self) -> TargetKind {
        match self {
            Target::Roblox { .. } => TargetKind::Roblox,
            Target::Lune { .. } => TargetKind::Lune,
            Target::Luau { .. } => TargetKind::Luau,
        }
    }

    /// The library entry path, if one is declared.
    pub open spec fn spec_lib(self) -> Option<String> {
        match self {
            Target::Roblox { lib, .. } => lib,
            Target::Lune { lib, .. } => lib,
            Target::Luau { lib, .. } => lib,
        }
    }

    /// The binary entry path, if one is declared; a Roblox target has no
    /// notion of a binary.
    pub open spec fn spec_bin(self) -> Option<String> {
        match self {
            Target::Roblox { .. } => None,
            Target::Lune { bin, .. } => bin,
            Target::Luau { bin, .. } => bin,
        }
    }

    /// The named scripts, if the kind carries any.
    pub open spec fn spec_scripts(self) -> Option<Vec<(String, String)>> {
        match self {
            Target::Roblox { .. } => None,
            Target::Lune { scripts, .. } => scripts,
            Target::Luau { scripts, .. } => scripts,
        }
    }

    /// Whether the target exposes at least one of a library or a binary
    /// entry point — the condition for publishing.
    pub open spec fn has_exports(self) -> bool {
        self.spec_lib() is Some || self.spec_bin() is Some
    }

    /// The outcome `validate_publish` owes: `NoExportedFiles` without any
    /// export, `NoBuildFiles` for a Roblox target without build files,
    /// success otherwise.
    pub open spec fn spec_validate_publish(self) -> Result<(), TargetValidatePublishError> {
        if !self.has_exports() {
            Err(TargetValidatePublishError::NoExportedFiles)
        } else if self matches Target::Roblox { build_files, .. } && build_files@.len() == 0 {
            Err(TargetValidatePublishError::NoBuildFiles)
        } else {
            Ok(())
        }
    }

    /// The deployment kind this target describes.
    pub fn kind(&self) -> (r: TargetKind)
        ensures
            r == self.spec_kind(),
    {
        match self {
            Target::Roblox { .. } => TargetKind::Roblox,
            Target::Lune { .. } => TargetKind::Lune,
            Target::Luau { .. } => TargetKind::Luau,
        }
    }

    /// The library entry path, if one is declared.
    pub fn lib_path(&self) -> (r: Option<&String>)
        ensures
            r is Some <==> self.spec_lib() is Some,
            r matches Some(p) ==> self.spec_lib() matches Some(q) && p@ == q@,
    {
        match self {
            Target::Roblox { lib, .. } => lib.as_ref(),
            Target::Lune { lib, .. } => lib.as_ref(),
            Target::Luau { lib, .. } => lib.as_ref(),
        }
    }

    /// The binary entry path, if one is declared; always absent for a
    /// Roblox target.
    pub fn bin_path(&self) -> (r: Option<&String>)
        ensures
            r is Some <==> self.spec_bin() is Some,
            r matches Some(p) ==> self.spec_bin() matches Some(q) && p@ == q@,
    {
        match self {
            Target::Roblox { .. } => None,
            Target::Lune { bin, .. } => bin.as_ref(),
            Target::Luau { bin, .. } => bin.as_ref(),
        }
    }

    /// The named scripts, if the kind carries any.
    pub fn scripts(&self) -> (r: Option<&Vec<(String, String)>>)
        ensures
            r is Some <==> self.spec_scripts() is Some,
            r matches Some(s) ==> self.spec_scripts() matches Some(t) && s@ == t@,
    {
        match self {
            Target::Roblox { .. } => None,
            Target::Lune { scripts, .. } => scripts.as_ref(),
            Target::Luau { scripts, .. } => scripts.as_ref(),
        }
    }

    /// Checks that the target may be published: it must expose at least
    /// one of a library or binary entry point, and a Roblox target must
    /// declare at least one build file.
    pub fn validate_publish(&self) -> (r: Result<(), TargetValidatePublishError>)
        ensures
            r == self.spec_validate_publish(),
    {
        let has_exports = match self {
            Target::Roblox { lib, .. } => lib.is_some(),
            Target::Lune { lib, bin, .. } => lib.is_some() || bin.is_some(),
            Target::Luau { lib, bin, .. } => lib.is_some() || bin.is_some(),
        };

        if !has_exports {
            return Err(TargetValidatePublishError::NoExportedFiles);
        }

        match self {
            Target::Roblox { build_files, .. } => {
                if build_files.len() == 0 {
                    Err(TargetValidatePublishError::NoBuildFiles)
                } else {
                    Ok(())
                }
            },
            _ => Ok(()),
        }
    }
}

} // verus!
