//! The response side of a registry query: per-target summaries and the
//! composed metadata response.

use vstd::prelude::*;
use crate::index::DocEntryKind;
use crate::manifest::DependencyType;
use crate::specifiers::DependencySpecifiers;
use crate::strutil::views_of;
use crate::target::{Target, TargetKind};

verus! {

/// A summary of one published target: its kind, whether it exports a
/// library and a binary, and the names of its scripts.
#[derive(Debug)]
pub struct TargetInfo {
    pub kind: TargetKind,
    pub lib: bool,
    pub bin: bool,
    pub scripts: Vec<String>,
}

/// The names of a target's scripts, in declaration order; empty when
/// the kind carries none.
pub open spec fn script_names_of(t: Target) -> Seq<Seq<char>> {
    match t.spec_scripts() {
        Some(v) => v@.map_values(|p: (String, String)| p.0@),
        None => Seq::<Seq<char>>::empty(),
    }
}

/// Whether the summary describes the target.
pub open spec fn summarizes(info: TargetInfo, t: Target) -> bool {
    &&& info.kind == t.spec_kind()
    &&& info.lib == (t.spec_lib() is Some)
    &&& info.bin == (t.spec_bin() is Some)
    &&& views_of(info.scripts@) == script_names_of(t)
}

impl TargetInfo {
    /// The summary of one target.
    pub fn from_target(target: &Target) -> (r: TargetInfo)
        ensures
            summarizes(r, *target),
    {
        let mut script_names: Vec<String> = Vec::new();
        match target.scripts() {
            None => {
                proof {
                    assert(views_of(script_names@) =~= script_names_of(*target));
                }
            },
            Some(scripts) => {
                let mut i: usize = 0;
                while i < scripts.len()
                    invariant
                        i <= scripts@.len(),
                        target.spec_scripts() matches Some(s) && s@ == scripts@,
                        script_names@.len() == i,
                        forall|j: int|
                            0 <= j < i ==> (#[trigger] script_names@[j])@ == scripts@[j].0@,
                    decreases scripts@.len() - i,
                {
                    script_names.push(scripts[i].0.clone());
                    i += 1;
                }
                proof {
                    assert(views_of(script_names@) =~= script_names_of(*target));
                }
            },
        }
        TargetInfo {
            kind: target.kind(),
            lib: target.lib_path().is_some(),
            bin: target.bin_path().is_some(),
            scripts: script_names,
        }
    }
}

/// The full metadata answer to a registry query: the package identity,
/// the resolved version's textual form, the summaries of every target
/// published under that version in kind order, the entry's metadata
/// texts and timestamp, and its documentation tree and dependency
/// table.
#[derive(Debug)]
pub struct PackageResponse<'a> {
    pub name: String,
    pub version: String,
    pub targets: Vec<TargetInfo>,
    /// Empty when the entry has no description.
    pub description: String,
    /// Seconds since the Unix epoch.
    pub published_at: i64,
    /// Empty when the entry names no license.
    pub license: String,
    pub authors: Vec<String>,
    pub repository: Option<String>,
    pub docs: &'a Vec<DocEntryKind>,
    pub dependencies: &'a Vec<(String, (DependencySpecifiers, DependencyType))>,
}

} // verus!
