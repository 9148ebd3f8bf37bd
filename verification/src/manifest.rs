//! The manifest model: a package's authored description, override keys
//! with their textual form, and the merge of the three dependency maps
//! into one alias-keyed table with conflict detection.

use vstd::prelude::*;
use crate::errors::{AllDependenciesError, OverrideKeyFromStr};
use crate::names::PackageName;
use crate::specifiers::DependencySpecifiers;
use crate::strutil::{lemma_split_join, spec_join, spec_split, split_on, join_with, views_of};
use crate::target::Target;
use crate::version::{Version, VersionId};

verus! {

/// An override key: a non-empty sequence of alias chains. Its textual
/// form joins the chains with `,`, and the aliases of each chain with
/// `>`.
#[derive(Debug, Clone)]
pub struct OverrideKey(pub Vec<Vec<String>>);

/// The chains an override-key text parses into: the text split on `,`,
/// each piece split on `>`.
pub open spec fn parsed_chains(s: Seq<char>) -> Seq<Seq<Seq<char>>> {
    spec_split(s, ',').map_values(|c: Seq<char>| spec_split(c, '>'))
}

/// The textual form of a sequence of chains: the aliases of each chain
/// joined with `>`, the chains joined with `,`.
pub open spec fn rendered_chains(chains: Seq<Seq<Seq<char>>>) -> Seq<char> {
    spec_join(chains.map_values(|c: Seq<Seq<char>>| spec_join(c, '>')), ',')
}

/// Law: rendering the parsed chains of any override-key text reproduces
/// that text exactly, character for character.
pub proof fn lemma_override_key_round_trip(s: Seq<char>)
    ensures
        rendered_chains(parsed_chains(s)) == s,
{
    let chains = spec_split(s, ',');
    let mapped = parsed_chains(s).map_values(|c: Seq<Seq<char>>| spec_join(c, '>'));
    assert forall|j: int| 0 <= j < chains.len() implies mapped[j] == chains[j] by {
        lemma_split_join(chains[j], '>');
    }
    assert(mapped =~= chains);
    lemma_split_join(s, ',');
}

impl OverrideKey {
    /// The key by its contents: each chain as the views of its aliases.
    pub open spec fn chains(self) -> Seq<Seq<Seq<char>>> {
        self.0@.map_values(|chain: Vec<String>| views_of(chain@))
    }

    /// Parses an override key from its textual form. The empty text
    /// holds no chain and is rejected; any other text parses, each
    /// split segment taken verbatim as an alias.
    pub fn from_str(s: &str) -> (r: Result<OverrideKey, OverrideKeyFromStr>)
        ensures
            r matches Err(e) ==> e == OverrideKeyFromStr::Empty && s@.len() == 0,
            r matches Ok(k) ==> s@.len() > 0 && k.chains() == parsed_chains(s@),
    {
        if s.unicode_len() == 0 {
            return Err(OverrideKeyFromStr::Empty);
        }
        let chain_texts = split_on(s, ',');
        let mut chains: Vec<Vec<String>> = Vec::new();
        let mut i: usize = 0;
        while i < chain_texts.len()
            invariant
                i <= chain_texts@.len(),
                views_of(chain_texts@) == spec_split(s@, ','),
                chains@.len() == i,
                forall|j: int|
                    0 <= j < i ==> views_of(#[trigger] chains@[j]@) == spec_split(
                        chain_texts@[j]@,
                        '>',
                    ),
            decreases chain_texts@.len() - i,
        {
            chains.push(split_on(chain_texts[i].as_str(), '>'));
            i += 1;
        }
        let key = OverrideKey(chains);
        proof {
            assert forall|j: int| 0 <= j < chains@.len() implies key.chains()[j] == parsed_chains(
                s@,
            )[j] by {
                assert(views_of(chain_texts@)[j] == chain_texts@[j]@);
            }
            assert(key.chains() =~= parsed_chains(s@));
        }
        Ok(key)
    }

    /// Renders the key in its textual form, the exact inverse of
    /// `from_str` for every key that parsing can reach.
    pub fn text(&self) -> (r: String)
        ensures
            r@ == rendered_chains(self.chains()),
    {
        let gt = ">";
        let comma = ",";
        proof {
            reveal_strlit(">");
            reveal_strlit(",");
            assert(gt@ =~= seq!['>']);
            assert(comma@ =~= seq![',']);
        }
        let mut parts: Vec<String> = Vec::new();
        let mut i: usize = 0;
        while i < self.0.len()
            invariant
                i <= self.0@.len(),
                gt@ == seq!['>'],
                parts@.len() == i,
                forall|j: int|
                    0 <= j < i ==> (#[trigger] parts@[j])@ == spec_join(
                        views_of(self.0@[j]@),
                        '>',
                    ),
            decreases self.0@.len() - i,
        {
            parts.push(join_with(&self.0[i], gt));
            i += 1;
        }
        let r = join_with(&parts, comma);
        proof {
            let mapped = self.chains().map_values(|c: Seq<Seq<char>>| spec_join(c, '>'));
            assert forall|j: int| 0 <= j < parts@.len() implies views_of(parts@)[j] == mapped[j] by {
                assert(views_of(parts@)[j] == parts@[j]@);
            }
            assert(views_of(parts@) =~= mapped);
        }
        r
    }
}

/// The scripts the tooling may look up by a well-known name.
#[derive(Debug, Clone, Copy, PartialEq, Eq, Hash, Structural)]
pub enum ScriptName {
    /// Generates the sync configuration of a Roblox project.
    RobloxSyncConfigGenerator,
    /// Generates a sourcemap for a legacy foreign-registry package.
    SourcemapGenerator,
}

impl ScriptName {
    /// The textual name of the script.
    pub open spec fn script_str(self) -> Seq<char> {
        match self {
            ScriptName::RobloxSyncConfigGenerator => "roblox_sync_config_generator"@,
            ScriptName::SourcemapGenerator => "sourcemap_generator"@,
        }
    }

    /// The textual name of the script.
    pub fn name(&self) -> (r: String)
        ensures
            r@ == self.script_str(),
    {
        match self {
            ScriptName::RobloxSyncConfigGenerator => "roblox_sync_config_generator".to_owned(),
            ScriptName::SourcemapGenerator => "sourcemap_generator".to_owned(),
        }
    }
}

/// The role a merged dependency entry came from.
#[derive(Debug, Clone, Copy, PartialEq, Eq, Hash, Structural)]
pub enum DependencyType {
    Standard,
    Dev,
    Peer,
}

/// An alias-keyed table of dependency specifiers, in declaration order.
pub type DependencyMap = Vec<(String, DependencySpecifiers)>;

/// The alias views of a dependency table.
pub open spec fn alias_keys(m: Seq<(String, DependencySpecifiers)>) -> Seq<Seq<char>> {
    m.map_values(|p: (String, DependencySpecifiers)| p.0@)
}

/// Every alias of the table is used once.
pub open spec fn unique_aliases(m: Seq<(String, DependencySpecifiers)>) -> bool {
    forall|i: int, j: int| 0 <= i < j < m.len() ==> alias_keys(m)[i] != alias_keys(m)[j]
}

/// Whether some entry of the table uses the alias.
pub open spec fn has_alias(m: Seq<(String, DependencySpecifiers)>, a: Seq<char>) -> bool {
    exists|i: int| 0 <= i < m.len() && alias_keys(m)[i] == a
}

/// No alias is shared between the two tables.
pub open spec fn disjoint_aliases(
    a: Seq<(String, DependencySpecifiers)>,
    b: Seq<(String, DependencySpecifiers)>,
) -> bool {
    forall|i: int| 0 <= i < a.len() ==> !has_alias(b, #[trigger] alias_keys(a)[i])
}

/// The table with each entry tagged by the role it came from.
pub open spec fn tagged(
    m: Seq<(String, DependencySpecifiers)>,
    ty: DependencyType,
) -> Seq<(String, (DependencySpecifiers, DependencyType))> {
    m.map_values(|p: (String, DependencySpecifiers)| (p.0, (p.1, ty)))
}

/// A package's authored description: identity, version, metadata, its
/// one target, tables of indices and overrides, and the three
/// dependency maps.
#[derive(Debug, Clone)]
pub struct Manifest {
    pub name: PackageName,
    pub version: Version,
    pub description: Option<String>,
    pub license: Option<String>,
    pub authors: Option<Vec<String>>,
    pub repository: Option<String>,
    pub target: Target,
    pub private: bool,
    pub scripts: Vec<(String, String)>,
    pub indices: Vec<(String, String)>,
    pub wally_indices: Vec<(String, String)>,
    pub overrides: Vec<(OverrideKey, DependencySpecifiers)>,
    pub includes: Vec<String>,
    pub patches: Vec<(PackageName, Vec<(VersionId, String)>)>,
    pub dependencies: DependencyMap,
    pub peer_dependencies: DependencyMap,
    pub dev_dependencies: DependencyMap,
}

/// Whether the table already holds the alias.
fn contains_alias(m: &Vec<(String, (DependencySpecifiers, DependencyType))>, alias: &String) -> (r:
    bool)
    ensures
        r == exists|i: int| 0 <= i < m@.len() && (#[trigger] m@[i]).0@ == alias@,
{
    let mut i: usize = 0;
    while i < m.len()
        invariant
            i <= m@.len(),
            forall|j: int| 0 <= j < i ==> (#[trigger] m@[j]).0@ != alias@,
        decreases m@.len() - i,
    {
        if m[i].0 == *alias {
            return true;
        }
        i += 1;
    }
    false
}

impl Manifest {
    /// The three dependency maps each use their aliases once — what the
    /// manifest's authored form guarantees by construction.
    pub open spec fn wf_dependencies(self) -> bool {
        unique_aliases(self.dependencies@) && unique_aliases(self.peer_dependencies@)
            && unique_aliases(self.dev_dependencies@)
    }

    /// Merges the standard, peer and dev dependencies, in that order,
    /// into one alias-keyed table tagging each entry with its role.
    /// Succeeds exactly when no alias is shared between two of the
    /// three maps; otherwise reports a reused alias.
    pub fn all_dependencies(&self) -> (r: Result<
        Vec<(String, (DependencySpecifiers, DependencyType))>,
        AllDependenciesError,
    >)
        requires
            self.wf_dependencies(),
        ensures
            r is Ok <==> disjoint_aliases(self.peer_dependencies@, self.dependencies@)
                && disjoint_aliases(self.dev_dependencies@, self.dependencies@)
                && disjoint_aliases(self.dev_dependencies@, self.peer_dependencies@),
            r matches Ok(m) ==> m@ == tagged(self.dependencies@, DependencyType::Standard)
                + tagged(self.peer_dependencies@, DependencyType::Peer) + tagged(
                self.dev_dependencies@,
                DependencyType::Dev,
            ),
            r matches Ok(m) ==> m@.len() == self.dependencies@.len()
                + self.peer_dependencies@.len() + self.dev_dependencies@.len(),
            r matches Err(AllDependenciesError::AliasConflict(a)) ==> {
                ||| has_alias(self.dependencies@, a@) && has_alias(self.peer_dependencies@, a@)
                ||| has_alias(self.dependencies@, a@) && has_alias(self.dev_dependencies@, a@)
                ||| has_alias(self.peer_dependencies@, a@) && has_alias(self.dev_dependencies@, a@)
            },
    {
        let mut all: Vec<(String, (DependencySpecifiers, DependencyType))> = Vec::new();

        let mut i: usize = 0;
        while i < self.dependencies.len()
            invariant
                i <= self.dependencies@.len(),
                all@ =~= tagged(self.dependencies@.take(i as int), DependencyType::Standard),
            decreases self.dependencies@.len() - i,
        {
            let (alias, spec) = (&self.dependencies[i].0, &self.dependencies[i].1);
            all.push((alias.clone(), (spec.clone(), DependencyType::Standard)));
            proof {
                assert(self.dependencies@.take(i + 1).drop_last() =~= self.dependencies@.take(
                    i as int,
                ));
                assert(all@ =~= tagged(self.dependencies@.take(i + 1), DependencyType::Standard));
            }
            i += 1;
        }
        proof {
            assert(self.dependencies@.take(self.dependencies@.len() as int)
                =~= self.dependencies@);
        }

        let ghost std_part = tagged(self.dependencies@, DependencyType::Standard);

        let mut i: usize = 0;
        while i < self.peer_dependencies.len()
            invariant
                i <= self.peer_dependencies@.len(),
                unique_aliases(self.peer_dependencies@),
                all@ =~= std_part + tagged(
                    self.peer_dependencies@.take(i as int),
                    DependencyType::Peer,
                ),
                std_part == tagged(self.dependencies@, DependencyType::Standard),
                forall|j: int|
                    0 <= j < i ==> !has_alias(
                        self.dependencies@,
                        #[trigger] alias_keys(self.peer_dependencies@)[j],
                    ),
            decreases self.peer_dependencies@.len() - i,
        {
            let (alias, spec) = (&self.peer_dependencies[i].0, &self.peer_dependencies[i].1);
            proof {
                assert(alias_keys(self.peer_dependencies@)[i as int] == alias@);
            }
            if contains_alias(&all, alias) {
                proof {
                    let k = choose|k: int| 0 <= k < all@.len() && all@[k].0@ == alias@;
                    if k < std_part.len() {
                        assert(all@[k] == std_part[k]);
                        assert(std_part[k].0 == self.dependencies@[k].0);
                        assert(alias_keys(self.dependencies@)[k] == alias@);
                        assert(has_alias(self.dependencies@, alias@));
                        assert(has_alias(self.peer_dependencies@, alias@));
                    } else {
                        let pk = k - std_part.len();
                        let prefix = self.peer_dependencies@.take(i as int);
                        assert(all@[k] == tagged(prefix, DependencyType::Peer)[pk]);
                        assert(tagged(prefix, DependencyType::Peer)[pk].0 == prefix[pk].0);
                        assert(alias_keys(self.peer_dependencies@)[pk] == alias@);
                        assert(false);
                    }
                }
                return Err(AllDependenciesError::AliasConflict(alias.clone()));
            }
            proof {
                assert(!has_alias(self.dependencies@, alias@)) by {
                    if has_alias(self.dependencies@, alias@) {
                        let k = choose|k: int|
                            0 <= k < self.dependencies@.len() && alias_keys(
                                self.dependencies@,
                            )[k] == alias@;
                        assert(all@[k] == std_part[k]);
                        assert(std_part[k].0 == self.dependencies@[k].0);
                        assert(all@[k].0@ == alias@);
                    }
                };
            }
            all.push((alias.clone(), (spec.clone(), DependencyType::Peer)));
            proof {
                assert(self.peer_dependencies@.take(i + 1).drop_last()
                    =~= self.peer_dependencies@.take(i as int));
                assert(all@ =~= std_part + tagged(
                    self.peer_dependencies@.take(i + 1),
                    DependencyType::Peer,
                ));
            }
            i += 1;
        }
        proof {
            assert(self.peer_dependencies@.take(self.peer_dependencies@.len() as int)
                =~= self.peer_dependencies@);
        }

        let ghost peer_part = tagged(self.peer_dependencies@, DependencyType::Peer);

        let mut i: usize = 0;
        while i < self.dev_dependencies.len()
            invariant
                i <= self.dev_dependencies@.len(),
                unique_aliases(self.dev_dependencies@),
                all@ =~= std_part + peer_part + tagged(
                    self.dev_dependencies@.take(i as int),
                    DependencyType::Dev,
                ),
                std_part == tagged(self.dependencies@, DependencyType::Standard),
                peer_part == tagged(self.peer_dependencies@, DependencyType::Peer),
                disjoint_aliases(self.peer_dependencies@, self.dependencies@),
                forall|j: int|
                    0 <= j < i ==> !has_alias(
                        self.dependencies@,
                        #[trigger] alias_keys(self.dev_dependencies@)[j],
                    ) && !has_alias(
                        self.peer_dependencies@,
                        alias_keys(self.dev_dependencies@)[j],
                    ),
            decreases self.dev_dependencies@.len() - i,
        {
            let (alias, spec) = (&self.dev_dependencies[i].0, &self.dev_dependencies[i].1);
            proof {
                assert(alias_keys(self.dev_dependencies@)[i as int] == alias@);
            }
            if contains_alias(&all, alias) {
                proof {
                    let k = choose|k: int| 0 <= k < all@.len() && all@[k].0@ == alias@;
                    assert(has_alias(self.dev_dependencies@, alias@));
                    if k < std_part.len() {
                        assert(all@[k] == std_part[k]);
                        assert(std_part[k].0 == self.dependencies@[k].0);
                        assert(alias_keys(self.dependencies@)[k] == alias@);
                        assert(has_alias(self.dependencies@, alias@));
                    } else if k < std_part.len() + peer_part.len() {
                        let pk = k - std_part.len();
                        assert(all@[k] == peer_part[pk]);
                        assert(peer_part[pk].0 == self.peer_dependencies@[pk].0);
                        assert(alias_keys(self.peer_dependencies@)[pk] == alias@);
                        assert(has_alias(self.peer_dependencies@, alias@));
                    } else {
                        let dk = k - std_part.len() - peer_part.len();
                        let prefix = self.dev_dependencies@.take(i as int);
                        assert(all@[k] == tagged(prefix, DependencyType::Dev)[dk]);
                        assert(tagged(prefix, DependencyType::Dev)[dk].0 == prefix[dk].0);
                        assert(alias_keys(self.dev_dependencies@)[dk] == alias@);
                        assert(false);
                    }
                }
                return Err(AllDependenciesError::AliasConflict(alias.clone()));
            }
            proof {
                assert(!has_alias(self.dependencies@, alias@)) by {
                    if has_alias(self.dependencies@, alias@) {
                        let k = choose|k: int|
                            0 <= k < self.dependencies@.len() && alias_keys(
                                self.dependencies@,
                            )[k] == alias@;
                        assert(all@[k] == std_part[k]);
                        assert(std_part[k].0 == self.dependencies@[k].0);
                        assert(all@[k].0@ == alias@);
                    }
                };
                assert(!has_alias(self.peer_dependencies@, alias@)) by {
                    if has_alias(self.peer_dependencies@, alias@) {
                        let k = choose|k: int|
                            0 <= k < self.peer_dependencies@.len() && alias_keys(
                                self.peer_dependencies@,
                            )[k] == alias@;
                        assert(all@[std_part.len() + k] == peer_part[k]);
                        assert(peer_part[k].0 == self.peer_dependencies@[k].0);
                        assert(all@[std_part.len() + k].0@ == alias@);
                    }
                };
            }
            all.push((alias.clone(), (spec.clone(), DependencyType::Dev)));
            proof {
                assert(self.dev_dependencies@.take(i + 1).drop_last()
                    =~= self.dev_dependencies@.take(i as int));
                assert(all@ =~= std_part + peer_part + tagged(
                    self.dev_dependencies@.take(i + 1),
                    DependencyType::Dev,
                ));
            }
            i += 1;
        }
        proof {
            assert(self.dev_dependencies@.take(self.dev_dependencies@.len() as int)
                =~= self.dev_dependencies@);
        }

        Ok(all)
    }
}

} // verus!
