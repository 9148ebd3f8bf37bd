use pesde::errors::{AllDependenciesError, TargetValidatePublishError};
use pesde::index::{DocEntryKind, IndexFile, IndexFileEntry};
use pesde::manifest::{DependencyType, Manifest, OverrideKey, ScriptName};
use pesde::names::PackageName;
use pesde::package::TargetInfo;
use pesde::refs::{PackageRefs, PackageSources, PesdePackageRef, WallyPackageRef};
use pesde::resolve::{
    get_package_version, negotiate, PackageVersionResponse, Query, ResponseFormat, TargetRequest,
    VersionRequest,
};
use pesde::specifiers::DependencySpecifiers;
use pesde::strutil::Cmp;
use pesde::target::{Target, TargetKind};
use pesde::version::{Version, VersionId};

fn ver(major: u64, minor: u64, patch: u64) -> Version {
    Version { major, minor, patch, pre: Vec::new(), build: String::new() }
}

fn entry(target: Target) -> IndexFileEntry {
    IndexFileEntry {
        target,
        description: None,
        license: None,
        authors: Vec::new(),
        repository: None,
        published_at: 0,
        dependencies: Vec::new(),
        docs: Vec::new(),
    }
}

fn luau_target() -> Target {
    Target::Luau { lib: Some("lib.luau".to_string()), bin: None, scripts: None }
}

fn lune_target() -> Target {
    Target::Lune { lib: Some("lib.luau".to_string()), bin: None, scripts: None }
}

fn name() -> PackageName {
    PackageName { scope: "acme".to_string(), name: "pkg".to_string() }
}

fn plain_query() -> Query {
    Query { doc: None }
}

fn manifest_with(
    dependencies: Vec<(String, DependencySpecifiers)>,
    peer_dependencies: Vec<(String, DependencySpecifiers)>,
    dev_dependencies: Vec<(String, DependencySpecifiers)>,
) -> Manifest {
    Manifest {
        name: name(),
        version: ver(1, 0, 0),
        description: None,
        license: None,
        authors: None,
        repository: None,
        target: luau_target(),
        private: false,
        scripts: Vec::new(),
        indices: Vec::new(),
        wally_indices: Vec::new(),
        overrides: Vec::new(),
        includes: Vec::new(),
        patches: Vec::new(),
        dependencies,
        peer_dependencies,
        dev_dependencies,
    }
}

fn spec(name: &str) -> DependencySpecifiers {
    DependencySpecifiers::Pesde {
        name: name.to_string(),
        version: "^1".to_string(),
        index: None,
        target: None,
    }
}

#[test]
fn override_key_round_trips() {
    let key = OverrideKey::from_str("a>b,c>d>e,f").unwrap();
    assert_eq!(key.text(), "a>b,c>d>e,f");
    assert_eq!(key.0.len(), 3);
    assert_eq!(key.0[1], vec!["c".to_string(), "d".to_string(), "e".to_string()]);
}

#[test]
fn override_key_keeps_empty_aliases() {
    let key = OverrideKey::from_str("a>>b").unwrap();
    assert_eq!(key.0[0], vec!["a".to_string(), "".to_string(), "b".to_string()]);
    assert_eq!(key.text(), "a>>b");
}

#[test]
fn override_key_rejects_empty() {
    assert!(OverrideKey::from_str("").is_err());
}

#[test]
fn all_dependencies_merges_disjoint_maps() {
    let m = manifest_with(
        vec![("a".to_string(), spec("x"))],
        vec![("b".to_string(), spec("y"))],
        vec![("c".to_string(), spec("z"))],
    );
    let all = m.all_dependencies().unwrap();
    assert_eq!(all.len(), 3);
    assert_eq!(all[0].0, "a");
    assert!(matches!(all[0].1 .1, DependencyType::Standard));
    assert!(matches!(all[1].1 .1, DependencyType::Peer));
    assert!(matches!(all[2].1 .1, DependencyType::Dev));
}

#[test]
fn all_dependencies_reports_reused_alias() {
    let m = manifest_with(
        vec![("a".to_string(), spec("x"))],
        vec![("a".to_string(), spec("y"))],
        Vec::new(),
    );
    let AllDependenciesError::AliasConflict(alias) = m.all_dependencies().unwrap_err();
    assert_eq!(alias, "a");
}

#[test]
fn compatibility_is_reflexive_and_fixed() {
    for k in [TargetKind::Roblox, TargetKind::Lune, TargetKind::Luau] {
        assert!(k.is_compatible_with(&k));
    }
    assert!(TargetKind::Lune.is_compatible_with(&TargetKind::Luau));
    assert!(!TargetKind::Luau.is_compatible_with(&TargetKind::Lune));
    assert!(!TargetKind::Roblox.is_compatible_with(&TargetKind::Lune));
    assert!(!TargetKind::Lune.is_compatible_with(&TargetKind::Roblox));
    assert!(!TargetKind::Roblox.is_compatible_with(&TargetKind::Luau));
    assert!(!TargetKind::Luau.is_compatible_with(&TargetKind::Roblox));
}

#[test]
fn packages_folder_names() {
    assert_eq!(TargetKind::Luau.packages_folder(&TargetKind::Luau), "packages");
    assert_eq!(TargetKind::Lune.packages_folder(&TargetKind::Luau), "luau_packages");
    assert_eq!(TargetKind::Luau.packages_folder(&TargetKind::Roblox), "roblox_packages");
}

#[test]
fn target_kind_names_round_trip() {
    for k in [TargetKind::Roblox, TargetKind::Lune, TargetKind::Luau] {
        assert_eq!(TargetKind::from_str(&k.name()).unwrap(), k);
    }
    match TargetKind::from_str("unknown") {
        Err(e) => {
            let pesde::errors::TargetKindFromStr::Unknown(t) = e;
            assert_eq!(t, "unknown");
        }
        Ok(_) => panic!("parsed an unknown kind"),
    }
}

#[test]
fn validate_publish_requires_exports() {
    let t = Target::Luau { lib: None, bin: None, scripts: None };
    assert!(matches!(
        t.validate_publish().unwrap_err(),
        TargetValidatePublishError::NoExportedFiles
    ));
    let t = Target::Roblox { lib: None, build_files: vec!["default.project.json".to_string()] };
    assert!(matches!(
        t.validate_publish().unwrap_err(),
        TargetValidatePublishError::NoExportedFiles
    ));
}

#[test]
fn validate_publish_requires_build_files_for_roblox() {
    let t = Target::Roblox { lib: Some("lib.luau".to_string()), build_files: Vec::new() };
    assert!(matches!(
        t.validate_publish().unwrap_err(),
        TargetValidatePublishError::NoBuildFiles
    ));
    let t = Target::Roblox {
        lib: Some("lib.luau".to_string()),
        build_files: vec!["default.project.json".to_string()],
    };
    assert!(t.validate_publish().is_ok());
    assert!(luau_target().validate_publish().is_ok());
}

#[test]
fn version_parse_reads_components() {
    let v = Version::parse("1.2.3").unwrap();
    assert_eq!((v.major, v.minor, v.patch), (1, 2, 3));
    assert!(v.pre.is_empty());
    assert_eq!(v.build, "");

    let v = Version::parse("2.0.0-alpha.7+build5").unwrap();
    assert_eq!((v.major, v.minor, v.patch), (2, 0, 0));
    assert_eq!(v.pre, vec!["alpha".to_string(), "7".to_string()]);
    assert_eq!(v.build, "build5");

    assert!(Version::parse("1.0").is_none());
    assert!(Version::parse("not-a-version").is_none());
}

#[test]
fn version_text_renders() {
    assert_eq!(ver(1, 2, 3).text(), "1.2.3");
    let v = Version {
        major: 2,
        minor: 0,
        patch: 0,
        pre: vec!["alpha".to_string(), "1".to_string()],
        build: "xyz".to_string(),
    };
    assert_eq!(v.text(), "2.0.0-alpha.1+xyz");
    let id = VersionId { version: ver(1, 0, 0), target: TargetKind::Luau };
    assert_eq!(id.text(), "1.0.0+luau");
}

#[test]
fn version_order_follows_precedence() {
    let a = Version::parse("1.0.0").unwrap();
    let b = Version::parse("1.2.0").unwrap();
    assert_eq!(a.compare(&b), Cmp::Lt);
    let pre = Version::parse("1.0.0-alpha").unwrap();
    assert_eq!(pre.compare(&a), Cmp::Lt);
    let p8 = Version::parse("1.0.0-pre.8").unwrap();
    let p12 = Version::parse("1.0.0-pre.12").unwrap();
    assert_eq!(p8.compare(&p12), Cmp::Lt);
    let lex = Version::parse("1.0.0-pre.x").unwrap();
    assert_eq!(p12.compare(&lex), Cmp::Lt);
}

fn index_two_versions() -> IndexFile {
    IndexFile {
        entries: vec![
            (
                VersionId { version: ver(1, 0, 0), target: TargetKind::Luau },
                entry(luau_target()),
            ),
            (
                VersionId { version: ver(1, 2, 0), target: TargetKind::Luau },
                entry(luau_target()),
            ),
        ],
    }
}

#[test]
fn latest_any_selects_highest_version() {
    let index = index_two_versions();
    let r = get_package_version(
        &name(),
        Some(&index),
        &VersionRequest::Latest,
        &TargetRequest::Any,
        &plain_query(),
        None,
    );
    match r {
        PackageVersionResponse::Metadata(resp) => {
            assert_eq!(resp.version, "1.2.0");
            assert_eq!(resp.name, "acme/pkg");
        }
        _ => panic!("expected metadata"),
    }
}

#[test]
fn specific_target_is_not_coerced() {
    // 1.0.0 has only a Luau entry; Lune exists only under 1.2.0.
    let index = IndexFile {
        entries: vec![
            (
                VersionId { version: ver(1, 0, 0), target: TargetKind::Luau },
                entry(luau_target()),
            ),
            (
                VersionId { version: ver(1, 2, 0), target: TargetKind::Lune },
                entry(lune_target()),
            ),
        ],
    };
    let r = get_package_version(
        &name(),
        Some(&index),
        &VersionRequest::Specific(ver(1, 0, 0)),
        &TargetRequest::Specific(TargetKind::Lune),
        &plain_query(),
        None,
    );
    assert!(matches!(r, PackageVersionResponse::NotFound));
}

#[test]
fn any_target_breaks_ties_by_kind_order() {
    // One version, two target kinds, either storage order: Lune wins
    // over Luau because it comes first in the canonical order.
    for flip in [false, true] {
        let mut entries = vec![
            (
                VersionId { version: ver(2, 0, 0), target: TargetKind::Lune },
                entry(lune_target()),
            ),
            (
                VersionId { version: ver(2, 0, 0), target: TargetKind::Luau },
                entry(luau_target()),
            ),
        ];
        if flip {
            entries.reverse();
        }
        let index = IndexFile { entries };
        let r = get_package_version(
            &name(),
            Some(&index),
            &VersionRequest::Specific(ver(2, 0, 0)),
            &TargetRequest::Any,
            &plain_query(),
            None,
        );
        match r {
            PackageVersionResponse::Metadata(resp) => {
                assert_eq!(resp.targets.len(), 2);
                assert_eq!(resp.targets[0].kind, TargetKind::Lune);
                assert_eq!(resp.targets[1].kind, TargetKind::Luau);
                assert_eq!(resp.version, "2.0.0");
            }
            _ => panic!("expected metadata"),
        }
    }
}

#[test]
fn doc_lookup_follows_pinned_order() {
    // Category("guides", [Page("intro", H1), Category("advanced",
    // [Page("intro", H2)])]) queried with doc="intro": the worklist is a
    // stack, so the nested category is explored first and H2 wins.
    let docs = vec![DocEntryKind::Category {
        name: "guides".to_string(),
        items: vec![
            DocEntryKind::Page { name: "intro".to_string(), hash: "H1".to_string() },
            DocEntryKind::Category {
                name: "advanced".to_string(),
                items: vec![DocEntryKind::Page {
                    name: "intro".to_string(),
                    hash: "H2".to_string(),
                }],
            },
        ],
    }];
    let mut e = entry(luau_target());
    e.docs = docs;
    let index = IndexFile {
        entries: vec![(VersionId { version: ver(1, 0, 0), target: TargetKind::Luau }, e)],
    };
    let r = get_package_version(
        &name(),
        Some(&index),
        &VersionRequest::Latest,
        &TargetRequest::Any,
        &Query { doc: Some("intro".to_string()) },
        None,
    );
    match r {
        PackageVersionResponse::Document { hash } => assert_eq!(hash, "H2"),
        _ => panic!("expected a document"),
    }
}

#[test]
fn missing_doc_is_not_found() {
    let index = index_two_versions();
    let r = get_package_version(
        &name(),
        Some(&index),
        &VersionRequest::Latest,
        &TargetRequest::Any,
        &Query { doc: Some("nope".to_string()) },
        None,
    );
    assert!(matches!(r, PackageVersionResponse::NotFound));
}

#[test]
fn missing_record_is_not_found() {
    let r = get_package_version(
        &name(),
        None,
        &VersionRequest::Latest,
        &TargetRequest::Any,
        &plain_query(),
        None,
    );
    assert!(matches!(r, PackageVersionResponse::NotFound));
    let empty = IndexFile { entries: Vec::new() };
    let r = get_package_version(
        &name(),
        Some(&empty),
        &VersionRequest::Latest,
        &TargetRequest::Any,
        &plain_query(),
        None,
    );
    assert!(matches!(r, PackageVersionResponse::NotFound));
}

#[test]
fn content_negotiation_picks_the_artifact() {
    let index = index_two_versions();
    let accept = "Text/Plain".to_string();
    let r = get_package_version(
        &name(),
        Some(&index),
        &VersionRequest::Latest,
        &TargetRequest::Any,
        &plain_query(),
        Some(&accept),
    );
    match r {
        PackageVersionResponse::Readme { id } => assert_eq!(id.text(), "1.2.0+luau"),
        _ => panic!("expected a readme delegation"),
    }
    let accept = "application/octet-stream".to_string();
    let r = get_package_version(
        &name(),
        Some(&index),
        &VersionRequest::Latest,
        &TargetRequest::Any,
        &plain_query(),
        Some(&accept),
    );
    match r {
        PackageVersionResponse::Artifact { id } => assert_eq!(id.text(), "1.2.0+luau"),
        _ => panic!("expected an artifact delegation"),
    }
    let accept = "application/json".to_string();
    assert_eq!(negotiate(Some(&accept)), ResponseFormat::Metadata);
}

#[test]
fn version_and_target_selectors_parse() {
    assert!(matches!(VersionRequest::parse("LATEST"), Some(VersionRequest::Latest)));
    match VersionRequest::parse("1.2.3") {
        Some(VersionRequest::Specific(v)) => assert_eq!(v.text(), "1.2.3"),
        _ => panic!("expected a specific version"),
    }
    assert!(VersionRequest::parse("latest!").is_none());
    assert!(matches!(TargetRequest::parse("ANY"), Ok(TargetRequest::Any)));
    assert!(matches!(
        TargetRequest::parse("lune"),
        Ok(TargetRequest::Specific(TargetKind::Lune))
    ));
    assert!(TargetRequest::parse("web").is_err());
}

#[test]
fn target_info_summarizes() {
    let t = Target::Lune {
        lib: Some("init.luau".to_string()),
        bin: Some("main.luau".to_string()),
        scripts: Some(vec![("fmt".to_string(), "fmt.luau".to_string())]),
    };
    let info = TargetInfo::from_target(&t);
    assert_eq!(info.kind, TargetKind::Lune);
    assert!(info.lib);
    assert!(info.bin);
    assert_eq!(info.scripts, vec!["fmt".to_string()]);
}

#[test]
fn package_refs_dispatch() {
    let pesde_ref = PackageRefs::Pesde(PesdePackageRef {
        name: name(),
        version: ver(1, 0, 0),
        index_url: "https://example.com/index".to_string(),
        dependencies: Vec::new(),
        target: TargetKind::Luau,
    });
    assert!(!pesde_ref.is_wally());
    assert!(pesde_ref.use_new_structure());
    assert_eq!(pesde_ref.target_kind(), TargetKind::Luau);
    match pesde_ref.source() {
        PackageSources::Pesde(s) => assert_eq!(s.repo_url, "https://example.com/index"),
        _ => panic!("wrong source"),
    }

    let wally_ref = PackageRefs::Wally(WallyPackageRef {
        name: "acme/pkg".to_string(),
        version: ver(1, 0, 0),
        index_url: "https://example.com/wally".to_string(),
        dependencies: Vec::new(),
    });
    assert!(wally_ref.is_wally());
    assert!(!wally_ref.use_new_structure());
    assert_eq!(wally_ref.target_kind(), TargetKind::Roblox);
    assert!(wally_ref.dependencies().is_empty());
    match wally_ref.source() {
        PackageSources::Wally(s) => assert_eq!(s.repo_url, "https://example.com/wally"),
        _ => panic!("wrong source"),
    }
}

#[test]
fn script_names_render() {
    assert_eq!(
        ScriptName::RobloxSyncConfigGenerator.name(),
        "roblox_sync_config_generator"
    );
    assert_eq!(ScriptName::SourcemapGenerator.name(), "sourcemap_generator");
}

#[test]
fn metadata_carries_entry_fields() {
    let mut e = entry(luau_target());
    e.description = Some("a package".to_string());
    e.license = Some("MIT".to_string());
    e.authors = vec!["someone".to_string()];
    e.repository = Some("https://example.com/repo".to_string());
    e.published_at = 1700000000;
    let index = IndexFile {
        entries: vec![(VersionId { version: ver(3, 1, 4), target: TargetKind::Luau }, e)],
    };
    let r = get_package_version(
        &name(),
        Some(&index),
        &VersionRequest::Latest,
        &TargetRequest::Any,
        &plain_query(),
        None,
    );
    match r {
        PackageVersionResponse::Metadata(resp) => {
            assert_eq!(resp.version, "3.1.4");
            assert_eq!(resp.description, "a package");
            assert_eq!(resp.license, "MIT");
            assert_eq!(resp.authors, vec!["someone".to_string()]);
            assert_eq!(resp.repository, Some("https://example.com/repo".to_string()));
            assert_eq!(resp.published_at, 1700000000);
            assert!(resp.docs.is_empty());
            assert!(resp.dependencies.is_empty());
        }
        _ => panic!("expected metadata"),
    }
}
