//! The version/target resolution engine: given a loaded index record
//! and a query — a version selector, a target selector, optionally a
//! documentation-page name and a content-negotiation hint — select the
//! matching entry, or the precise not-found outcome, and compose the
//! answer. The engine is a pure function of the loaded record and the
//! query; the delegated storage fetches are the caller's.

use vstd::prelude::*;
use crate::errors::TargetKindFromStr;
use crate::index::{doc_find_list, find_doc, IndexFile};
use crate::names::PackageName;
use crate::package::{summarizes, PackageResponse, TargetInfo};
use crate::strutil::{
    clone_opt_string, clone_strings, eq_ignore_ascii_case, str_eq_ignore_ascii_case, views_of, Cmp,
};
use crate::target::TargetKind;
use crate::version::{
    lemma_vcmp_congruent, lemma_vcmp_eq, lemma_vcmp_flip, lemma_vle_trans, semver_parse,
    spec_split_pre, vcmp, vle, Version, VersionId,
};

verus! {

/// The version selector of a query: the latest published version, or
/// one named exactly.
#[derive(Debug)]
pub enum VersionRequest {
    Latest,
    Specific(Version),
}

/// The target selector of a query: any target, tie-broken by the
/// canonical kind order, or one kind exactly.
#[derive(Debug)]
pub enum TargetRequest {
    Any,
    Specific(TargetKind),
}

/// The extra query parameters: optionally the name of a documentation
/// page to fetch instead of the metadata.
#[derive(Debug, Clone)]
pub struct Query {
    pub doc: Option<String>,
}

/// What the content-negotiation hint selects.
#[derive(Debug, Clone, Copy, PartialEq, Eq, Structural)]
pub enum ResponseFormat {
    /// The composed metadata answer.
    Metadata,
    /// The package's readme, from storage.
    Readme,
    /// The packaged artifact, from storage.
    Artifact,
}

impl VersionRequest {
    /// Parses a version selector: the word `latest` in any ASCII case,
    /// or a full semantic version. Anything else is rejected, for the
    /// caller to report with the offending input.
    pub fn parse(s: &str) -> (r: Option<VersionRequest>)
        ensures
            eq_ignore_ascii_case(s@, "latest"@) ==> r matches Some(VersionRequest::Latest),
            !eq_ignore_ascii_case(s@, "latest"@) ==> match r {
                Some(req) => req matches VersionRequest::Specific(v) && semver_parse(s@)
                    matches Some(t) && v.major == t.0 && v.minor == t.1 && v.patch == t.2
                    && views_of(v.pre@) == spec_split_pre(t.3) && v.build@ == t.4,
                None => semver_parse(s@) is None,
            },
    {
        if str_eq_ignore_ascii_case(s, "latest") {
            return Some(VersionRequest::Latest);
        }
        match Version::parse(s) {
            Some(v) => Some(VersionRequest::Specific(v)),
            None => None,
        }
    }
}

impl TargetRequest {
    /// Parses a target selector: the word `any` in any ASCII case, or
    /// the name of a kind; any other text is reported back as unknown.
    pub fn parse(s: &str) -> (r: Result<TargetRequest, TargetKindFromStr>)
        ensures
            eq_ignore_ascii_case(s@, "any"@) ==> r matches Ok(TargetRequest::Any),
            !eq_ignore_ascii_case(s@, "any"@) ==> match r {
                Ok(req) => req matches TargetRequest::Specific(k) && k.kind_str() == s@,
                Err(TargetKindFromStr::Unknown(t)) => t@ == s@ && !TargetKind::is_kind_name(s@),
            },
    {
        if str_eq_ignore_ascii_case(s, "any") {
            return Ok(TargetRequest::Any);
        }
        match TargetKind::from_str(s) {
            Ok(k) => Ok(TargetRequest::Specific(k)),
            Err(e) => Err(e),
        }
    }
}

/// What a content-negotiation hint selects: the readme as plain text,
/// the artifact as a byte stream, and the metadata for anything else
/// or no hint at all.
pub open spec fn spec_negotiate(accept: Option<Seq<char>>) -> ResponseFormat {
    match accept {
        None => ResponseFormat::Metadata,
        Some(s) => if eq_ignore_ascii_case(s, "text/plain"@) {
            ResponseFormat::Readme
        } else if eq_ignore_ascii_case(s, "application/octet-stream"@) {
            ResponseFormat::Artifact
        } else {
            ResponseFormat::Metadata
        },
    }
}

/// The view of an optional hint text.
pub open spec fn accept_view(accept: Option<&String>) -> Option<Seq<char>> {
    match accept {
        Some(s) => Some(s@),
        None => None,
    }
}

/// Decides the response format from the content-negotiation hint,
/// ASCII-case-insensitively.
pub fn negotiate(accept: Option<&String>) -> (r: ResponseFormat)
    ensures
        r == spec_negotiate(accept_view(accept)),
{
    match accept {
        None => ResponseFormat::Metadata,
        Some(s) => {
            if str_eq_ignore_ascii_case(s.as_str(), "text/plain") {
                ResponseFormat::Readme
            } else if str_eq_ignore_ascii_case(s.as_str(), "application/octet-stream") {
                ResponseFormat::Artifact
            } else {
                ResponseFormat::Metadata
            }
        },
    }
}

/// Whether entry `i` carries the version the selector resolves to:
/// under `Latest`, a version no other entry orders after; under
/// `Specific`, that very version.
pub open spec fn version_matches(f: IndexFile, i: int, vreq: VersionRequest) -> bool {
    match vreq {
        VersionRequest::Latest => forall|j: int|
            0 <= j < f.entries@.len() ==> vle(
                (#[trigger] f.entries@[j]).0.version,
                f.entries@[i].0.version,
            ),
        VersionRequest::Specific(v) => f.entries@[i].0.version.sem() == v.sem(),
    }
}

/// Whether entry `i` is the one the whole query selects: it carries the
/// resolved version, and its target kind is the requested one — or,
/// under `Any`, the least kind in the canonical order among the entries
/// of the resolved version.
#[verifier::opaque]
pub open spec fn selected(f: IndexFile, vreq: VersionRequest, treq: TargetRequest, i: int) -> bool {
    &&& 0 <= i < f.entries@.len()
    &&& version_matches(f, i, vreq)
    &&& match treq {
        TargetRequest::Specific(k) => f.entries@[i].0.target == k,
        TargetRequest::Any => forall|j: int|
            0 <= j < f.entries@.len() && version_matches(f, j, vreq)
                ==> f.entries@[i].0.target.ordinal() <= (#[trigger] f.entries@[j]).0.target.ordinal(),
    }
}

/// Whether the query selects any entry at all.
pub open spec fn has_candidate(f: IndexFile, vreq: VersionRequest, treq: TargetRequest) -> bool {
    exists|i: int| selected(f, vreq, treq, i)
}

/// The query selects at most one entry of a well-formed record.
pub proof fn lemma_selected_unique(
    f: IndexFile,
    vreq: VersionRequest,
    treq: TargetRequest,
    i: int,
    j: int,
)
    requires
        f.wf(),
        selected(f, vreq, treq, i),
        selected(f, vreq, treq, j),
    ensures
        i == j,
{
    reveal(selected);
    let vi = f.entries@[i].0.version;
    let vj = f.entries@[j].0.version;
    lemma_vcmp_flip(vi, vj);
    lemma_vcmp_eq(vi, vj);
    match vreq {
        VersionRequest::Latest => {
            assert(vle(vi, vj) && vle(vj, vi));
            assert(vi.sem() == vj.sem());
        },
        VersionRequest::Specific(v) => {},
    }
    if i != j {
        match treq {
            TargetRequest::Specific(k) => {},
            TargetRequest::Any => {
                crate::target::lemma_ordinal_injective(
                    f.entries@[i].0.target,
                    f.entries@[j].0.target,
                );
            },
        }
    }
}

/// The greatest version among the record's entries, or nothing when
/// the record is empty.
fn latest_version(f: &IndexFile) -> (r: Option<Version>)
    ensures
        r is None <==> f.entries@.len() == 0,
        r matches Some(v) ==> (exists|k: int|
            0 <= k < f.entries@.len() && (#[trigger] f.entries@[k]).0.version.sem() == v.sem())
            && (forall|j: int|
            0 <= j < f.entries@.len() ==> vle((#[trigger] f.entries@[j]).0.version, v)),
{
    if f.entries.len() == 0 {
        return None;
    }
    let mut best = f.entries[0].0.version.clone();
    proof {
        lemma_vcmp_eq(f.entries@[0].0.version, best);
        lemma_vcmp_congruent(
            f.entries@[0].0.version,
            f.entries@[0].0.version,
            best,
            f.entries@[0].0.version,
        );
    }
    let mut i: usize = 1;
    while i < f.entries.len()
        invariant
            1 <= i <= f.entries@.len(),
            exists|k: int|
                0 <= k < f.entries@.len() && (#[trigger] f.entries@[k]).0.version.sem()
                    == best.sem(),
            forall|j: int| 0 <= j < i ==> vle((#[trigger] f.entries@[j]).0.version, best),
        decreases f.entries@.len() - i,
    {
        let candidate = &f.entries[i].0.version;
        if candidate.compare(&best) == Cmp::Gt {
            proof {
                lemma_vcmp_flip(*candidate, best);
            }
            let new_best = candidate.clone();
            proof {
                assert(vcmp(best, *candidate) == Cmp::Lt);
                lemma_vcmp_congruent(best, best, *candidate, new_best);
                assert(vle(best, new_best));
                assert forall|j: int| 0 <= j <= i implies vle(
                    (#[trigger] f.entries@[j]).0.version,
                    new_best,
                ) by {
                    if j < i {
                        lemma_vle_trans(f.entries@[j].0.version, best, new_best);
                    } else {
                        lemma_vcmp_congruent(*candidate, *candidate, *candidate, new_best);
                        lemma_vcmp_eq(*candidate, new_best);
                    }
                }
            }
            best = new_best;
        } else {
            proof {
                assert(vle(f.entries@[i as int].0.version, best));
            }
        }
        i += 1;
    }
    Some(best)
}

/// The entry of the record carrying exactly this version and kind, if
/// any; a well-formed record holds at most one.
fn find_kind(f: &IndexFile, version: &Version, kind: TargetKind) -> (r: Option<usize>)
    ensures
        match r {
            Some(i) => i < f.entries@.len() && f.entries@[i as int].0.version.sem()
                == version.sem() && f.entries@[i as int].0.target == kind,
            None => forall|j: int|
                0 <= j < f.entries@.len() ==> !((#[trigger] f.entries@[j]).0.version.sem()
                    == version.sem() && f.entries@[j].0.target == kind),
        },
{
    let mut i: usize = 0;
    while i < f.entries.len()
        invariant
            i <= f.entries@.len(),
            forall|j: int|
                0 <= j < i ==> !((#[trigger] f.entries@[j]).0.version.sem() == version.sem()
                    && f.entries@[j].0.target == kind),
        decreases f.entries@.len() - i,
    {
        let entry_kind = f.entries[i].0.target;
        if entry_kind == kind && f.entries[i].0.version.compare(version) == Cmp::Eq {
            proof {
                lemma_vcmp_eq(f.entries@[i as int].0.version, *version);
            }
            return Some(i);
        }
        proof {
            lemma_vcmp_eq(f.entries@[i as int].0.version, *version);
        }
        i += 1;
    }
    None
}

/// The entry of the record with this version whose kind is least in
/// the canonical order, if the version is present at all.
fn find_minimal_kind(f: &IndexFile, version: &Version) -> (r: Option<usize>)
    ensures
        match r {
            Some(i) => i < f.entries@.len() && f.entries@[i as int].0.version.sem()
                == version.sem() && forall|j: int|
                0 <= j < f.entries@.len() && (#[trigger] f.entries@[j]).0.version.sem()
                    == version.sem() ==> f.entries@[i as int].0.target.ordinal()
                    <= f.entries@[j].0.target.ordinal(),
            None => forall|j: int|
                0 <= j < f.entries@.len() ==> (#[trigger] f.entries@[j]).0.version.sem()
                    != version.sem(),
        },
{
    let mut best: Option<usize> = None;
    let mut i: usize = 0;
    while i < f.entries.len()
        invariant
            i <= f.entries@.len(),
            match best {
                Some(b) => b < i && f.entries@[b as int].0.version.sem() == version.sem()
                    && forall|j: int|
                    0 <= j < i && (#[trigger] f.entries@[j]).0.version.sem() == version.sem()
                        ==> f.entries@[b as int].0.target.ordinal()
                        <= f.entries@[j].0.target.ordinal(),
                None => forall|j: int|
                    0 <= j < i ==> (#[trigger] f.entries@[j]).0.version.sem() != version.sem(),
            },
        decreases f.entries@.len() - i,
    {
        proof {
            lemma_vcmp_eq(f.entries@[i as int].0.version, *version);
        }
        if f.entries[i].0.version.compare(version) == Cmp::Eq {
            match best {
                None => {
                    best = Some(i);
                },
                Some(b) => {
                    if f.entries[i].0.target.le(f.entries[b].0.target) {
                        best = Some(i);
                    }
                },
            }
        }
        i += 1;
    }
    best
}

/// Whether the summaries are exactly those of the record's entries
/// carrying a version of the given contents, one per entry, in the
/// canonical kind order.
pub open spec fn targets_ok(
    f: IndexFile,
    vsem: (int, int, int, Seq<Seq<char>>, Seq<char>),
    infos: Seq<TargetInfo>,
) -> bool {
    &&& forall|p: int, q: int|
        0 <= p < q < infos.len() ==> (#[trigger] infos[p]).kind.ordinal() < (#[trigger] infos[q]).kind.ordinal()
    &&& forall|p: int|
        0 <= p < infos.len() ==> exists|j: int|
            0 <= j < f.entries@.len() && (#[trigger] f.entries@[j]).0.version.sem() == vsem
                && f.entries@[j].0.target == (#[trigger] infos[p]).kind && summarizes(
                infos[p],
                f.entries@[j].1.target,
            )
    &&& forall|j: int|
        0 <= j < f.entries@.len() && (#[trigger] f.entries@[j]).0.version.sem() == vsem
            ==> exists|p: int| 0 <= p < infos.len() && (#[trigger] infos[p]).kind
            == f.entries@[j].0.target
}

/// The summaries of every entry published under this version, one per
/// target kind present, in the canonical kind order.
fn targets_at(f: &IndexFile, version: &Version) -> (r: Vec<TargetInfo>)
    requires
        f.wf(),
    ensures
        targets_ok(*f, version.sem(), r@),
{
    let ghost vsem = version.sem();
    let mut infos: Vec<TargetInfo> = Vec::new();

    let found_roblox = find_kind(f, version, TargetKind::Roblox);
    match found_roblox {
        Some(i) => {
            let info = TargetInfo::from_target(&f.entries[i].1.target);
            proof {
                assert(f.entries@[i as int].0.target == f.entries@[i as int].1.target.spec_kind());
                assert(info.kind == TargetKind::Roblox);
            }
            infos.push(info);
        },
        None => {},
    }
    proof {
        assert(forall|p: int|
            0 <= p < infos@.len() ==> (#[trigger] infos@[p]).kind == TargetKind::Roblox);
        assert(found_roblox is Some ==> infos@.len() > 0 && infos@[0].kind == TargetKind::Roblox);
    }

    let ghost after_roblox = infos@;
    let found_lune = find_kind(f, version, TargetKind::Lune);
    match found_lune {
        Some(i) => {
            let info = TargetInfo::from_target(&f.entries[i].1.target);
            proof {
                assert(f.entries@[i as int].0.target == f.entries@[i as int].1.target.spec_kind());
                assert(info.kind == TargetKind::Lune);
            }
            infos.push(info);
        },
        None => {},
    }
    proof {
        assert(forall|p: int|
            0 <= p < infos@.len() ==> (#[trigger] infos@[p]).kind == TargetKind::Roblox
                || infos@[p].kind == TargetKind::Lune);
        assert(found_roblox is Some ==> infos@.len() > 0 && infos@[0].kind == TargetKind::Roblox);
        assert(found_lune is Some ==> infos@.len() > 0 && infos@[infos@.len() - 1].kind
            == TargetKind::Lune);
        assert(forall|p: int, q: int|
            0 <= p < q < infos@.len() ==> (#[trigger] infos@[p]).kind.ordinal()
                < (#[trigger] infos@[q]).kind.ordinal());
    }

    let ghost after_lune = infos@;
    let found_luau = find_kind(f, version, TargetKind::Luau);
    match found_luau {
        Some(i) => {
            let info = TargetInfo::from_target(&f.entries[i].1.target);
            proof {
                assert(f.entries@[i as int].0.target == f.entries@[i as int].1.target.spec_kind());
                assert(info.kind == TargetKind::Luau);
            }
            infos.push(info);
        },
        None => {},
    }
    proof {
        assert(forall|p: int|
            0 <= p < infos@.len() && p < after_lune.len() ==> (#[trigger] infos@[p]).kind
                == after_lune[p].kind);
        assert(found_roblox is Some ==> infos@[0].kind == TargetKind::Roblox);
        assert(found_lune is Some ==> exists|p: int|
            0 <= p < infos@.len() && (#[trigger] infos@[p]).kind == TargetKind::Lune);
        assert(found_luau is Some ==> infos@[infos@.len() - 1].kind == TargetKind::Luau);
        assert(forall|p: int, q: int|
            0 <= p < q < infos@.len() ==> (#[trigger] infos@[p]).kind.ordinal()
                < (#[trigger] infos@[q]).kind.ordinal());
        assert forall|j: int|
            0 <= j < f.entries@.len() && (#[trigger] f.entries@[j]).0.version.sem() == vsem
                implies exists|p: int| 0 <= p < infos@.len() && (#[trigger] infos@[p]).kind
            == f.entries@[j].0.target by {
            let kind_j = f.entries@[j].0.target;
            match kind_j {
                TargetKind::Roblox => {
                    assert(found_roblox is Some);
                    assert(infos@[0].kind == kind_j);
                },
                TargetKind::Lune => {
                    assert(found_lune is Some);
                },
                TargetKind::Luau => {
                    assert(found_luau is Some);
                    assert(infos@[infos@.len() - 1].kind == kind_j);
                },
            }
        }
    }
    infos
}

/// What the exec resolution computes first: a version the selector
/// resolves to. Under `Latest` that is a greatest version of the
/// record; under `Specific` the named version itself.
pub open spec fn resolves_to(f: IndexFile, vreq: VersionRequest, resolved: Version) -> bool {
    match vreq {
        VersionRequest::Latest => (exists|k: int|
            0 <= k < f.entries@.len() && (#[trigger] f.entries@[k]).0.version.sem()
                == resolved.sem()) && (forall|j: int|
            0 <= j < f.entries@.len() ==> vle((#[trigger] f.entries@[j]).0.version, resolved)),
        VersionRequest::Specific(v) => resolved.sem() == v.sem(),
    }
}

/// An entry carries the version the selector resolves to exactly when
/// its version has the resolved contents.
proof fn lemma_version_matches_iff(f: IndexFile, vreq: VersionRequest, resolved: Version)
    requires
        resolves_to(f, vreq, resolved),
    ensures
        forall|i: int|
            0 <= i < f.entries@.len() ==> (version_matches(f, i, vreq)
                <==> (#[trigger] f.entries@[i]).0.version.sem() == resolved.sem()),
{
    assert forall|i: int| 0 <= i < f.entries@.len() implies (version_matches(f, i, vreq)
        <==> f.entries@[i].0.version.sem() == resolved.sem()) by {
        let vi = f.entries@[i].0.version;
        match vreq {
            VersionRequest::Latest => {
                if vi.sem() == resolved.sem() {
                    assert forall|j: int| 0 <= j < f.entries@.len() implies vle(
                        (#[trigger] f.entries@[j]).0.version,
                        vi,
                    ) by {
                        lemma_vcmp_congruent(
                            f.entries@[j].0.version,
                            f.entries@[j].0.version,
                            resolved,
                            vi,
                        );
                    }
                }
                if version_matches(f, i, vreq) {
                    let k = choose|k: int|
                        0 <= k < f.entries@.len() && (#[trigger] f.entries@[k]).0.version.sem()
                            == resolved.sem();
                    lemma_vcmp_congruent(f.entries@[k].0.version, resolved, vi, vi);
                    assert(vle(resolved, vi));
                    assert(vle(vi, resolved));
                    lemma_vcmp_flip(vi, resolved);
                    lemma_vcmp_eq(vi, resolved);
                }
            },
            VersionRequest::Specific(v) => {},
        }
    }
}

/// Picks the entry the query selects, given the resolved version: the
/// one with the requested kind, or under `Any` the one whose kind is
/// least in the canonical order; or reports that no entry qualifies.
fn select_entry(
    f: &IndexFile,
    version: &VersionRequest,
    resolved: &Version,
    target: &TargetRequest,
) -> (r: Option<usize>)
    requires
        resolves_to(*f, *version, *resolved),
    ensures
        match r {
            Some(i) => i < f.entries@.len() && selected(*f, *version, *target, i as int)
                && f.entries@[i as int].0.version.sem() == resolved.sem(),
            None => !has_candidate(*f, *version, *target),
        },
{
    proof {
        reveal(selected);
        lemma_version_matches_iff(*f, *version, *resolved);
    }
    match target {
        TargetRequest::Specific(k) => {
            match find_kind(f, resolved, *k) {
                Some(i) => Some(i),
                None => {
                    proof {
                        assert(!has_candidate(*f, *version, *target));
                    }
                    None
                },
            }
        },
        TargetRequest::Any => {
            match find_minimal_kind(f, resolved) {
                Some(i) => Some(i),
                None => {
                    proof {
                        assert(!has_candidate(*f, *version, *target));
                    }
                    None
                },
            }
        },
    }
}

/// The outcome of a registry query: the precise not-found condition;
/// a located documentation page's content hash; a delegation to
/// storage for the readme or the packaged artifact of the resolved
/// version+target; or the composed metadata answer.
#[derive(Debug)]
pub enum PackageVersionResponse<'a> {
    NotFound,
    Document { hash: String },
    Readme { id: VersionId },
    Artifact { id: VersionId },
    Metadata(PackageResponse<'a>),
}

/// Whether the metadata answer reports entry `i` of the record, field
/// by field.
#[verifier::opaque]
pub open spec fn response_matches(
    f: IndexFile,
    i: int,
    name: PackageName,
    resp: PackageResponse,
) -> bool {
    &&& resp.name@ == name.display_seq()
    &&& resp.version@ == f.entries@[i].0.version.display_seq()
    &&& targets_ok(f, f.entries@[i].0.version.sem(), resp.targets@)
    &&& resp.description@ == match f.entries@[i].1.description {
        Some(d) => d@,
        None => Seq::<char>::empty(),
    }
    &&& resp.published_at == f.entries@[i].1.published_at
    &&& resp.license@ == match f.entries@[i].1.license {
        Some(l) => l@,
        None => Seq::<char>::empty(),
    }
    &&& resp.authors@ == f.entries@[i].1.authors@
    &&& resp.repository == f.entries@[i].1.repository
    &&& resp.docs@ == f.entries@[i].1.docs@
    &&& resp.dependencies@ == f.entries@[i].1.dependencies@
}

/// Answers a documentation lookup on entry `idx`: the page's hash
/// under the pinned order, or not-found.
fn answer_doc<'a>(f: &'a IndexFile, idx: usize, doc_name: &str) -> (r: PackageVersionResponse<'a>)
    requires
        idx < f.entries@.len(),
    ensures
        match r {
            PackageVersionResponse::Document { hash } => doc_find_list(
                f.entries@[idx as int].1.docs@,
                doc_name@,
            ) == Some(hash@),
            PackageVersionResponse::NotFound => doc_find_list(
                f.entries@[idx as int].1.docs@,
                doc_name@,
            ) is None,
            _ => false,
        },
{
    match find_doc(&f.entries[idx].1.docs, doc_name) {
        Some(h) => PackageVersionResponse::Document { hash: h },
        None => PackageVersionResponse::NotFound,
    }
}

/// Composes the metadata answer for entry `idx`.
#[verifier::rlimit(100)]
fn answer_metadata<'a>(
    f: &'a IndexFile,
    idx: usize,
    name: &PackageName,
    resolved: &Version,
) -> (resp: PackageResponse<'a>)
    requires
        f.wf(),
        idx < f.entries@.len(),
        f.entries@[idx as int].0.version.sem() == resolved.sem(),
    ensures
        response_matches(*f, idx as int, *name, resp),
{
    let targets = targets_at(f, resolved);
    let entry = &f.entries[idx].1;
    let resp = PackageResponse {
        name: name.text(),
        version: f.entries[idx].0.version.text(),
        targets,
        description: match &entry.description {
            Some(d) => d.clone(),
            None => String::new(),
        },
        published_at: entry.published_at,
        license: match &entry.license {
            Some(l) => l.clone(),
            None => String::new(),
        },
        authors: clone_strings(&entry.authors),
        repository: clone_opt_string(&entry.repository),
        docs: &f.entries[idx].1.docs,
        dependencies: &f.entries[idx].1.dependencies,
    };
    proof {
        reveal(response_matches);
        assert(response_matches(*f, idx as int, *name, resp));
    }
    resp
}

/// Answers one registry query against the loaded index record of the
/// named package — or against none, when the package has no record,
/// which is a plain not-found, never an error. No match is ever
/// coerced: a specific target must be present exactly, and `Any` picks
/// the least kind in the canonical order. With a `doc` parameter the
/// answer is the page's content hash under the pinned search order;
/// otherwise the content-negotiation hint picks the metadata answer or
/// a delegation to storage.
#[verifier::rlimit(100)]
pub fn get_package_version<'a>(
    name: &PackageName,
    index: Option<&'a IndexFile>,
    version: &VersionRequest,
    target: &TargetRequest,
    query: &Query,
    accept: Option<&String>,
) -> (r: PackageVersionResponse<'a>)
    requires
        index matches Some(f) ==> f.wf(),
    ensures
        r is NotFound <==> match index {
            None => true,
            Some(f) => !has_candidate(*f, *version, *target) || (query.doc matches Some(d)
                && exists|i: int|
                #[trigger] selected(*f, *version, *target, i) && doc_find_list(
                    f.entries@[i].1.docs@,
                    d@,
                ) is None),
        },
        r matches PackageVersionResponse::Document { hash } ==> index matches Some(f)
            && query.doc matches Some(d) && exists|i: int|
            #[trigger] selected(*f, *version, *target, i) && doc_find_list(
                f.entries@[i].1.docs@,
                d@,
            ) == Some(hash@),
        r matches PackageVersionResponse::Readme { id } ==> index matches Some(f)
            && query.doc is None && spec_negotiate(accept_view(accept)) == ResponseFormat::Readme
            && exists|i: int|
            #[trigger] selected(*f, *version, *target, i) && id.version.sem()
                == f.entries@[i].0.version.sem() && id.target == f.entries@[i].0.target,
        r matches PackageVersionResponse::Artifact { id } ==> index matches Some(f)
            && query.doc is None && spec_negotiate(accept_view(accept))
            == ResponseFormat::Artifact && exists|i: int|
            #[trigger] selected(*f, *version, *target, i) && id.version.sem()
                == f.entries@[i].0.version.sem() && id.target == f.entries@[i].0.target,
        r matches PackageVersionResponse::Metadata(resp) ==> index matches Some(f)
            && query.doc is None && spec_negotiate(accept_view(accept))
            == ResponseFormat::Metadata && exists|i: int|
            #[trigger] selected(*f, *version, *target, i) && response_matches(
                *f,
                i,
                *name,
                resp,
            ),
        index matches Some(f) && has_candidate(*f, *version, *target) && query.doc is None
            ==> match spec_negotiate(accept_view(accept)) {
            ResponseFormat::Readme => r is Readme,
            ResponseFormat::Artifact => r is Artifact,
            ResponseFormat::Metadata => r is Metadata,
        },
{
    let f = match index {
        Some(f) => f,
        None => {
            return PackageVersionResponse::NotFound;
        },
    };

    let resolved: Version = match version {
        VersionRequest::Latest => {
            match latest_version(f) {
                Some(v) => v,
                None => {
                    proof {
                        reveal(selected);
                        assert(!has_candidate(*f, *version, *target));
                    }
                    return PackageVersionResponse::NotFound;
                },
            }
        },
        VersionRequest::Specific(v) => v.clone(),
    };

    let idx: usize = match select_entry(f, version, &resolved, target) {
        Some(i) => i,
        None => {
            return PackageVersionResponse::NotFound;
        },
    };
    proof {
        lemma_version_matches_iff(*f, *version, resolved);
    }

    match &query.doc {
        Some(doc_name) => {
            let answer = answer_doc(f, idx, doc_name.as_str());
            proof {
                if !(answer is NotFound) {
                    assert forall|i: int|
                        #[trigger] selected(*f, *version, *target, i) implies doc_find_list(
                        f.entries@[i].1.docs@,
                        doc_name@,
                    ) is Some by {
                        lemma_selected_unique(*f, *version, *target, i, idx as int);
                    }
                }
            }
            return answer;
        },
        None => {},
    }

    match negotiate(accept) {
        ResponseFormat::Readme => {
            let id = f.entries[idx].0.clone();
            PackageVersionResponse::Readme { id }
        },
        ResponseFormat::Artifact => {
            let id = f.entries[idx].0.clone();
            PackageVersionResponse::Artifact { id }
        },
        ResponseFormat::Metadata => {
            let resp = answer_metadata(f, idx, name, &resolved);
            PackageVersionResponse::Metadata(resp)
        },
    }
}

} // verus!
