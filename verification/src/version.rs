//! Semantic versions as the crate models them: three numeric
//! components, a list of pre-release identifiers and a build-metadata
//! text. Parsing from the textual form is delegated to the `semver`
//! crate behind one trusted wrapper; ordering and rendering are the
//! crate's own, verified against the precedence rules: pre-release
//! identifiers compare numerically when both are digit runs, a numeric
//! identifier orders before an alphanumeric one, alphanumeric
//! identifiers order lexically, and a release orders after any of its
//! pre-releases. Build metadata does not take part in precedence; it is
//! tie-broken textually to keep the order total.

use vstd::prelude::*;
use crate::strutil::{
    chars_cmp, check_digits, clone_strings, dec_str, is_digits, lemma_chars_cmp_eq, spec_join,
    spec_split, split_on, str_cmp, join_with, u64_to_string, views_of, Cmp,
};
use crate::target::TargetKind;

verus! {

/// A semantic version. `pre` holds the dot-separated pre-release
/// identifiers, in order; empty means a full release. `build` holds the
/// raw build-metadata text after `+`, empty when absent.
#[derive(Debug)]
pub struct Version {
    pub major: u64,
    pub minor: u64,
    pub patch: u64,
    pub pre: Vec<String>,
    pub build: String,
}

impl Version {
    /// The version by its contents alone: the three numbers, the views
    /// of the pre-release identifiers, and the build text.
    pub open spec fn sem(self) -> (int, int, int, Seq<Seq<char>>, Seq<char>) {
        (self.major as int, self.minor as int, self.patch as int, views_of(self.pre@), self.build@)
    }

    /// The textual form: `major.minor.patch`, then `-` and the
    /// pre-release identifiers joined with `.` when any, then `+` and
    /// the build text when non-empty.
    pub open spec fn display_seq(self) -> Seq<char> {
        dec_str(self.major as nat) + seq!['.'] + dec_str(self.minor as nat) + seq!['.'] + dec_str(
            self.patch as nat,
        ) + (if views_of(self.pre@).len() > 0 {
            seq!['-'] + spec_join(views_of(self.pre@), '.')
        } else {
            Seq::<char>::empty()
        }) + (if self.build@.len() > 0 {
            seq!['+'] + self.build@
        } else {
            Seq::<char>::empty()
        })
    }
}

/// Order of two pre-release identifiers: both digit runs compare as
/// numbers (no leading zeroes, so by length and then lexically), a digit
/// run orders before anything else, and otherwise the comparison is
/// lexical.
pub open spec fn ident_cmp(a: Seq<char>, b: Seq<char>) -> Cmp {
    if is_digits(a) && is_digits(b) {
        if a.len() < b.len() {
            Cmp::Lt
        } else if a.len() > b.len() {
            Cmp::Gt
        } else {
            chars_cmp(a, b)
        }
    } else if is_digits(a) {
        Cmp::Lt
    } else if is_digits(b) {
        Cmp::Gt
    } else {
        chars_cmp(a, b)
    }
}

/// Order of two pre-release identifier lists: identifier by identifier,
/// a shorter list ordering before any extension of it.
pub open spec fn idents_cmp(a: Seq<Seq<char>>, b: Seq<Seq<char>>) -> Cmp
    decreases a.len(),
{
    if a.len() == 0 && b.len() == 0 {
        Cmp::Eq
    } else if a.len() == 0 {
        Cmp::Lt
    } else if b.len() == 0 {
        Cmp::Gt
    } else if ident_cmp(a[0], b[0]) != Cmp::Eq {
        ident_cmp(a[0], b[0])
    } else {
        idents_cmp(a.skip(1), b.skip(1))
    }
}

/// The total order on versions: the three numbers in turn; then a
/// release after any pre-release of the same triple; then the
/// pre-release identifier lists; and last the build text, compared
/// lexically only to break ties.
pub open spec fn vcmp(a: Version, b: Version) -> Cmp {
    if a.major != b.major {
        if a.major < b.major {
            Cmp::Lt
        } else {
            Cmp::Gt
        }
    } else if a.minor != b.minor {
        if a.minor < b.minor {
            Cmp::Lt
        } else {
            Cmp::Gt
        }
    } else if a.patch != b.patch {
        if a.patch < b.patch {
            Cmp::Lt
        } else {
            Cmp::Gt
        }
    } else if a.pre@.len() == 0 && b.pre@.len() > 0 {
        Cmp::Gt
    } else if a.pre@.len() > 0 && b.pre@.len() == 0 {
        Cmp::Lt
    } else if idents_cmp(views_of(a.pre@), views_of(b.pre@)) != Cmp::Eq {
        idents_cmp(views_of(a.pre@), views_of(b.pre@))
    } else {
        chars_cmp(a.build@, b.build@)
    }
}

/// `a` orders no later than `b`.
pub open spec fn vle(a: Version, b: Version) -> bool {
    vcmp(a, b) != Cmp::Gt
}

/// Identifier comparison yields `Eq` exactly between equal identifiers.
pub proof fn lemma_ident_cmp_eq(a: Seq<char>, b: Seq<char>)
    ensures
        ident_cmp(a, b) == Cmp::Eq <==> a == b,
{
    lemma_chars_cmp_eq(a, b);
}

/// Identifier-list comparison yields `Eq` exactly between equal lists.
pub proof fn lemma_idents_cmp_eq(a: Seq<Seq<char>>, b: Seq<Seq<char>>)
    ensures
        idents_cmp(a, b) == Cmp::Eq <==> a == b,
    decreases a.len(),
{
    if a.len() == 0 || b.len() == 0 {
        if a.len() == 0 && b.len() == 0 {
            assert(a =~= b);
        } else {
            if a == b {
                assert(a.len() == b.len());
            }
        }
    } else {
        lemma_ident_cmp_eq(a[0], b[0]);
        lemma_idents_cmp_eq(a.skip(1), b.skip(1));
        if ident_cmp(a[0], b[0]) == Cmp::Eq && idents_cmp(a.skip(1), b.skip(1)) == Cmp::Eq {
            assert(a =~= seq![a[0]] + a.skip(1));
            assert(b =~= seq![b[0]] + b.skip(1));
        }
        if a == b {
            assert(a[0] == b[0]);
            assert(a.skip(1) == b.skip(1));
        }
    }
}

/// Version comparison yields `Eq` exactly between versions with the same
/// contents.
pub proof fn lemma_vcmp_eq(a: Version, b: Version)
    ensures
        vcmp(a, b) == Cmp::Eq <==> a.sem() == b.sem(),
{
    lemma_idents_cmp_eq(views_of(a.pre@), views_of(b.pre@));
    lemma_chars_cmp_eq(a.build@, b.build@);
    if views_of(a.pre@).len() == 0 && views_of(b.pre@).len() == 0 {
        assert(views_of(a.pre@) =~= views_of(b.pre@));
    }
}

/// Lexicographic comparison is transitive in its strict part.
pub proof fn lemma_chars_cmp_trans(a: Seq<char>, b: Seq<char>, c: Seq<char>)
    requires
        chars_cmp(a, b) == Cmp::Lt,
        chars_cmp(b, c) == Cmp::Lt,
    ensures
        chars_cmp(a, c) == Cmp::Lt,
    decreases a.len() + b.len() + c.len(),
{
    if a.len() == 0 {
        assert(b.len() > 0);
        assert(c.len() > 0);
    } else {
        assert(b.len() > 0);
        assert(c.len() > 0);
        if a[0] == b[0] && b[0] == c[0] {
            lemma_chars_cmp_trans(a.skip(1), b.skip(1), c.skip(1));
        }
    }
}

/// Identifier comparison is transitive in its strict part.
pub proof fn lemma_ident_cmp_trans(a: Seq<char>, b: Seq<char>, c: Seq<char>)
    requires
        ident_cmp(a, b) == Cmp::Lt,
        ident_cmp(b, c) == Cmp::Lt,
    ensures
        ident_cmp(a, c) == Cmp::Lt,
{
    if is_digits(a) && is_digits(b) && is_digits(c) {
        if a.len() == b.len() && b.len() == c.len() {
            lemma_chars_cmp_trans(a, b, c);
        }
    } else if !is_digits(a) && !is_digits(b) && !is_digits(c) {
        lemma_chars_cmp_trans(a, b, c);
    }
}

/// Identifier-list comparison is transitive in its strict part.
pub proof fn lemma_idents_cmp_trans(a: Seq<Seq<char>>, b: Seq<Seq<char>>, c: Seq<Seq<char>>)
    requires
        idents_cmp(a, b) == Cmp::Lt,
        idents_cmp(b, c) == Cmp::Lt,
    ensures
        idents_cmp(a, c) == Cmp::Lt,
    decreases a.len() + b.len() + c.len(),
{
    if a.len() == 0 {
        assert(b.len() > 0);
        assert(c.len() > 0);
    } else {
        assert(b.len() > 0);
        assert(c.len() > 0);
        let hab = ident_cmp(a[0], b[0]);
        let hbc = ident_cmp(b[0], c[0]);
        lemma_ident_cmp_eq(a[0], b[0]);
        lemma_ident_cmp_eq(b[0], c[0]);
        if hab == Cmp::Eq && hbc == Cmp::Eq {
            lemma_idents_cmp_trans(a.skip(1), b.skip(1), c.skip(1));
        } else if hab == Cmp::Eq {
            assert(a[0] == b[0]);
        } else if hbc == Cmp::Eq {
            assert(b[0] == c[0]);
        } else {
            lemma_ident_cmp_trans(a[0], b[0], c[0]);
        }
    }
}

/// Lexicographic comparison flips with its arguments.
pub proof fn lemma_chars_cmp_flip(a: Seq<char>, b: Seq<char>)
    ensures
        (chars_cmp(a, b) == Cmp::Lt) <==> (chars_cmp(b, a) == Cmp::Gt),
    decreases a.len() + b.len(),
{
    lemma_chars_cmp_eq(a, b);
    lemma_chars_cmp_eq(b, a);
    if a.len() > 0 && b.len() > 0 && a[0] == b[0] {
        lemma_chars_cmp_flip(a.skip(1), b.skip(1));
    }
}

/// Identifier comparison flips with its arguments.
pub proof fn lemma_ident_cmp_flip(a: Seq<char>, b: Seq<char>)
    ensures
        (ident_cmp(a, b) == Cmp::Lt) <==> (ident_cmp(b, a) == Cmp::Gt),
{
    lemma_chars_cmp_flip(a, b);
}

/// Identifier-list comparison flips with its arguments.
pub proof fn lemma_idents_cmp_flip(a: Seq<Seq<char>>, b: Seq<Seq<char>>)
    ensures
        (idents_cmp(a, b) == Cmp::Lt) <==> (idents_cmp(b, a) == Cmp::Gt),
    decreases a.len() + b.len(),
{
    if a.len() > 0 && b.len() > 0 {
        lemma_ident_cmp_flip(a[0], b[0]);
        lemma_ident_cmp_eq(a[0], b[0]);
        lemma_ident_cmp_eq(b[0], a[0]);
        if ident_cmp(a[0], b[0]) == Cmp::Eq {
            lemma_idents_cmp_flip(a.skip(1), b.skip(1));
        }
    }
}

/// Version comparison flips with its arguments: `a` before `b` exactly
/// when `b` after `a`.
pub proof fn lemma_vcmp_flip(a: Version, b: Version)
    ensures
        (vcmp(a, b) == Cmp::Lt) <==> (vcmp(b, a) == Cmp::Gt),
        (vcmp(a, b) == Cmp::Eq) <==> (vcmp(b, a) == Cmp::Eq),
{
    lemma_idents_cmp_flip(views_of(a.pre@), views_of(b.pre@));
    lemma_idents_cmp_eq(views_of(a.pre@), views_of(b.pre@));
    lemma_idents_cmp_eq(views_of(b.pre@), views_of(a.pre@));
    lemma_chars_cmp_flip(a.build@, b.build@);
    lemma_chars_cmp_eq(a.build@, b.build@);
    lemma_chars_cmp_eq(b.build@, a.build@);
}

/// The comparison reads versions by their contents alone: versions with
/// equal contents compare alike against anything.
pub proof fn lemma_vcmp_congruent(a1: Version, a2: Version, b1: Version, b2: Version)
    requires
        a1.sem() == a2.sem(),
        b1.sem() == b2.sem(),
    ensures
        vcmp(a1, b1) == vcmp(a2, b2),
{
    assert(a1.major == a2.major && a1.minor == a2.minor && a1.patch == a2.patch);
    assert(b1.major == b2.major && b1.minor == b2.minor && b1.patch == b2.patch);
    assert(views_of(a1.pre@).len() == views_of(a2.pre@).len());
    assert(views_of(b1.pre@).len() == views_of(b2.pre@).len());
    assert(a1.pre@.len() == views_of(a1.pre@).len());
    assert(a2.pre@.len() == views_of(a2.pre@).len());
    assert(b1.pre@.len() == views_of(b1.pre@).len());
    assert(b2.pre@.len() == views_of(b2.pre@).len());
}

/// The version order is transitive: `a` no later than `b` and `b` no
/// later than `c` puts `a` no later than `c`.
pub proof fn lemma_vle_trans(a: Version, b: Version, c: Version)
    requires
        vle(a, b),
        vle(b, c),
    ensures
        vle(a, c),
{
    lemma_vcmp_eq(a, b);
    lemma_vcmp_eq(b, c);
    lemma_vcmp_eq(a, c);
    if vcmp(a, b) == Cmp::Eq || vcmp(b, c) == Cmp::Eq {
        // one step is an equality of contents; the comparison only reads
        // the contents, so the other step carries over
    } else {
        if a.major == c.major && a.minor == c.minor && a.patch == c.patch {
            let pa = views_of(a.pre@);
            let pb = views_of(b.pre@);
            let pc = views_of(c.pre@);
            if pa.len() > 0 && pb.len() > 0 && pc.len() > 0 {
                lemma_idents_cmp_eq(pa, pb);
                lemma_idents_cmp_eq(pb, pc);
                if idents_cmp(pa, pb) == Cmp::Eq && idents_cmp(pb, pc) == Cmp::Eq {
                    lemma_chars_cmp_trans(a.build@, b.build@, c.build@);
                    lemma_chars_cmp_eq(a.build@, b.build@);
                    lemma_chars_cmp_eq(b.build@, c.build@);
                } else if idents_cmp(pa, pb) == Cmp::Eq {
                } else if idents_cmp(pb, pc) == Cmp::Eq {
                } else {
                    lemma_idents_cmp_trans(pa, pb, pc);
                }
            }
            if pa.len() == 0 && pb.len() == 0 && pc.len() == 0 {
                lemma_chars_cmp_eq(a.build@, b.build@);
                lemma_chars_cmp_eq(b.build@, c.build@);
                lemma_chars_cmp_trans(a.build@, b.build@, c.build@);
            }
        }
    }
}

impl Version {
    /// Compares two versions in the crate's total order.
    pub fn compare(&self, other: &Version) -> (r: Cmp)
        ensures
            r == vcmp(*self, *other),
    {
        if self.major != other.major {
            return if self.major < other.major {
                Cmp::Lt
            } else {
                Cmp::Gt
            };
        }
        if self.minor != other.minor {
            return if self.minor < other.minor {
                Cmp::Lt
            } else {
                Cmp::Gt
            };
        }
        if self.patch != other.patch {
            return if self.patch < other.patch {
                Cmp::Lt
            } else {
                Cmp::Gt
            };
        }
        if self.pre.len() == 0 && other.pre.len() > 0 {
            return Cmp::Gt;
        }
        if self.pre.len() > 0 && other.pre.len() == 0 {
            return Cmp::Lt;
        }
        let idents = idents_compare(&self.pre, &other.pre);
        if idents != Cmp::Eq {
            return idents;
        }
        str_cmp(self.build.as_str(), other.build.as_str())
    }
}

/// Compares two pre-release identifiers.
fn ident_compare(a: &String, b: &String) -> (r: Cmp)
    ensures
        r == ident_cmp(a@, b@),
{
    let a_digits = check_digits(a.as_str());
    let b_digits = check_digits(b.as_str());
    if a_digits && b_digits {
        let a_len = a.as_str().unicode_len();
        let b_len = b.as_str().unicode_len();
        if a_len < b_len {
            Cmp::Lt
        } else if a_len > b_len {
            Cmp::Gt
        } else {
            str_cmp(a.as_str(), b.as_str())
        }
    } else if a_digits {
        Cmp::Lt
    } else if b_digits {
        Cmp::Gt
    } else {
        str_cmp(a.as_str(), b.as_str())
    }
}

/// Compares two pre-release identifier lists.
fn idents_compare(a: &Vec<String>, b: &Vec<String>) -> (r: Cmp)
    ensures
        r == idents_cmp(views_of(a@), views_of(b@)),
{
    let mut i: usize = 0;
    proof {
        assert(views_of(a@).skip(0) =~= views_of(a@));
        assert(views_of(b@).skip(0) =~= views_of(b@));
    }
    loop
        invariant
            i <= a@.len(),
            i <= b@.len(),
            idents_cmp(views_of(a@), views_of(b@)) == idents_cmp(
                views_of(a@).skip(i as int),
                views_of(b@).skip(i as int),
            ),
        decreases a@.len() - i,
    {
        if i == a.len() && i == b.len() {
            return Cmp::Eq;
        }
        if i == a.len() {
            return Cmp::Lt;
        }
        if i == b.len() {
            return Cmp::Gt;
        }
        let head = ident_compare(&a[i], &b[i]);
        if head != Cmp::Eq {
            return head;
        }
        proof {
            assert(views_of(a@).skip(i as int).skip(1) =~= views_of(a@).skip(i + 1));
            assert(views_of(b@).skip(i as int).skip(1) =~= views_of(b@).skip(i + 1));
        }
        i += 1;
    }
}

/// The pre-release identifiers a raw pre-release text stands for: none
/// when the text is empty, else the text split on `.`.
pub open spec fn spec_split_pre(s: Seq<char>) -> Seq<Seq<char>> {
    if s.len() == 0 {
        Seq::<Seq<char>>::empty()
    } else {
        spec_split(s, '.')
    }
}

/// What `semver::Version::parse` yields on a text, by contents: the
/// three numbers, the raw pre-release text and the raw build text; or
/// nothing when the text is not a valid semantic version.
pub uninterp spec fn semver_parse(s: Seq<char>) -> Option<(u64, u64, u64, Seq<char>, Seq<char>)>;

/// Relies on `semver::Version::parse`: the result is a function of the
/// text alone, carrying the numeric components and the raw pre-release
/// and build-metadata texts of a valid semantic version.
#[verifier::external_body]
fn parse_with_semver(s: &str) -> (r: Option<(u64, u64, u64, String, String)>)
    ensures
        match r {
            Some(t) => semver_parse(s@) == Some((t.0, t.1, t.2, t.3@, t.4@)),
            None => semver_parse(s@) is None,
        },
{
    match semver::Version::parse(s) {
        Ok(v) => Some((
            v.major,
            v.minor,
            v.patch,
            v.pre.as_str().to_string(),
            v.build.as_str().to_string(),
        )),
        Err(_) => None,
    }
}

impl Version {
    /// Parses a version from its textual form; the numbers are taken as
    /// parsed, and the pre-release text is split on `.` into its
    /// identifiers.
    pub fn parse(s: &str) -> (r: Option<Version>)
        ensures
            match r {
                Some(v) => semver_parse(s@) matches Some(t) && v.major == t.0 && v.minor == t.1
                    && v.patch == t.2 && views_of(v.pre@) == spec_split_pre(t.3) && v.build@
                    == t.4,
                None => semver_parse(s@) is None,
            },
    {
        match parse_with_semver(s) {
            None => None,
            Some((major, minor, patch, pre_text, build)) => {
                let pre = if pre_text.as_str().unicode_len() == 0 {
                    proof {
                        assert(views_of(Seq::<String>::empty()) =~= Seq::<Seq<char>>::empty());
                    }
                    Vec::new()
                } else {
                    split_on(pre_text.as_str(), '.')
                };
                Some(Version { major, minor, patch, pre, build })
            },
        }
    }

    /// Renders the version in its textual form.
    pub fn text(&self) -> (r: String)
        ensures
            r@ == self.display_seq(),
    {
        let mut r = u64_to_string(self.major);
        let dot = ".";
        proof {
            reveal_strlit(".");
            assert(dot@ =~= seq!['.']);
        }
        r.append(dot);
        let minor = u64_to_string(self.minor);
        r.append(minor.as_str());
        r.append(dot);
        let patch = u64_to_string(self.patch);
        r.append(patch.as_str());
        if self.pre.len() > 0 {
            let dash = "-";
            proof {
                reveal_strlit("-");
                assert(dash@ =~= seq!['-']);
            }
            r.append(dash);
            let joined = join_with(&self.pre, dot);
            r.append(joined.as_str());
        }
        if self.build.as_str().unicode_len() > 0 {
            let plus = "+";
            proof {
                reveal_strlit("+");
                assert(plus@ =~= seq!['+']);
            }
            r.append(plus);
            r.append(self.build.as_str());
        }
        proof {
            assert(r@ =~= self.display_seq());
        }
        r
    }
}

impl Clone for Version {
    /// A clone carries the same contents.
    fn clone(&self) -> (r: Self)
        ensures
            r.sem() == self.sem(),
    {
        Version {
            major: self.major,
            minor: self.minor,
            patch: self.patch,
            pre: clone_strings(&self.pre),
            build: self.build.clone(),
        }
    }
}

/// The composite key one published entry of a package lives under: a
/// version together with the target kind it was published for.
#[derive(Debug)]
pub struct VersionId {
    pub version: Version,
    pub target: TargetKind,
}

impl VersionId {
    /// The version component.
    pub fn version(&self) -> (r: &Version)
        ensures
            r == &self.version,
    {
        &self.version
    }

    /// The target-kind component.
    pub fn target(&self) -> (r: TargetKind)
        ensures
            r == self.target,
    {
        self.target
    }

    /// The textual form `version+target`.
    pub fn text(&self) -> (r: String)
        ensures
            r@ == self.version.display_seq() + seq!['+'] + self.target.kind_str(),
    {
        let mut r = self.version.text();
        let plus = "+";
        proof {
            reveal_strlit("+");
            assert(plus@ =~= seq!['+']);
        }
        r.append(plus);
        let kind = self.target.name();
        r.append(kind.as_str());
        r
    }
}

impl Clone for VersionId {
    /// A clone carries the same contents.
    fn clone(&self) -> (r: Self)
        ensures
            r.version.sem() == self.version.sem(),
            r.target == self.target,
    {
        VersionId { version: self.version.clone(), target: self.target }
    }
}

} // verus!
