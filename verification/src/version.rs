//! Semantic versions and version requirements, as the `semver` crate parses and compares them.

use vstd::prelude::*;

use crate::text::{concat, decimal, decimal_string};
use std::cmp::Ordering;

verus! {

#[verifier::external_type_specification]
#[verifier::external_body]
pub struct ExSemverVersion(semver::Version);

#[verifier::external_type_specification]
#[verifier::external_body]
pub struct ExSemverVersionReq(semver::VersionReq);

/// The outcome of comparing two values.
#[derive(Debug, Clone, Copy, PartialEq, Eq, Structural)]
pub enum CmpResult {
    Less,
    Equal,
    Greater,
}

/// The parts of a version.
pub struct VersionView {
    pub major: u64,
    pub minor: u64,
    pub patch: u64,
    pub pre: Seq<char>,
    pub build: Seq<char>,
}

/// A semantic version, as `semver::Version::parse` reads it.  Its parts are kept as plain
/// values beside the parsed version, which is built only from the same text.
#[derive(Debug)]
pub struct SemVersion {
    raw: semver::Version,
    major: u64,
    minor: u64,
    patch: u64,
    pre: String,
    build: String,
}

impl View for SemVersion {
    type V = VersionView;

    closed spec fn view(&self) -> VersionView {
        VersionView {
            major: self.major,
            minor: self.minor,
            patch: self.patch,
            pre: self.pre@,
            build: self.build@,
        }
    }
}

/// A version requirement, as `semver::VersionReq::parse` reads it, seen through the text
/// that its `Display` writes.
#[derive(Debug)]
pub struct SemVersionReq {
    raw: semver::VersionReq,
    text: String,
}

impl View for SemVersionReq {
    type V = Seq<char>;

    closed spec fn view(&self) -> Seq<char> {
        self.text@
    }
}

/// The version that `semver::Version::parse` reads from `text`, if it reads one.
pub uninterp spec fn spec_parse_version(text: Seq<char>) -> Option<VersionView>;

/// How `semver::Version`'s `Ord` compares two versions.
pub uninterp spec fn spec_version_cmp(a: VersionView, b: VersionView) -> CmpResult;

/// The text of the requirement that `semver::VersionReq::parse` reads from `text`, if it reads one.
pub uninterp spec fn spec_parse_req(text: Seq<char>) -> Option<Seq<char>>;

/// Whether `semver::VersionReq::matches` accepts the version, for the requirement with that text.
pub uninterp spec fn spec_req_matches(req: Seq<char>, v: VersionView) -> bool;

/// Whether a version view is that of a version that `semver::Version::parse` reads from
/// some text.
pub open spec fn is_version(v: VersionView) -> bool {
    exists|t: Seq<char>| spec_parse_version(t) == Some(v)
}

pub open spec fn opt_version_view(v: Option<SemVersion>) -> Option<VersionView> {
    match v {
        Some(v) => Some(v@),
        None => None,
    }
}

pub open spec fn opt_req_view(r: Option<SemVersionReq>) -> Option<Seq<char>> {
    match r {
        Some(r) => Some(r@),
        None => None,
    }
}

/// The text that `Display` writes for a version: `major.minor.patch`, then `-pre` and
/// `+build` where they are not empty.
pub open spec fn version_text(v: VersionView) -> Seq<char> {
    decimal(v.major as nat) + "."@ + decimal(v.minor as nat) + "."@ + decimal(v.patch as nat) + (if v.pre.len()
        == 0 {
        Seq::empty()
    } else {
        "-"@ + v.pre
    }) + (if v.build.len() == 0 {
        Seq::empty()
    } else {
        "+"@ + v.build
    })
}

/// Parses a version with `semver::Version::parse`, keeping its parts as plain values.
///
/// Claims that the result is what `spec_parse_version` names for the text.
#[verifier::external_body]
fn parse_semver(text: &str) -> (r: Option<SemVersion>)
    ensures
        opt_version_view(r) == spec_parse_version(text@),
{
    match semver::Version::parse(text) {
        Ok(v) => Some(
            SemVersion {
                major: v.major,
                minor: v.minor,
                patch: v.patch,
                pre: v.pre.as_str().to_string(),
                build: v.build.as_str().to_string(),
                raw: v,
            },
        ),
        Err(_) => None,
    }
}

/// Compares two versions with `Ord::cmp` of `semver::Version`.
///
/// Claims that the result is what `spec_version_cmp` names, and two facts of a total
/// order, which `Ord` of `semver::Version` is: comparing the other way round gives the
/// opposite answer, and where `a` is greater than `b`, every version not greater than `b`
/// is less than `a`.
#[verifier::external_body]
fn semver_cmp(a: &SemVersion, b: &SemVersion) -> (r: CmpResult)
    ensures
        r == spec_version_cmp(a@, b@),
        spec_version_cmp(b@, a@) == match r {
            CmpResult::Less => CmpResult::Greater,
            CmpResult::Equal => CmpResult::Equal,
            CmpResult::Greater => CmpResult::Less,
        },
        r == CmpResult::Greater ==> forall|c: VersionView|
            is_version(c) && spec_version_cmp(c, b@) != CmpResult::Greater ==> #[trigger] spec_version_cmp(c, a@)
                == CmpResult::Less,
{
    match a.raw.cmp(&b.raw) {
        Ordering::Less => CmpResult::Less,
        Ordering::Equal => CmpResult::Equal,
        Ordering::Greater => CmpResult::Greater,
    }
}

/// Clones the parsed version (`Clone` of `semver::Version`); nothing is stated of it, the
/// plain parts being copied beside it.
#[verifier::external_body]
fn clone_semver(v: &semver::Version) -> semver::Version {
    v.clone()
}

/// Parses a requirement with `semver::VersionReq::parse`, keeping the text that its
/// `Display` writes.
///
/// Claims that the text is what `spec_parse_req` names for the input.
#[verifier::external_body]
fn parse_semver_req(text: &str) -> (r: Option<SemVersionReq>)
    ensures
        opt_req_view(r) == spec_parse_req(text@),
{
    match semver::VersionReq::parse(text) {
        Ok(r) => Some(SemVersionReq { text: r.to_string(), raw: r }),
        Err(_) => None,
    }
}

/// Whether a requirement accepts a version (`semver::VersionReq::matches`).
///
/// Claims that the answer is what `spec_req_matches` names.
#[verifier::external_body]
fn semver_matches(r: &SemVersionReq, v: &SemVersion) -> (b: bool)
    ensures
        b == spec_req_matches(r@, v@),
{
    r.raw.matches(&v.raw)
}

/// Clones the parsed requirement (`Clone` of `semver::VersionReq`); nothing is stated of it.
#[verifier::external_body]
fn clone_semver_req(r: &semver::VersionReq) -> semver::VersionReq {
    r.clone()
}

impl SemVersion {
    /// A version is only ever one that `semver::Version::parse` read.
    #[verifier::type_invariant]
    spec fn well_formed(self) -> bool {
        is_version(self@)
    }

    /// Reads a version from text.
    pub fn parse(text: &str) -> (r: Option<SemVersion>)
        ensures
            opt_version_view(r) == spec_parse_version(text@),
    {
        parse_semver(text)
    }

    pub fn major(&self) -> (r: u64)
        ensures
            r == self@.major,
    {
        self.major
    }

    pub fn minor(&self) -> (r: u64)
        ensures
            r == self@.minor,
    {
        self.minor
    }

    pub fn patch(&self) -> (r: u64)
        ensures
            r == self@.patch,
    {
        self.patch
    }

    /// A copy of the version.
    pub fn duplicate(&self) -> (r: SemVersion)
        ensures
            r@ == self@,
            is_version(self@),
    {
        proof {
            use_type_invariant(self);
        }
        SemVersion {
            raw: clone_semver(&self.raw),
            major: self.major,
            minor: self.minor,
            patch: self.patch,
            pre: self.pre.clone(),
            build: self.build.clone(),
        }
    }

    /// Whether two versions are equal: all their parts are.
    pub fn same_as(&self, other: &SemVersion) -> (r: bool)
        ensures
            r == (self@ == other@),
    {
        self.major == other.major && self.minor == other.minor && self.patch == other.patch
            && self.pre == other.pre && self.build == other.build
    }

    /// How this version compares with another.
    pub fn compare(&self, other: &SemVersion) -> (r: CmpResult)
        ensures
            r == spec_version_cmp(self@, other@),
            is_version(self@),
            is_version(other@),
    {
        proof {
            use_type_invariant(self);
            use_type_invariant(other);
        }
        semver_cmp(self, other)
    }

    /// Whether this version is not newer than `other` (`<=`).
    pub fn not_newer_than(&self, other: &SemVersion) -> (r: bool)
        ensures
            r == (spec_version_cmp(self@, other@) != CmpResult::Greater),
            is_version(self@),
            is_version(other@),
            !r ==> spec_version_cmp(other@, self@) == CmpResult::Less,
            !r ==> forall|c: VersionView|
                is_version(c) && spec_version_cmp(c, other@) != CmpResult::Greater ==> #[trigger] spec_version_cmp(
                    c,
                    self@,
                ) == CmpResult::Less,
    {
        proof {
            use_type_invariant(self);
            use_type_invariant(other);
        }
        let c = semver_cmp(self, other);
        match c {
            CmpResult::Greater => false,
            _ => true,
        }
    }

    /// The version's text, as `Display` writes it.
    pub fn to_text(&self) -> (r: String)
        ensures
            r@ == version_text(self@),
    {
        proof {
            reveal_strlit(".");
            reveal_strlit("-");
            reveal_strlit("+");
        }
        let mut s = decimal_string(self.major);
        s.append(".");
        s.append(decimal_string(self.minor).as_str());
        s.append(".");
        s.append(decimal_string(self.patch).as_str());
        if self.pre.unicode_len() != 0 {
            s.append("-");
            s.append(self.pre.as_str());
        }
        if self.build.unicode_len() != 0 {
            s.append("+");
            s.append(self.build.as_str());
        }
        s
    }
}

impl SemVersionReq {
    /// Reads a requirement from text.
    pub fn parse(text: &str) -> (r: Option<SemVersionReq>)
        ensures
            opt_req_view(r) == spec_parse_req(text@),
    {
        parse_semver_req(text)
    }

    /// The requirement `^v` for a version `v`: what `semver::VersionReq::parse` reads from
    /// `^` and the version's text, where it reads one.
    pub fn caret(v: &SemVersion) -> (r: Option<SemVersionReq>)
        ensures
            opt_req_view(r) == spec_parse_req("^"@ + version_text(v@)),
    {
        proof {
            reveal_strlit("^");
        }
        let text = v.to_text();
        let caret = concat("^", text.as_str());
        parse_semver_req(caret.as_str())
    }

    /// Whether the requirement accepts the version.
    pub fn matches(&self, v: &SemVersion) -> (r: bool)
        ensures
            r == spec_req_matches(self@, v@),
    {
        semver_matches(self, v)
    }

    /// A copy of the requirement.
    pub fn duplicate(&self) -> (r: SemVersionReq)
        ensures
            r@ == self@,
    {
        SemVersionReq { raw: clone_semver_req(&self.raw), text: self.text.clone() }
    }

    /// The requirement's text, as `Display` writes it.
    pub fn to_text(&self) -> (r: String)
        ensures
            r@ == self@,
    {
        self.text.clone()
    }
}

} // verus!
