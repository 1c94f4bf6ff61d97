//! Dependencies as a cargo manifest writes them, and the edits made to them.

use vstd::prelude::*;

use toml_edit::DocumentMut;

use crate::manifest::Manifest;
use crate::text::concat;
use crate::toml::{
    array_of, node_array, node_at, node_bool, node_kind, node_str, opt_view, opt_views, path_view, str_of,
    toml_nodes, KeyPath, NodeKind, TomlNode,
};
use crate::updater::{DependencyUpdateError, VersionType, VersionTypeView};
use crate::version::{
    opt_req_view, spec_parse_req, spec_parse_version, spec_req_matches, version_text, SemVersion, SemVersionReq,
    VersionView,
};

verus! {

/// The three kinds of dependency sections of a cargo manifest.
#[derive(Debug, Clone, Copy, PartialEq, Eq, Hash, Structural)]
pub enum DependencyKind {
    Normal,
    Dev,
    Build,
}

impl DependencyKind {
    /// The name of the manifest section that holds dependencies of this kind.
    pub open spec fn section_spec(self) -> Seq<char> {
        match self {
            DependencyKind::Normal => "dependencies"@,
            DependencyKind::Dev => "dev-dependencies"@,
            DependencyKind::Build => "build-dependencies"@,
        }
    }

    /// The title of the kind, as `Display` writes it.
    pub open spec fn title_spec(self) -> Seq<char> {
        match self {
            DependencyKind::Normal => "Dependencies"@,
            DependencyKind::Dev => "Dev Dependencies"@,
            DependencyKind::Build => "Build Dependencies"@,
        }
    }

    /// All kinds, in the order in which the manifest's sections are read.
    pub open spec fn kinds_spec() -> Seq<DependencyKind> {
        seq![DependencyKind::Normal, DependencyKind::Dev, DependencyKind::Build]
    }

    pub fn kinds() -> (r: Vec<DependencyKind>)
        ensures
            r@ == Self::kinds_spec(),
    {
        let v = vec![DependencyKind::Normal, DependencyKind::Dev, DependencyKind::Build];
        assert(v@ =~= Self::kinds_spec());
        v
    }

    pub fn section(&self) -> (r: &'static str)
        ensures
            r@ == self.section_spec(),
    {
        match self {
            DependencyKind::Normal => "dependencies",
            DependencyKind::Dev => "dev-dependencies",
            DependencyKind::Build => "build-dependencies",
        }
    }

    pub fn title(&self) -> (r: &'static str)
        ensures
            r@ == self.title_spec(),
    {
        match self {
            DependencyKind::Normal => "Dependencies",
            DependencyKind::Dev => "Dev Dependencies",
            DependencyKind::Build => "Build Dependencies",
        }
    }
}

/// Errors that can occur when parsing a dependency.
#[derive(Debug, Clone, Copy, PartialEq, Eq, Structural)]
pub enum DependencyParseError {
    /// The source of the dependency could not be parsed.
    InvalidSource,
}

/// Where a registry dependency's version comes from: an exact version or a requirement.
#[derive(Debug)]
pub enum RegistrySource {
    Version(SemVersion),
    Requirement(SemVersionReq),
}

pub enum RegistrySourceView {
    Version(VersionView),
    Requirement(Seq<char>),
}

impl View for RegistrySource {
    type V = RegistrySourceView;

    open spec fn view(&self) -> RegistrySourceView {
        match self {
            RegistrySource::Version(v) => RegistrySourceView::Version(v@),
            RegistrySource::Requirement(r) => RegistrySourceView::Requirement(r@),
        }
    }
}

impl RegistrySourceView {
    /// Whether a version satisfies the source: it is that exact version, or the requirement accepts it.
    pub open spec fn matches(self, v: VersionView) -> bool {
        match self {
            RegistrySourceView::Version(w) => w == v,
            RegistrySourceView::Requirement(r) => spec_req_matches(r, v),
        }
    }

    /// The text of the requirement of versions compatible with the source: for an exact
    /// version, what parsing `^` and its text gives, where that parses.
    pub open spec fn compatible_req(self) -> Option<Seq<char>> {
        match self {
            RegistrySourceView::Version(v) => spec_parse_req("^"@ + version_text(v)),
            RegistrySourceView::Requirement(r) => Some(r),
        }
    }

    pub open spec fn text(self) -> Seq<char> {
        match self {
            RegistrySourceView::Version(v) => version_text(v),
            RegistrySourceView::Requirement(r) => r,
        }
    }
}

impl RegistrySource {
    pub fn matches(&self, version: &SemVersion) -> (r: bool)
        ensures
            r == self@.matches(version@),
    {
        match self {
            RegistrySource::Version(v) => v.same_as(version),
            RegistrySource::Requirement(r) => r.matches(version),
        }
    }

    /// The requirement that versions compatible with this source meet: `^v` for an exact
    /// version (none where that text does not parse), the requirement itself otherwise.
    pub fn compatible_req(&self) -> (r: Option<SemVersionReq>)
        ensures
            opt_req_view(r) == self@.compatible_req(),
    {
        match self {
            RegistrySource::Version(v) => SemVersionReq::caret(v),
            RegistrySource::Requirement(r) => Some(r.duplicate()),
        }
    }

    pub fn duplicate(&self) -> (r: RegistrySource)
        ensures
            r@ == self@,
    {
        match self {
            RegistrySource::Version(v) => RegistrySource::Version(v.duplicate()),
            RegistrySource::Requirement(r) => RegistrySource::Requirement(r.duplicate()),
        }
    }

    /// The text that `Display` writes.
    pub fn to_text(&self) -> (r: String)
        ensures
            r@ == self@.text(),
    {
        match self {
            RegistrySource::Version(v) => v.to_text(),
            RegistrySource::Requirement(r) => r.to_text(),
        }
    }
}

/// Where a dependency comes from.
#[derive(Debug)]
pub enum Source {
    Registry(RegistrySource),
    Git { url: String, branch: Option<String>, tag: Option<String>, git_ref: Option<String> },
    Path { path: String },
}

pub enum SourceView {
    Registry(RegistrySourceView),
    Git { url: Seq<char>, branch: Option<Seq<char>>, tag: Option<Seq<char>>, git_ref: Option<Seq<char>> },
    Path { path: Seq<char> },
}

impl View for Source {
    type V = SourceView;

    open spec fn view(&self) -> SourceView {
        match self {
            Source::Registry(r) => SourceView::Registry(r@),
            Source::Git { url, branch, tag, git_ref } => SourceView::Git {
                url: url@,
                branch: opt_view(*branch),
                tag: opt_view(*tag),
                git_ref: opt_view(*git_ref),
            },
            Source::Path { path } => SourceView::Path { path: path@ },
        }
    }
}

pub open spec fn hash_part(s: Option<Seq<char>>) -> Seq<char> {
    match s {
        Some(s) => "#"@ + s,
        None => Seq::empty(),
    }
}

impl SourceView {
    /// The text that `Display` writes for a source.
    pub open spec fn text(self) -> Seq<char> {
        match self {
            SourceView::Registry(r) => r.text(),
            SourceView::Git { url, branch, tag, git_ref } => "git+"@ + url + hash_part(branch) + hash_part(tag)
                + hash_part(git_ref),
            SourceView::Path { path } => "path+"@ + path,
        }
    }
}

/// The source that a version text gives: an exact version where it parses as one, else a
/// requirement where it parses as one.
pub open spec fn source_from_text(s: Seq<char>) -> Option<SourceView> {
    match spec_parse_version(s) {
        Some(v) => Some(SourceView::Registry(RegistrySourceView::Version(v))),
        None => match spec_parse_req(s) {
            Some(r) => Some(SourceView::Registry(RegistrySourceView::Requirement(r))),
            None => None,
        },
    }
}

fn push_hash_part(s: &mut String, part: &Option<String>)
    ensures
        final(s)@ == old(s)@ + hash_part(opt_view(*part)),
{
    proof {
        reveal_strlit("#");
    }
    match part {
        Some(p) => {
            s.append("#");
            s.append(p.as_str());
        },
        None => {},
    }
}

impl Source {
    /// Reads the source of a dependency written as a table at `table`: its `version` entry,
    /// read as an exact version, else as a requirement.
    pub fn try_from_table(doc: &DocumentMut, table: &Vec<String>) -> (r: Result<Source, DependencyParseError>)
        ensures
            match str_of(node_at(toml_nodes(*doc), path_view(table@).push("version"@))) {
                Some(v) => match source_from_text(v) {
                    Some(src) => r matches Ok(s) && s@ == src,
                    None => r == Err::<Source, DependencyParseError>(DependencyParseError::InvalidSource),
                },
                None => r == Err::<Source, DependencyParseError>(DependencyParseError::InvalidSource),
            },
    {
        let mut p = table.clone();
        p.push(String::from_str("version"));
        proof {
            assert(path_view(p@) =~= path_view(table@).push("version"@));
        }
        match node_str(doc, &p) {
            Some(v) => Source::from_version_text(v.as_str()),
            None => Err(DependencyParseError::InvalidSource),
        }
    }

    /// The source that a version text gives.
    pub fn from_version_text(v: &str) -> (r: Result<Source, DependencyParseError>)
        ensures
            match source_from_text(v@) {
                Some(src) => r matches Ok(s) && s@ == src,
                None => r == Err::<Source, DependencyParseError>(DependencyParseError::InvalidSource),
            },
    {
        match SemVersion::parse(v) {
            Some(version) => Ok(Source::Registry(RegistrySource::Version(version))),
            None => match SemVersionReq::parse(v) {
                Some(req) => Ok(Source::Registry(RegistrySource::Requirement(req))),
                None => Err(DependencyParseError::InvalidSource),
            },
        }
    }

    pub fn duplicate(&self) -> (r: Source)
        ensures
            r@ == self@,
    {
        match self {
            Source::Registry(s) => Source::Registry(s.duplicate()),
            Source::Git { url, branch, tag, git_ref } => Source::Git {
                url: url.clone(),
                branch: branch.clone(),
                tag: tag.clone(),
                git_ref: git_ref.clone(),
            },
            Source::Path { path } => Source::Path { path: path.clone() },
        }
    }

    /// The text that `Display` writes.
    pub fn to_text(&self) -> (r: String)
        ensures
            r@ == self@.text(),
    {
        proof {
            reveal_strlit("git+");
            reveal_strlit("path+");
        }
        match self {
            Source::Registry(s) => s.to_text(),
            Source::Git { url, branch, tag, git_ref } => {
                let mut s = concat("git+", url.as_str());
                push_hash_part(&mut s, branch);
                push_hash_part(&mut s, tag);
                push_hash_part(&mut s, git_ref);
                s
            },
            Source::Path { path } => concat("path+", path.as_str()),
        }
    }
}

/// What a dependency holds.
pub struct DependencyView {
    pub name: Seq<char>,
    pub source: SourceView,
    pub default_features: bool,
    pub package: Option<Seq<char>>,
    pub features: Option<Seq<Seq<char>>>,
}

/// The strings among the values of an array, in order (`filter_map(as_str)`).
pub open spec fn strings_of(a: Seq<Option<Seq<char>>>) -> Seq<Seq<char>>
    decreases a.len(),
{
    if a.len() == 0 {
        Seq::empty()
    } else {
        let rest = strings_of(a.drop_last());
        match a.last() {
            Some(s) => rest.push(s),
            None => rest,
        }
    }
}

/// Whether default features are on for the dependency table at `p`: they are unless its
/// `default-features` entry says otherwise, and an entry that is no boolean turns them off.
pub open spec fn default_features_at(m: Map<KeyPath, TomlNode>, p: KeyPath) -> bool {
    match node_at(m, p.push("default-features"@)) {
        None => true,
        Some(TomlNode::Empty) => true,
        Some(TomlNode::Bool(b)) => b,
        Some(_) => false,
    }
}

/// The dependency named `name` whose entry is at `p`, where the entry can be read as one.
pub open spec fn dependency_at(m: Map<KeyPath, TomlNode>, p: KeyPath, name: Seq<char>) -> Option<DependencyView> {
    match node_at(m, p) {
        Some(TomlNode::Str(s)) => match source_from_text(s) {
            Some(src) => Some(
                DependencyView { name, source: src, default_features: true, package: None, features: None },
            ),
            None => None,
        },
        Some(TomlNode::InlineTable) | Some(TomlNode::Table) => match str_of(node_at(m, p.push("version"@))) {
            Some(v) => match source_from_text(v) {
                Some(src) => Some(
                    DependencyView {
                        name,
                        source: src,
                        default_features: default_features_at(m, p),
                        package: str_of(node_at(m, p.push("package"@))),
                        features: match array_of(node_at(m, p.push("features"@))) {
                            Some(a) => Some(strings_of(a)),
                            None => None,
                        },
                    },
                ),
                None => None,
            },
            None => None,
        },
        _ => None,
    }
}

/// A dependency read from the manifest.
#[derive(Debug)]
pub struct DependencyRef {
    name: String,
    source: Source,
    default_features: bool,
    package: Option<String>,
    features: Option<Vec<String>>,
}

pub open spec fn opt_strings_view(v: Option<Vec<String>>) -> Option<Seq<Seq<char>>> {
    match v {
        Some(v) => Some(path_view(v@)),
        None => None,
    }
}

impl View for DependencyRef {
    type V = DependencyView;

    closed spec fn view(&self) -> DependencyView {
        DependencyView {
            name: self.name@,
            source: self.source@,
            default_features: self.default_features,
            package: opt_view(self.package),
            features: opt_strings_view(self.features),
        }
    }
}

fn child_path(p: &Vec<String>, key: &str) -> (r: Vec<String>)
    ensures
        path_view(r@) == path_view(p@).push(key@),
{
    let mut r = p.clone();
    r.push(String::from_str(key));
    proof {
        assert(path_view(r@) =~= path_view(p@).push(key@));
    }
    r
}

fn strings_of_values(values: &Vec<Option<String>>) -> (r: Vec<String>)
    ensures
        path_view(r@) == strings_of(opt_views(values@)),
{
    let mut r: Vec<String> = Vec::new();
    let mut i: usize = 0;
    while i < values.len()
        invariant
            i <= values.len(),
            path_view(r@) == strings_of(opt_views(values@).subrange(0, i as int)),
        decreases values.len() - i,
    {
        proof {
            assert(opt_views(values@).subrange(0, i + 1).drop_last() =~= opt_views(values@).subrange(0, i as int));
        }
        match &values[i] {
            Some(s) => {
                r.push(s.clone());
                proof {
                    assert(path_view(r@) =~= strings_of(opt_views(values@).subrange(0, i as int)).push(s@));
                }
            },
            None => {},
        }
        i = i + 1;
    }
    proof {
        assert(opt_views(values@).subrange(0, values@.len() as int) =~= opt_views(values@));
    }
    r
}

impl DependencyRef {
    /// Reads the dependency `name` whose entry is at `path`: a version text, or a table whose
    /// `version` entry is one.
    pub fn from_item(name: &str, doc: &DocumentMut, path: &Vec<String>) -> (r: Result<DependencyRef, DependencyParseError>)
        ensures
            match dependency_at(toml_nodes(*doc), path_view(path@), name@) {
                Some(d) => r matches Ok(dep) && dep@ == d,
                None => r == Err::<DependencyRef, DependencyParseError>(DependencyParseError::InvalidSource),
            },
    {
        let ghost m = toml_nodes(*doc);
        let ghost p = path_view(path@);
        let kind = node_kind(doc, path);
        match kind {
            NodeKind::Str => {
                let text = node_str(doc, path);
                let text = match text {
                    Some(t) => t,
                    None => {
                        return Err(DependencyParseError::InvalidSource);
                    },
                };
                let source = Source::from_version_text(text.as_str())?;
                Ok(DependencyRef {
                    name: String::from_str(name),
                    source,
                    default_features: true,
                    package: None,
                    features: None,
                })
            },
            NodeKind::InlineTable | NodeKind::Table => {
                let source = Source::try_from_table(doc, path)?;
                let dp = child_path(path, "default-features");
                let default_features = match node_kind(doc, &dp) {
                    NodeKind::Missing | NodeKind::Empty => true,
                    _ => match node_bool(doc, &dp) {
                        Some(b) => b,
                        None => false,
                    },
                };
                let package = node_str(doc, &child_path(path, "package"));
                let features = match node_array(doc, &child_path(path, "features")) {
                    Some(values) => Some(strings_of_values(&values)),
                    None => None,
                };
                Ok(DependencyRef { name: String::from_str(name), source, default_features, package, features })
            },
            _ => Err(DependencyParseError::InvalidSource),
        }
    }

    pub fn name(&self) -> (r: &str)
        ensures
            r@ == self@.name,
    {
        self.name.as_str()
    }

    pub fn source(&self) -> (r: &Source)
        ensures
            r@ == self@.source,
    {
        &self.source
    }

    pub fn default_features(&self) -> (r: bool)
        ensures
            r == self@.default_features,
    {
        self.default_features
    }

    pub fn package(&self) -> (r: Option<&str>)
        ensures
            match r {
                Some(p) => self@.package == Some(p@),
                None => self@.package is None,
            },
    {
        match &self.package {
            Some(p) => Some(p.as_str()),
            None => None,
        }
    }

    /// The name under which the dependency is published: its `package` entry where it has
    /// one, else its own name.
    pub fn resolved_name(&self) -> (r: &str)
        ensures
            r@ == match self@.package {
                Some(p) => p,
                None => self@.name,
            },
    {
        match &self.package {
            Some(p) => p.as_str(),
            None => self.name.as_str(),
        }
    }

    /// The features that the dependency enables, where it lists them in a `features` array.
    pub fn features(&self) -> (r: Option<&Vec<String>>)
        ensures
            match r {
                Some(f) => self@.features == Some(path_view(f@)),
                None => self@.features is None,
            },
    {
        match &self.features {
            Some(f) => Some(f),
            None => None,
        }
    }
}

/// Whether `s` is among the strings of `features`.
pub fn contains_string(features: &Vec<String>, s: &str) -> (r: bool)
    ensures
        r == path_view(features@).contains(s@),
{
    let mut i: usize = 0;
    while i < features.len()
        invariant
            i <= features.len(),
            forall|j: int| 0 <= j < i ==> features@[j]@ != s@,
        decreases features.len() - i,
    {
        if crate::text::str_eq(features[i].as_str(), s) {
            assert(path_view(features@)[i as int] == s@);
            return true;
        }
        i = i + 1;
    }
    proof {
        if path_view(features@).contains(s@) {
            let j = choose|j: int| 0 <= j < path_view(features@).len() && path_view(features@)[j] == s@;
            assert(features@[j]@ == s@);
        }
    }
    false
}

/// The part of a dependency table's cursor that identifies it.
pub struct TableCursorView {
    pub kind: DependencyKind,
    pub target: Option<Seq<char>>,
}

/// The name of the table that `to_table_name` gives: the section, or
/// `target.<target>.<section>` for a target-specific table.
pub open spec fn table_name_spec(c: TableCursorView) -> Seq<char> {
    match c.target {
        None => c.kind.section_spec(),
        Some(t) => "target."@ + t + "."@ + c.kind.section_spec(),
    }
}

/// The title that `Display` writes for a table: the kind's title, then ` (<target>)`.
pub open spec fn table_title_spec(c: TableCursorView) -> Seq<char> {
    match c.target {
        None => c.kind.title_spec(),
        Some(t) => c.kind.title_spec() + " ("@ + t + ")"@,
    }
}

/// A cursor to a dependency table parsed from a `Cargo.toml` file.
#[derive(Debug)]
pub struct DependencyTableCursor {
    /// The kind of dependency table this is (e.g. `dependencies`, `dev-dependencies`)
    pub kind: DependencyKind,
    /// The target platform this table is for (e.g. `x86_64-unknown-linux-gnu`), if any
    pub target: Option<String>,
}

impl View for DependencyTableCursor {
    type V = TableCursorView;

    open spec fn view(&self) -> TableCursorView {
        TableCursorView { kind: self.kind, target: opt_view(self.target) }
    }
}

impl DependencyTableCursor {
    pub fn to_table_name(&self) -> (r: String)
        ensures
            r@ == table_name_spec(self@),
    {
        proof {
            reveal_strlit("target.");
            reveal_strlit(".");
        }
        match &self.target {
            None => String::from_str(self.kind.section()),
            Some(t) => {
                let mut s = concat("target.", t.as_str());
                s.append(".");
                s.append(self.kind.section());
                s
            },
        }
    }

    /// The title that `Display` writes.
    pub fn to_text(&self) -> (r: String)
        ensures
            r@ == table_title_spec(self@),
    {
        proof {
            reveal_strlit(" (");
            reveal_strlit(")");
        }
        match &self.target {
            None => String::from_str(self.kind.title()),
            Some(t) => {
                let mut s = concat(self.kind.title(), " (");
                s.append(t.as_str());
                s.append(")");
                s
            },
        }
    }

    pub fn same_as(&self, other: &DependencyTableCursor) -> (r: bool)
        ensures
            r == (self@ == other@),
    {
        let same_kind = self.kind == other.kind;
        if !same_kind {
            return false;
        }
        match &self.target {
            None => other.target.is_none(),
            Some(a) => match &other.target {
                Some(b) => {
                    crate::text::str_eq(a.as_str(), b.as_str())
                },
                None => false,
            },
        }
    }

    pub fn duplicate(&self) -> (r: DependencyTableCursor)
        ensures
            r@ == self@,
    {
        DependencyTableCursor { kind: self.kind, target: self.target.clone() }
    }
}

pub struct DependencyCursorView {
    pub table: TableCursorView,
    pub name: Seq<char>,
}

/// A cursor to a specific dependency in a [`DependencyTable`].
#[derive(Debug)]
pub struct DependencyCursor {
    /// The table this cursor is pointing to
    pub table: DependencyTableCursor,
    /// The name of the dependency this cursor is pointing to
    pub name: String,
}

impl View for DependencyCursor {
    type V = DependencyCursorView;

    open spec fn view(&self) -> DependencyCursorView {
        DependencyCursorView { table: self.table@, name: self.name@ }
    }
}

impl DependencyCursor {
    pub fn same_as(&self, other: &DependencyCursor) -> (r: bool)
        ensures
            r == (self@ == other@),
    {
        self.table.same_as(&other.table) && self.name == other.name
    }

    pub fn duplicate(&self) -> (r: DependencyCursor)
        ensures
            r@ == self@,
    {
        DependencyCursor { table: self.table.duplicate(), name: self.name.clone() }
    }
}

pub struct DependencyTableView {
    pub cursor: TableCursorView,
    pub deps: Seq<DependencyView>,
}

/// A table of dependencies parsed from a `Cargo.toml` file.
#[derive(Debug)]
pub struct DependencyTable {
    /// The table cursor information
    pub cursor: DependencyTableCursor,
    /// The dependencies in this table
    pub deps: Vec<DependencyRef>,
}

pub open spec fn deps_view(deps: Seq<DependencyRef>) -> Seq<DependencyView> {
    deps.map_values(|d: DependencyRef| d@)
}

impl View for DependencyTable {
    type V = DependencyTableView;

    open spec fn view(&self) -> DependencyTableView {
        DependencyTableView { cursor: self.cursor@, deps: deps_view(self.deps@) }
    }
}

/// A handle on the entry of one dependency in the manifest, through which it is edited.
#[derive(Debug)]
pub struct MutableDependency {
    path: Vec<String>,
}

impl View for MutableDependency {
    type V = KeyPath;

    closed spec fn view(&self) -> KeyPath {
        path_view(self.path@)
    }
}

impl MutableDependency {
    #[verifier::type_invariant]
    spec fn well_formed(self) -> bool {
        self.path@.len() > 0
    }

    /// A handle on the entry at `path`, the key path of a dependency's entry.
    pub fn new(path: Vec<String>) -> (r: Option<MutableDependency>)
        ensures
            path@.len() > 0 ==> (r matches Some(d) && d@ == path_view(path@)),
            path@.len() == 0 ==> r is None,
    {
        if path.len() > 0 {
            Some(MutableDependency { path })
        } else {
            None
        }
    }

    pub fn path(&self) -> (r: &Vec<String>)
        ensures
            path_view(r@) == self@,
            r@.len() > 0,
    {
        proof {
            use_type_invariant(self);
        }
        &self.path
    }
}

} // verus!
