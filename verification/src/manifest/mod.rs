pub mod dependency;
pub mod package;

use vstd::prelude::*;

use toml_edit::DocumentMut;

use crate::manifest::dependency::{
    source_from_text, strings_of, dependency_at, deps_view, DependencyCursor, DependencyCursorView, DependencyKind, DependencyParseError,
    DependencyRef, DependencyTable, DependencyTableCursor, DependencyTableView, DependencyView,
    MutableDependency, TableCursorView, table_name_spec,
};
use crate::manifest::package::{package_from_table, PackageInfo, PackageInfoView};
use crate::toml::{
    array_push, array_remove, document_text, drop_orders, ensure_array, insert_bool, insert_str, inserted_nodes,
    inserted_order, is_prefix, is_table_like, keys_at, array_of, node_array, node_at, node_keys, node_kind, opt_views,
    parse_document, path_view, replace_node, set_str, str_of, str_to_inline_table, toml_nodes, toml_order, KeyPath,
    NodeKind, TomlNode,
};
use crate::updater::{DependencyUpdateError, VersionType, VersionTypeView};
use crate::version::version_text;

verus! {

/// An editable cargo manifest.
pub struct Manifest {
    /// The path of the manifest file.
    path: String,
    /// The parsed TOML document.
    data: DocumentMut,
}

/// Errors that can occur when parsing a cargo manifest.
#[derive(Debug, Clone, Copy, PartialEq, Eq, Structural)]
pub enum Error {
    /// Failed to parse the manifest file
    ParseError,
    /// The manifest file does not exist
    NotFound,
}

/// Errors that can occur when parsing a cargo manifest package.
#[derive(Debug, Clone, Copy, PartialEq, Eq, Structural)]
pub enum PackageError {
    /// The package section is missing from the manifest
    NoPackage,
    /// Failed to parse the package section
    ParseError,
}

/// The dependencies of the table at `p`, the entries `keys` in order, where each can be read.
pub open spec fn deps_of(m: Map<KeyPath, TomlNode>, p: KeyPath, keys: Seq<Seq<char>>) -> Option<Seq<DependencyView>>
    decreases keys.len(),
{
    if keys.len() == 0 {
        Some(Seq::empty())
    } else {
        match deps_of(m, p, keys.drop_last()) {
            Some(ds) => match dependency_at(m, p.push(keys.last()), keys.last()) {
                Some(d) => Some(ds.push(d)),
                None => None,
            },
            None => None,
        }
    }
}

/// The key path of the section that a table cursor names.
pub open spec fn section_path(c: TableCursorView) -> KeyPath {
    match c.target {
        None => seq![c.kind.section_spec()],
        Some(t) => seq!["target"@, t, c.kind.section_spec()],
    }
}

pub open spec fn kind_cursors(target: Option<Seq<char>>) -> Seq<TableCursorView> {
    seq![
        TableCursorView { kind: DependencyKind::Normal, target },
        TableCursorView { kind: DependencyKind::Dev, target },
        TableCursorView { kind: DependencyKind::Build, target },
    ]
}

pub open spec fn target_cursors(targets: Seq<Seq<char>>) -> Seq<TableCursorView>
    decreases targets.len(),
{
    if targets.len() == 0 {
        Seq::empty()
    } else {
        target_cursors(targets.drop_last()) + kind_cursors(Some(targets.last()))
    }
}

/// The tables where dependencies may stand, in the order they are read: the three sections,
/// then the three sections of each target in turn.
pub open spec fn table_candidates(m: Map<KeyPath, TomlNode>, o: Map<KeyPath, Seq<Seq<char>>>) -> Seq<TableCursorView> {
    kind_cursors(None) + target_cursors(keys_at(m, o, seq!["target"@]))
}

/// The tables among `cands` that the manifest has, each with its dependencies; `None` where
/// one of them is no table or holds an entry that is no dependency.
pub open spec fn collect_tables(
    m: Map<KeyPath, TomlNode>,
    o: Map<KeyPath, Seq<Seq<char>>>,
    cands: Seq<TableCursorView>,
) -> Option<Seq<DependencyTableView>>
    decreases cands.len(),
{
    if cands.len() == 0 {
        Some(Seq::empty())
    } else {
        match collect_tables(m, o, cands.drop_last()) {
            None => None,
            Some(ts) => {
                let c = cands.last();
                let p = section_path(c);
                match node_at(m, p) {
                    None => Some(ts),
                    Some(TomlNode::Empty) => Some(ts),
                    Some(TomlNode::Table) | Some(TomlNode::InlineTable) => match deps_of(m, p, keys_at(m, o, p)) {
                        Some(ds) => Some(ts.push(DependencyTableView { cursor: c, deps: ds })),
                        None => None,
                    },
                    Some(_) => None,
                }
            },
        }
    }
}

/// The dependency tables of a manifest with these contents.
pub open spec fn manifest_tables(m: Map<KeyPath, TomlNode>, o: Map<KeyPath, Seq<Seq<char>>>) -> Option<Seq<DependencyTableView>> {
    collect_tables(m, o, table_candidates(m, o))
}

/// The key path of the entry that a dependency cursor points to.
pub open spec fn cursor_path(c: DependencyCursorView) -> KeyPath {
    seq![table_name_spec(c.table), c.name]
}

/// What resolving a cursor gives: nothing where its table or entry is missing, else the
/// dependency, or an error where the entry is no dependency.
pub open spec fn resolved_dependency(m: Map<KeyPath, TomlNode>, c: DependencyCursorView) -> Result<Option<DependencyView>, DependencyParseError> {
    let p = cursor_path(c);
    if is_table_like(node_at(m, p.drop_last())) && node_at(m, p) is Some && node_at(m, p) != Some(TomlNode::Empty) {
        match dependency_at(m, p, c.name) {
            Some(d) => Ok(Some(d)),
            None => Err(DependencyParseError::InvalidSource),
        }
    } else {
        Ok(None)
    }
}

pub open spec fn package_of(m: Map<KeyPath, TomlNode>) -> Result<PackageInfoView, PackageError> {
    match node_at(m, seq!["package"@]) {
        None => Err(PackageError::NoPackage),
        Some(TomlNode::Table) => match package_from_table(m, seq!["package"@]) {
            Ok(info) => Ok(info),
            Err(_) => Err(PackageError::ParseError),
        },
        Some(_) => Err(PackageError::ParseError),
    }
}

proof fn lemma_deps_of_fails_later(m: Map<KeyPath, TomlNode>, p: KeyPath, keys: Seq<Seq<char>>, i: int)
    requires
        0 <= i <= keys.len(),
        deps_of(m, p, keys.subrange(0, i)) is None,
    ensures
        deps_of(m, p, keys) is None,
    decreases keys.len() - i,
{
    if i < keys.len() {
        assert(keys.subrange(0, i + 1).drop_last() =~= keys.subrange(0, i));
        lemma_deps_of_fails_later(m, p, keys, i + 1);
    } else {
        assert(keys.subrange(0, i) =~= keys);
    }
}

proof fn lemma_collect_fails_later(
    m: Map<KeyPath, TomlNode>,
    o: Map<KeyPath, Seq<Seq<char>>>,
    cands: Seq<TableCursorView>,
    i: int,
)
    requires
        0 <= i <= cands.len(),
        collect_tables(m, o, cands.subrange(0, i)) is None,
    ensures
        collect_tables(m, o, cands) is None,
    decreases cands.len() - i,
{
    if i < cands.len() {
        assert(cands.subrange(0, i + 1).drop_last() =~= cands.subrange(0, i));
        lemma_collect_fails_later(m, o, cands, i + 1);
    } else {
        assert(cands.subrange(0, i) =~= cands);
    }
}

fn single_path(key: String) -> (r: Vec<String>)
    ensures
        path_view(r@) == seq![key@],
{
    let mut r = Vec::new();
    r.push(key);
    proof {
        assert(path_view(r@) =~= seq![key@]);
    }
    r
}

fn push_key(p: &Vec<String>, key: &str) -> (r: Vec<String>)
    ensures
        path_view(r@) == path_view(p@).push(key@),
{
    let mut r = p.clone();
    r.push(String::from_str(key));
    proof {
        assert(path_view(r@) =~= path_view(p@).push(key@));
    }
    r
}

fn section_path_of(c: &DependencyTableCursor) -> (r: Vec<String>)
    ensures
        path_view(r@) == section_path(c@),
{
    match &c.target {
        None => single_path(String::from_str(c.kind.section())),
        Some(t) => {
            let mut r = Vec::new();
            r.push(String::from_str("target"));
            r.push(t.clone());
            r.push(String::from_str(c.kind.section()));
            proof {
                assert(path_view(r@) =~= section_path(c@));
            }
            r
        },
    }
}

fn push_kind_cursors(out: &mut Vec<DependencyTableCursor>, target: &Option<String>)
    ensures
        final(out)@.map_values(|c: DependencyTableCursor| c@) == old(out)@.map_values(
            |c: DependencyTableCursor| c@,
        ) + kind_cursors(crate::toml::opt_view(*target)),
{
    let ghost before = out@;
    out.push(DependencyTableCursor { kind: DependencyKind::Normal, target: target.clone() });
    out.push(DependencyTableCursor { kind: DependencyKind::Dev, target: target.clone() });
    out.push(DependencyTableCursor { kind: DependencyKind::Build, target: target.clone() });
    proof {
        assert(out@.map_values(|c: DependencyTableCursor| c@) =~= before.map_values(
            |c: DependencyTableCursor| c@,
        ) + kind_cursors(crate::toml::opt_view(*target)));
    }
}

impl Manifest {
    /// The contents of the manifest's document.
    pub closed spec fn nodes(&self) -> Map<KeyPath, TomlNode> {
        toml_nodes(self.data)
    }

    /// The order of the entries of the manifest's tables.
    pub closed spec fn order(&self) -> Map<KeyPath, Seq<Seq<char>>> {
        toml_order(self.data)
    }

    pub closed spec fn path_spec(&self) -> Seq<char> {
        self.path@
    }

    /// The manifest at `path` whose file holds `text`.
    pub fn new(path: String, text: &str) -> (r: Result<Manifest, Error>)
        ensures
            crate::toml::parsed_toml(text@) is None ==> r == Err::<Manifest, Error>(Error::ParseError),
            crate::toml::parsed_toml(text@) matches Some(c) ==> (r matches Ok(man) && man.nodes() == c.0
                && man.order() == c.1 && man.path_spec() == path@),
    {
        match parse_document(text) {
            Some(data) => Ok(Manifest { path, data }),
            None => Err(Error::ParseError),
        }
    }

    /// The path of the manifest file.
    pub fn path(&self) -> (r: &str)
        ensures
            r@ == self.path_spec(),
    {
        self.path.as_str()
    }

    /// The text that `Display` writes for the manifest's document.
    pub closed spec fn text_spec(&self) -> Seq<char> {
        crate::toml::toml_text(self.data)
    }

    /// The manifest's text, for writing back to its file: what `Display` writes for its
    /// document.
    pub fn text(&self) -> (r: String)
        ensures
            r@ == self.text_spec(),
    {
        document_text(&self.data)
    }

    pub fn package(&self) -> (r: Result<PackageInfo, PackageError>)
        ensures
            match package_of(self.nodes()) {
                Ok(info) => r matches Ok(i) && i@ == info,
                Err(e) => r matches Err(e2) && e2 == e,
            },
    {
        let p = single_path(String::from_str("package"));
        match node_kind(&self.data, &p) {
            NodeKind::Missing => Err(PackageError::NoPackage),
            NodeKind::Table => match PackageInfo::from_table(&self.data, &p) {
                Ok(info) => Ok(info),
                Err(_) => Err(PackageError::ParseError),
            },
            _ => Err(PackageError::ParseError),
        }
    }

    /// The dependencies of the table at `p`, one per entry of the table.
    fn table_dependencies(&self, p: &Vec<String>) -> (r: Result<Vec<DependencyRef>, PackageError>)
        ensures
            match deps_of(self.nodes(), path_view(p@), keys_at(self.nodes(), self.order(), path_view(p@))) {
                Some(ds) => r matches Ok(v) && deps_view(v@) == ds,
                None => r == Err::<Vec<DependencyRef>, PackageError>(PackageError::ParseError),
            },
            keys_at(self.nodes(), self.order(), path_view(p@)).no_duplicates(),
    {
        let keys = node_keys(&self.data, p);
        let ghost m = self.nodes();
        let ghost kv = path_view(keys@);
        let mut deps: Vec<DependencyRef> = Vec::new();
        let mut i: usize = 0;
        while i < keys.len()
            invariant
                i <= keys.len(),
                m == self.nodes(),
                kv == path_view(keys@),
                kv == keys_at(self.nodes(), self.order(), path_view(p@)),
                kv.no_duplicates(),
                deps_of(m, path_view(p@), kv.subrange(0, i as int)) == Some(deps_view(deps@)),
            decreases keys.len() - i,
        {
            let item = push_key(p, keys[i].as_str());
            proof {
                assert(kv.subrange(0, i + 1).drop_last() =~= kv.subrange(0, i as int));
                assert(kv.subrange(0, i + 1).last() == keys@[i as int]@);
            }
            match DependencyRef::from_item(keys[i].as_str(), &self.data, &item) {
                Ok(d) => {
                    deps.push(d);
                    proof {
                        assert(deps_view(deps@) =~= deps_view(deps@.drop_last()).push(d@));
                        assert(deps@.drop_last() =~= deps@.subrange(0, deps@.len() - 1));
                    }
                },
                Err(_) => {
                    proof {
                        lemma_deps_of_fails_later(m, path_view(p@), kv, i + 1);
                    }
                    return Err(PackageError::ParseError);
                },
            }
            i = i + 1;
        }
        proof {
            assert(kv.subrange(0, keys@.len() as int) =~= kv);
        }
        Ok(deps)
    }

    /// Every dependency table of the manifest, in the order of `table_candidates`.
    pub fn dependencies(&self) -> (r: Result<Vec<DependencyTable>, PackageError>)
        ensures
            match manifest_tables(self.nodes(), self.order()) {
                Some(ts) => r matches Ok(v) && v@.map_values(|t: DependencyTable| t@) == ts,
                None => r == Err::<Vec<DependencyTable>, PackageError>(PackageError::ParseError),
            },
            r is Ok ==> keys_read_distinct(self.nodes(), self.order()),
    {
        let ghost m = self.nodes();
        let ghost o = self.order();
        let mut cands: Vec<DependencyTableCursor> = Vec::new();
        push_kind_cursors(&mut cands, &None);
        let targets = node_keys(&self.data, &single_path(String::from_str("target")));
        let mut j: usize = 0;
        while j < targets.len()
            invariant
                j <= targets.len(),
                path_view(targets@) == keys_at(m, o, seq!["target"@]),
                path_view(targets@).no_duplicates(),
                cands@.map_values(|c: DependencyTableCursor| c@) == kind_cursors(None) + target_cursors(
                    path_view(targets@).subrange(0, j as int),
                ),
            decreases targets.len() - j,
        {
            proof {
                assert(path_view(targets@).subrange(0, j + 1).drop_last() =~= path_view(targets@).subrange(0, j as int));
            }
            push_kind_cursors(&mut cands, &Some(targets[j].clone()));
            j = j + 1;
        }
        proof {
            assert(path_view(targets@).subrange(0, targets@.len() as int) =~= path_view(targets@));
        }
        let ghost cv = cands@.map_values(|c: DependencyTableCursor| c@);
        assert(cv == table_candidates(m, o));
        let mut tables: Vec<DependencyTable> = Vec::new();
        let mut i: usize = 0;
        while i < cands.len()
            invariant
                i <= cands.len(),
                m == self.nodes(),
                o == self.order(),
                cv == cands@.map_values(|c: DependencyTableCursor| c@),
                cv == table_candidates(m, o),
                collect_tables(m, o, cv.subrange(0, i as int)) == Some(tables@.map_values(|t: DependencyTable| t@)),
                keys_at(m, o, seq!["target"@]).no_duplicates(),
                forall|j: int| 0 <= j < i ==> (#[trigger] keys_at(m, o, section_path(cv[j]))).no_duplicates(),
            decreases cands.len() - i,
        {
            proof {
                assert(cv.subrange(0, i + 1).drop_last() =~= cv.subrange(0, i as int));
                assert(cv.subrange(0, i + 1).last() == cands@[i as int]@);
            }
            let p = section_path_of(&cands[i]);
            proof {
                assert(cv[i as int] == cands@[i as int]@);
            }
            match node_kind(&self.data, &p) {
                NodeKind::Missing | NodeKind::Empty => {
                    assert(keys_at(m, o, section_path(cv[i as int])) =~= Seq::<Seq<char>>::empty());
                },
                NodeKind::Table | NodeKind::InlineTable => {
                    match self.table_dependencies(&p) {
                        Ok(deps) => {
                            let ghost before = tables@;
                            tables.push(DependencyTable { cursor: cands[i].duplicate(), deps });
                            proof {
                                assert(tables@.map_values(|t: DependencyTable| t@) =~= before.map_values(
                                    |t: DependencyTable| t@,
                                ).push(tables@.last()@));
                            }
                        },
                        Err(e) => {
                            proof {
                                lemma_collect_fails_later(m, o, cv, i + 1);
                            }
                            return Err(e);
                        },
                    }
                },
                _ => {
                    proof {
                        lemma_collect_fails_later(m, o, cv, i + 1);
                    }
                    return Err(PackageError::ParseError);
                },
            }
            i = i + 1;
        }
        proof {
            assert(cv.subrange(0, cands@.len() as int) =~= cv);
        }
        Ok(tables)
    }

    /// The dependency that a cursor points to, where its table has it.
    pub fn resolve_dependency(&self, cursor: &DependencyCursor) -> (r: Result<Option<DependencyRef>, DependencyParseError>)
        ensures
            match resolved_dependency(self.nodes(), cursor@) {
                Ok(Some(d)) => r matches Ok(Some(dep)) && dep@ == d,
                Ok(None) => r matches Ok(None),
                Err(e) => r matches Err(e2) && e2 == e,
            },
    {
        let tp = single_path(cursor.table.to_table_name());
        let p = push_key(&tp, cursor.name.as_str());
        proof {
            assert(path_view(p@) =~= cursor_path(cursor@));
            assert(cursor_path(cursor@).drop_last() =~= path_view(tp@));
        }
        let parent = node_kind(&self.data, &tp);
        if parent != NodeKind::Table && parent != NodeKind::InlineTable {
            return Ok(None);
        }
        let entry = node_kind(&self.data, &p);
        if entry == NodeKind::Missing || entry == NodeKind::Empty {
            return Ok(None);
        }
        match DependencyRef::from_item(cursor.name.as_str(), &self.data, &p) {
            Ok(d) => Ok(Some(d)),
            Err(e) => Err(e),
        }
    }

    /// A handle on the entry that a cursor points to, where its table has one.
    pub fn resolve_dependency_mut(&self, cursor: &DependencyCursor) -> (r: Option<MutableDependency>)
        ensures
            node_at(self.nodes(), cursor_path(cursor@)) is Some ==> (r matches Some(d) && d@ == cursor_path(
                cursor@,
            )),
            node_at(self.nodes(), cursor_path(cursor@)) is None ==> r is None,
    {
        let tp = single_path(cursor.table.to_table_name());
        let p = push_key(&tp, cursor.name.as_str());
        proof {
            assert(path_view(p@) =~= cursor_path(cursor@));
        }
        if node_kind(&self.data, &p) == NodeKind::Missing {
            None
        } else {
            MutableDependency::new(p)
        }
    }
}

pub type Nodes = Map<KeyPath, TomlNode>;

pub type Order = Map<KeyPath, Seq<Seq<char>>>;

/// The nodes after the string `s` at `p` became an inline table that holds it under `version`.
pub open spec fn inline_nodes(m: Nodes, p: KeyPath, s: Seq<char>) -> Nodes {
    replace_node(m, p, TomlNode::InlineTable).insert(p.push("version"@), TomlNode::Str(s))
}

pub open spec fn inline_order(o: Order, p: KeyPath) -> Order {
    drop_orders(o, p).insert(p, seq!["version"@])
}

pub open spec fn version_type_text(v: VersionTypeView) -> Seq<char> {
    match v {
        VersionTypeView::Registry(v) => version_text(v),
    }
}

/// What setting the version of the dependency at `p` to the text `t` does: a version string
/// is replaced, a table gets `t` under `version`; any other entry cannot be changed.
pub open spec fn set_version_effect(m: Nodes, o: Order, p: KeyPath, t: Seq<char>) -> Option<(Nodes, Order)> {
    match node_at(m, p) {
        Some(TomlNode::Str(_)) => Some((replace_node(m, p, TomlNode::Str(t)), drop_orders(o, p))),
        Some(TomlNode::InlineTable) | Some(TomlNode::Table) => Some(
            (inserted_nodes(m, p, "version"@, TomlNode::Str(t)), inserted_order(m, o, p, "version"@)),
        ),
        _ => None,
    }
}

/// What setting `default-features` of the dependency at `p` does: a version string first
/// becomes an inline table that holds it, then the table gets the entry.
pub open spec fn set_default_features_effect(m: Nodes, o: Order, p: KeyPath, b: bool) -> Option<(Nodes, Order)> {
    match node_at(m, p) {
        Some(TomlNode::Str(s)) => {
            let m1 = inline_nodes(m, p, s);
            let o1 = inline_order(o, p);
            Some(
                (
                    inserted_nodes(m1, p, "default-features"@, TomlNode::Bool(b)),
                    inserted_order(m1, o1, p, "default-features"@),
                ),
            )
        },
        Some(TomlNode::InlineTable) | Some(TomlNode::Table) => Some(
            (
                inserted_nodes(m, p, "default-features"@, TomlNode::Bool(b)),
                inserted_order(m, o, p, "default-features"@),
            ),
        ),
        _ => None,
    }
}

/// Adding feature `f` to the table at `p`: a missing `features` entry becomes an array that
/// holds `f` alone; an array gets `f` at its end unless it holds it; any other entry refuses.
pub open spec fn add_to_table(m: Nodes, o: Order, p: KeyPath, f: Seq<char>) -> Option<(Nodes, Order)> {
    let q = p.push("features"@);
    if m.contains_key(q) {
        match m[q] {
            TomlNode::Array(a) => if a.contains(Some(f)) {
                Some((m, o))
            } else {
                Some((m.insert(q, TomlNode::Array(a.push(Some(f)))), o))
            },
            _ => None,
        }
    } else {
        Some((replace_node(m, q, TomlNode::Array(seq![Some(f)])), o.insert(p, o[p].push("features"@))))
    }
}

pub open spec fn add_feature_effect(m: Nodes, o: Order, p: KeyPath, f: Seq<char>) -> Option<(Nodes, Order)> {
    match node_at(m, p) {
        Some(TomlNode::Str(s)) => add_to_table(inline_nodes(m, p, s), inline_order(o, p), p, f),
        Some(TomlNode::InlineTable) | Some(TomlNode::Table) => add_to_table(m, o, p, f),
        _ => None,
    }
}

/// Removing feature `f` from the table at `p`: a `features` array loses every `f`.
pub open spec fn remove_from_table(m: Nodes, o: Order, p: KeyPath, f: Seq<char>) -> (Nodes, Order) {
    let q = p.push("features"@);
    match node_at(m, q) {
        Some(TomlNode::Array(a)) => (m.insert(q, TomlNode::Array(a.filter(|e: Option<Seq<char>>| e != Some(f)))), o),
        _ => (m, o),
    }
}

/// Removing a feature: a version string still becomes an inline table that holds it.
pub open spec fn remove_feature_effect(m: Nodes, o: Order, p: KeyPath, f: Seq<char>) -> Option<(Nodes, Order)> {
    match node_at(m, p) {
        Some(TomlNode::Str(s)) => Some(remove_from_table(inline_nodes(m, p, s), inline_order(o, p), p, f)),
        Some(TomlNode::InlineTable) | Some(TomlNode::Table) => Some(remove_from_table(m, o, p, f)),
        _ => None,
    }
}

/// The nodes that an edit leaves, where it can be made.
pub open spec fn edited_nodes(e: Option<(Nodes, Order)>) -> Nodes {
    match e {
        Some((m, _)) => m,
        None => Map::empty(),
    }
}

/// The table that holds the features of the dependency at `p`, once the edits of adding or
/// removing a feature made it a table: the walk reaches a table there.
proof fn lemma_feature_table(m: Nodes, o: Order, p: KeyPath) -> (r: (Nodes, Order))
    requires
        p.len() > 0,
        node_at(m, p) matches Some(TomlNode::Str(_)) || is_table_like(node_at(m, p)),
    ensures
        r == match node_at(m, p) {
            Some(TomlNode::Str(s)) => (inline_nodes(m, p, s), inline_order(o, p)),
            _ => (m, o),
        },
        is_table_like(node_at(r.0, p)),
{
    match node_at(m, p) {
        Some(TomlNode::Str(s)) => {
            lemma_inline_node(m, p, s);
            (inline_nodes(m, p, s), inline_order(o, p))
        },
        _ => (m, o),
    }
}

/// A change at `q` leaves the walk to a path `p` outside `q` as it was.
proof fn lemma_change_outside(m: Nodes, q: KeyPath, n: TomlNode, p: KeyPath)
    requires
        !is_prefix(q, p),
    ensures
        node_at(m.insert(q, n), p) == node_at(m, p),
        node_at(replace_node(m, q, n), p) == node_at(m, p),
{
    assert forall|i: int| 1 <= i <= p.len() implies #[trigger] p.subrange(0, i) != q by {
        if p.subrange(0, i) == q {
            assert(p.subrange(0, q.len() as int) =~= q);
        }
    }
    lemma_node_at_agree(m, m.insert(q, n), p);
    lemma_replace_outside(m, q, n, p);
}

/// After a feature was added to the dependency at `p`, its `features` array lists it.
pub proof fn law_added_feature_is_listed(m: Nodes, o: Order, p: KeyPath, f: Seq<char>)
    requires
        p.len() > 0,
        add_feature_effect(m, o, p, f) is Some,
    ensures
        array_of(node_at(edited_nodes(add_feature_effect(m, o, p, f)), p.push("features"@))) matches Some(a) && a.contains(
            Some(f),
        ),
{
    let (m1, o1) = lemma_feature_table(m, o, p);
    let q = p.push("features"@);
    assert(q.drop_last() =~= p);
    let m2 = edited_nodes(add_feature_effect(m, o, p, f));
    if m1.contains_key(q) {
        let a = m1[q]->Array_0;
        if a.contains(Some(f)) {
            assert(node_at(m2, q) == Some(m1[q]));
        } else {
            lemma_change_outside(m1, q, TomlNode::Array(a.push(Some(f))), p);
            assert(a.push(Some(f))[a.len() as int] == Some(f));
        }
    } else {
        lemma_change_outside(m1, q, TomlNode::Array(seq![Some(f)]), p);
        assert(seq![Some(f)][0] == Some(f));
    }
}

/// Adding a feature twice leaves the dependency as adding it once: the second time finds
/// it listed and changes nothing.
pub proof fn law_adding_a_feature_twice_adds_it_once(m: Nodes, o: Order, p: KeyPath, f: Seq<char>)
    requires
        p.len() > 0,
        add_feature_effect(m, o, p, f) is Some,
    ensures
        ({
            let (m1, o1) = add_feature_effect(m, o, p, f)->0;
            add_feature_effect(m1, o1, p, f) == Some((m1, o1))
        }),
{
    let (m1, o1) = lemma_feature_table(m, o, p);
    let q = p.push("features"@);
    assert(q.drop_last() =~= p);
    assert(!is_prefix(q, p));
    let (m2, o2) = add_feature_effect(m, o, p, f)->0;
    if m1.contains_key(q) {
        let a = m1[q]->Array_0;
        if !a.contains(Some(f)) {
            lemma_change_outside(m1, q, TomlNode::Array(a.push(Some(f))), p);
            assert(a.push(Some(f))[a.len() as int] == Some(f));
        }
    } else {
        lemma_change_outside(m1, q, TomlNode::Array(seq![Some(f)]), p);
        assert(seq![Some(f)][0] == Some(f));
    }
    assert(is_table_like(node_at(m2, p)));
    assert(m2.contains_key(q));
    assert(m2[q] matches TomlNode::Array(b) && b.contains(Some(f)));
}

proof fn lemma_filter_keeps_all(a: Seq<Option<Seq<char>>>, f: Seq<char>)
    requires
        !a.contains(Some(f)),
    ensures
        a.filter(|e: Option<Seq<char>>| e != Some(f)) == a,
    decreases a.len(),
{
    reveal_with_fuel(Seq::filter, 1);
    if a.len() > 0 {
        let r = a.drop_last();
        assert(!r.contains(Some(f))) by {
            if r.contains(Some(f)) {
                let i = choose|i: int| 0 <= i < r.len() && r[i] == Some(f);
                assert(a[i] == Some(f));
            }
        }
        lemma_filter_keeps_all(r, f);
        assert(a.last() != Some(f)) by {
            if a.last() == Some(f) {
                assert(a[a.len() - 1] == Some(f));
            }
        }
        assert(r.push(a.last()) =~= a);
    }
}

/// Adding a feature that a table's `features` array does not list, then removing it,
/// gives back the dependency as it was.
pub proof fn law_remove_undoes_add(m: Nodes, o: Order, p: KeyPath, f: Seq<char>)
    requires
        p.len() > 0,
        is_table_like(node_at(m, p)),
        m.contains_key(p.push("features"@)),
        m[p.push("features"@)] matches TomlNode::Array(a) && !a.contains(Some(f)),
    ensures
        add_feature_effect(m, o, p, f) is Some,
        ({
            let (m1, o1) = add_feature_effect(m, o, p, f)->0;
            remove_feature_effect(m1, o1, p, f) == Some((m, o))
        }),
{
    let q = p.push("features"@);
    assert(q.drop_last() =~= p);
    assert(!is_prefix(q, p));
    let a = m[q]->Array_0;
    let b = a.push(Some(f));
    let m1 = m.insert(q, TomlNode::Array(b));
    lemma_change_outside(m, q, TomlNode::Array(b), p);
    assert(node_at(m1, p) == node_at(m, p));
    assert(node_at(m1, q) == Some(TomlNode::Array(b)));
    let pred = |e: Option<Seq<char>>| e != Some(f);
    lemma_filter_keeps_all(a, f);
    assert(b.filter(pred) =~= a) by {
        reveal_with_fuel(Seq::filter, 1);
        assert(b.drop_last() =~= a);
    }
    assert(m1.insert(q, TomlNode::Array(a)) =~= m);
}

/// After a feature was removed from the dependency at `p`, its `features` entry, where it
/// is an array, no longer lists it.
pub proof fn law_removed_feature_is_unlisted(m: Nodes, o: Order, p: KeyPath, f: Seq<char>)
    requires
        p.len() > 0,
        remove_feature_effect(m, o, p, f) is Some,
    ensures
        array_of(node_at(edited_nodes(remove_feature_effect(m, o, p, f)), p.push("features"@))) matches Some(a) ==> !a.contains(
            Some(f),
        ),
{
    let (m1, o1) = lemma_feature_table(m, o, p);
    let q = p.push("features"@);
    assert(q.drop_last() =~= p);
    let m2 = edited_nodes(remove_feature_effect(m, o, p, f));
    match node_at(m1, q) {
        Some(TomlNode::Array(a)) => {
            let pred = |e: Option<Seq<char>>| e != Some(f);
            let b = a.filter(pred);
            lemma_change_outside(m1, q, TomlNode::Array(b), p);
            assert(m1.contains_key(q));
            if b.contains(Some(f)) {
                let i = choose|i: int| 0 <= i < b.len() && b[i] == Some(f);
                a.lemma_filter_pred(pred, i);
            }
        },
        _ => {},
    }
}

/// The strings of an array are those of its values that are strings.
pub proof fn lemma_strings_of_contains(a: Seq<Option<Seq<char>>>, f: Seq<char>)
    ensures
        strings_of(a).contains(f) == a.contains(Some(f)),
    decreases a.len(),
{
    if a.len() > 0 {
        let r = a.drop_last();
        lemma_strings_of_contains(r, f);
        if a.contains(Some(f)) {
            let i = choose|i: int| 0 <= i < a.len() && a[i] == Some(f);
            if i < r.len() {
                assert(r[i] == Some(f));
                let j = choose|j: int| 0 <= j < strings_of(r).len() && strings_of(r)[j] == f;
                match a.last() {
                    Some(x) => assert(strings_of(a)[j] == f),
                    None => {},
                }
            } else {
                assert(strings_of(a).last() == f);
            }
        }
        if strings_of(a).contains(f) {
            let j = choose|j: int| 0 <= j < strings_of(a).len() && strings_of(a)[j] == f;
            match a.last() {
                Some(x) => {
                    if j < strings_of(r).len() {
                        assert(strings_of(r)[j] == f);
                        let i = choose|i: int| 0 <= i < r.len() && r[i] == Some(f);
                        assert(a[i] == Some(f));
                    } else {
                        assert(a[a.len() - 1] == Some(f));
                    }
                },
                None => {
                    let i = choose|i: int| 0 <= i < r.len() && r[i] == Some(f);
                    assert(a[i] == Some(f));
                },
            }
        }
    }
}

/// Adding or removing a feature keeps the dependency at `c` readable, with the features
/// that its `features` entry then lists.
pub proof fn lemma_feature_edit_keeps_dependency(m: Nodes, o: Order, c: DependencyCursorView, f: Seq<char>, add: bool)
    requires
        resolved_dependency(m, c) matches Ok(Some(_)),
        (if add {
            add_feature_effect(m, o, cursor_path(c), f)
        } else {
            remove_feature_effect(m, o, cursor_path(c), f)
        }) is Some,
    ensures
        ({
            let m2 = edited_nodes(
                if add {
                    add_feature_effect(m, o, cursor_path(c), f)
                } else {
                    remove_feature_effect(m, o, cursor_path(c), f)
                },
            );
            let q = cursor_path(c).push("features"@);
            &&& resolved_dependency(m2, c) matches Ok(Some(d2))
            &&& d2.features == match array_of(node_at(m2, q)) {
                Some(a) => Some(strings_of(a)),
                None => None,
            }
        }),
{
    let p = cursor_path(c);
    let r = p.drop_last();
    let pv = p.push("version"@);
    let q = p.push("features"@);
    reveal_strlit("features");
    reveal_strlit("version");
    assert("features"@[0] != "version"@[0]);
    assert(q[p.len() as int] != pv[p.len() as int]);
    assert(pv.drop_last() =~= p);
    assert(q.drop_last() =~= p);
    assert(!is_prefix(q, pv)) by {
        if is_prefix(q, pv) {
            assert(pv.subrange(0, q.len() as int) =~= pv);
        }
    }
    assert(!is_prefix(q, p));
    assert(!is_prefix(q, r));
    assert(!is_prefix(p, r));
    assert(!is_prefix(pv, r));
    assert(!is_prefix(pv, p));
    // The table that the edit of the features works on.
    let (m1, o1) = lemma_feature_table(m, o, p);
    match node_at(m, p) {
        Some(TomlNode::Str(s)) => {
            let mi = replace_node(m, p, TomlNode::InlineTable);
            lemma_change_outside(m, p, TomlNode::InlineTable, r);
            lemma_change_outside(mi, pv, TomlNode::Str(s), r);
            assert(node_at(m1, pv) == Some(TomlNode::Str(s)));
        },
        _ => {},
    }
    // The edit of the features entry.
    let e = if add {
        add_feature_effect(m, o, p, f)
    } else {
        remove_feature_effect(m, o, p, f)
    };
    let m2 = edited_nodes(e);
    if m2 != m1 {
        let n = m2[q];
        if m2 == m1.insert(q, n) {
            lemma_change_outside(m1, q, n, r);
            lemma_change_outside(m1, q, n, p);
            lemma_change_outside(m1, q, n, pv);
        } else {
            assert(m2 == replace_node(m1, q, n));
            lemma_change_outside(m1, q, n, r);
            lemma_change_outside(m1, q, n, p);
            lemma_change_outside(m1, q, n, pv);
        }
    }
    assert(node_at(m2, r) == node_at(m, r));
    assert(is_table_like(node_at(m2, p)));
    assert(node_at(m2, pv) == node_at(m1, pv));
}

/// Setting the version of a dependency makes it read its source from the new version text:
/// where the entry could be edited and that text can be read as a source, the dependency
/// can be read, with that source. A readable dependency can always be edited.
pub proof fn law_set_version_reads_back(m: Nodes, o: Order, c: DependencyCursorView, t: Seq<char>)
    ensures
        resolved_dependency(m, c) matches Ok(Some(_)) ==> set_version_effect(m, o, cursor_path(c), t) is Some,
        set_version_effect(m, o, cursor_path(c), t) is Some ==> (source_from_text(t) matches Some(src)
            ==> resolved_dependency(edited_nodes(set_version_effect(m, o, cursor_path(c), t)), c) matches Ok(
            Some(d2),
        ) && d2.source == src),
{
    let p = cursor_path(c);
    let r = p.drop_last();
    let pv = p.push("version"@);
    assert(pv.drop_last() =~= p);
    assert(!is_prefix(p, r));
    assert(!is_prefix(pv, r));
    assert(!is_prefix(pv, p));
    if set_version_effect(m, o, p, t) is Some {
        let m2 = edited_nodes(set_version_effect(m, o, p, t));
        match node_at(m, p) {
            Some(TomlNode::Str(_)) => {
                lemma_change_outside(m, p, TomlNode::Str(t), r);
                assert(node_at(m2, p) == Some(TomlNode::Str(t)));
            },
            _ => {
                lemma_change_outside(m, pv, TomlNode::Str(t), r);
                lemma_change_outside(m, pv, TomlNode::Str(t), p);
                assert(node_at(m2, pv) == Some(TomlNode::Str(t)));
            },
        }
    }
}

/// Whether the section that `c` names makes reading the dependency tables fail: it is there
/// but is no table, or it is a table with an entry that is no dependency.
pub open spec fn section_fails(m: Nodes, o: Order, c: TableCursorView) -> bool {
    let p = section_path(c);
    match node_at(m, p) {
        None => false,
        Some(TomlNode::Empty) => false,
        Some(TomlNode::Table) | Some(TomlNode::InlineTable) => exists|j: int|
            0 <= j < keys_at(m, o, p).len() && #[trigger] dependency_at(
                m,
                p.push(keys_at(m, o, p)[j]),
                keys_at(m, o, p)[j],
            ) is None,
        Some(_) => true,
    }
}

proof fn lemma_deps_of_none(m: Nodes, p: KeyPath, keys: Seq<Seq<char>>)
    ensures
        deps_of(m, p, keys) is None <==> exists|j: int|
            0 <= j < keys.len() && #[trigger] dependency_at(m, p.push(keys[j]), keys[j]) is None,
    decreases keys.len(),
{
    if keys.len() > 0 {
        let prev = keys.drop_last();
        lemma_deps_of_none(m, p, prev);
        assert forall|j: int| 0 <= j < prev.len() implies #[trigger] prev[j] == keys[j] by {}
        if exists|j: int| 0 <= j < prev.len() && #[trigger] dependency_at(m, p.push(prev[j]), prev[j]) is None {
            let j = choose|j: int| 0 <= j < prev.len() && #[trigger] dependency_at(m, p.push(prev[j]), prev[j]) is None;
            assert(prev[j] == keys[j]);
        }
        if exists|j: int| 0 <= j < keys.len() && #[trigger] dependency_at(m, p.push(keys[j]), keys[j]) is None {
            let j = choose|j: int| 0 <= j < keys.len() && #[trigger] dependency_at(m, p.push(keys[j]), keys[j]) is None;
            if j < prev.len() {
                assert(prev[j] == keys[j]);
            }
        }
    }
}

proof fn lemma_collect_none(m: Nodes, o: Order, cands: Seq<TableCursorView>)
    ensures
        collect_tables(m, o, cands) is None <==> exists|i: int| 0 <= i < cands.len() && #[trigger] section_fails(m, o, cands[i]),
    decreases cands.len(),
{
    if cands.len() > 0 {
        let prev = cands.drop_last();
        let c = cands.last();
        let p = section_path(c);
        lemma_collect_none(m, o, prev);
        lemma_deps_of_none(m, p, keys_at(m, o, p));
        assert forall|i: int| 0 <= i < prev.len() implies #[trigger] prev[i] == cands[i] by {}
        assert(cands[cands.len() - 1] == c);
        if collect_tables(m, o, prev) is Some {
            assert(collect_tables(m, o, cands) is None <==> section_fails(m, o, c));
        }
        if section_fails(m, o, c) {
            assert(section_fails(m, o, cands[cands.len() - 1]));
        }
        if exists|i: int| 0 <= i < prev.len() && #[trigger] section_fails(m, o, prev[i]) {
            let i = choose|i: int| 0 <= i < prev.len() && #[trigger] section_fails(m, o, prev[i]);
            assert(prev[i] == cands[i]);
        }
        if exists|i: int| 0 <= i < cands.len() && #[trigger] section_fails(m, o, cands[i]) {
            let i = choose|i: int| 0 <= i < cands.len() && #[trigger] section_fails(m, o, cands[i]);
            if i < prev.len() {
                assert(prev[i] == cands[i]);
            }
        }
    }
}

/// Reading the dependency tables fails exactly where one of the sections it reads (the
/// three sections, then those of each target) is there but is no table, or holds an entry
/// that is no dependency. A `target` entry that is no table adds no sections.
pub proof fn law_dependencies_fail_exactly_on_a_bad_section(m: Nodes, o: Order)
    ensures
        manifest_tables(m, o) is None <==> exists|i: int|
            0 <= i < table_candidates(m, o).len() && #[trigger] section_fails(m, o, table_candidates(m, o)[i]),
{
    lemma_collect_none(m, o, table_candidates(m, o));
}

/// The table that the section at cursor `c` holds, where it is a table whose entries are
/// all dependencies.
pub open spec fn section_table(m: Nodes, o: Order, c: TableCursorView, t: DependencyTableView) -> bool {
    &&& t.cursor == c
    &&& is_table_like(node_at(m, section_path(c)))
    &&& deps_of(m, section_path(c), keys_at(m, o, section_path(c))) == Some(t.deps)
}

proof fn lemma_collect_some(m: Nodes, o: Order, cands: Seq<TableCursorView>)
    requires
        collect_tables(m, o, cands) is Some,
    ensures
        ({
            let ts = collect_tables(m, o, cands)->0;
            &&& forall|i: int|
                0 <= i < ts.len() ==> exists|j: int| 0 <= j < cands.len() && section_table(m, o, cands[j], #[trigger] ts[i])
            &&& forall|j: int|
                0 <= j < cands.len() && is_table_like(node_at(m, section_path(#[trigger] cands[j]))) ==> exists|i: int|
                    0 <= i < ts.len() && ts[i].cursor == cands[j]
        }),
    decreases cands.len(),
{
    if cands.len() > 0 {
        let prev = cands.drop_last();
        let n = cands.len() - 1;
        let c = cands.last();
        let p = section_path(c);
        lemma_collect_some(m, o, prev);
        let ps = collect_tables(m, o, prev)->0;
        let ts = collect_tables(m, o, cands)->0;
        assert forall|j: int| 0 <= j < prev.len() implies #[trigger] prev[j] == cands[j] by {}
        assert(cands[n] == c);
        assert forall|i: int| 0 <= i < ps.len() implies #[trigger] ts[i] == ps[i] by {}
        assert forall|i: int| 0 <= i < ts.len() implies exists|j: int|
            0 <= j < cands.len() && section_table(m, o, cands[j], #[trigger] ts[i]) by {
            if i < ps.len() {
                assert(ts[i] == ps[i]);
                let j = choose|j: int| 0 <= j < prev.len() && section_table(m, o, prev[j], ps[i]);
                assert(prev[j] == cands[j]);
            } else {
                assert(section_table(m, o, cands[n], ts[i]));
            }
        }
        assert forall|j: int| 0 <= j < cands.len() && is_table_like(node_at(m, section_path(#[trigger] cands[j]))) implies exists|i: int|
            0 <= i < ts.len() && ts[i].cursor == cands[j] by {
            if j < prev.len() {
                assert(prev[j] == cands[j]);
                assert(is_table_like(node_at(m, section_path(prev[j]))));
                let i = choose|i: int| 0 <= i < ps.len() && ps[i].cursor == prev[j];
                assert(ts[i] == ps[i]);
            } else {
                assert(ts[ps.len() as int].cursor == c);
            }
        }
    }
}

/// Where the dependency tables can be read, they are the sections that are tables: each
/// table read is one of the sections (the three sections, then those of each target), a
/// table, with the dependencies that its entries give in order; and each section that is a
/// table is read.
pub proof fn law_dependency_tables_are_the_table_sections(m: Nodes, o: Order)
    requires
        manifest_tables(m, o) is Some,
    ensures
        ({
            let ts = manifest_tables(m, o)->0;
            let cs = table_candidates(m, o);
            &&& forall|i: int|
                0 <= i < ts.len() ==> exists|j: int| 0 <= j < cs.len() && section_table(m, o, cs[j], #[trigger] ts[i])
            &&& forall|j: int|
                0 <= j < cs.len() && is_table_like(node_at(m, section_path(#[trigger] cs[j]))) ==> exists|i: int|
                    0 <= i < ts.len() && ts[i].cursor == cs[j]
        }),
{
    lemma_collect_some(m, o, table_candidates(m, o));
}

/// Each table that reading the dependency tables looks at lists each key once: `target`,
/// and each section that it reads.
pub open spec fn keys_read_distinct(m: Nodes, o: Order) -> bool {
    &&& keys_at(m, o, seq!["target"@]).no_duplicates()
    &&& forall|j: int|
        0 <= j < table_candidates(m, o).len() ==> (#[trigger] keys_at(
            m,
            o,
            section_path(table_candidates(m, o)[j]),
        )).no_duplicates()
}

/// No two tables have the same cursor, and no two dependencies of a table the same name.
pub open spec fn tables_distinct(ts: Seq<DependencyTableView>) -> bool {
    &&& forall|i: int, j: int| 0 <= i < j < ts.len() ==> #[trigger] ts[i].cursor != #[trigger] ts[j].cursor
    &&& forall|i: int, a: int, b: int|
        0 <= i < ts.len() && 0 <= a < b < ts[i].deps.len() ==> #[trigger] ts[i].deps[a].name != #[trigger] ts[i].deps[b].name
}

proof fn lemma_target_cursors(targets: Seq<Seq<char>>)
    ensures
        target_cursors(targets).len() == 3 * targets.len(),
        forall|i: int|
            0 <= i < target_cursors(targets).len() ==> (#[trigger] target_cursors(targets)[i]).target is Some
                && targets.contains(target_cursors(targets)[i].target->0),
        targets.no_duplicates() ==> forall|i: int, j: int|
            0 <= i < j < target_cursors(targets).len() ==> #[trigger] target_cursors(targets)[i]
                != #[trigger] target_cursors(targets)[j],
    decreases targets.len(),
{
    if targets.len() > 0 {
        let prev = targets.drop_last();
        let t = targets.last();
        lemma_target_cursors(prev);
        let a = target_cursors(prev);
        let k = kind_cursors(Some(t));
        let c = target_cursors(targets);
        assert(c == a + k);
        assert forall|i: int| 0 <= i < prev.len() implies #[trigger] prev[i] == targets[i] by {}
        assert forall|i: int| 0 <= i < c.len() implies (#[trigger] c[i]).target is Some && targets.contains(c[i].target->0) by {
            if i < a.len() {
                assert(c[i] == a[i]);
                let x = a[i].target->0;
                assert(prev.contains(x));
                let j = choose|j: int| 0 <= j < prev.len() && prev[j] == x;
                assert(targets[j] == x);
            } else {
                assert(c[i] == k[i - a.len()]);
                assert(targets[targets.len() - 1] == t);
            }
        }
        if targets.no_duplicates() {
            assert(!prev.contains(t)) by {
                if prev.contains(t) {
                    let j = choose|j: int| 0 <= j < prev.len() && prev[j] == t;
                    assert(targets[j] == targets[targets.len() - 1]);
                }
            }
            assert(prev.no_duplicates()) by {
                assert forall|i: int, j: int| 0 <= i < prev.len() && 0 <= j < prev.len() && i != j implies prev[i]
                    != prev[j] by {
                    assert(prev[i] == targets[i] && prev[j] == targets[j]);
                }
            }
            assert forall|i: int, j: int| 0 <= i < j < c.len() implies #[trigger] c[i] != #[trigger] c[j] by {
                if j < a.len() {
                    assert(c[i] == a[i] && c[j] == a[j]);
                } else if i < a.len() {
                    assert(c[i] == a[i] && c[j] == k[j - a.len()]);
                    assert(a[i].target is Some && prev.contains(a[i].target->0));
                } else {
                    assert(c[i] == k[i - a.len()] && c[j] == k[j - a.len()]);
                }
            }
        }
    }
}

proof fn lemma_candidates_distinct(m: Nodes, o: Order)
    requires
        keys_at(m, o, seq!["target"@]).no_duplicates(),
    ensures
        forall|i: int, j: int|
            0 <= i < j < table_candidates(m, o).len() ==> #[trigger] table_candidates(m, o)[i]
                != #[trigger] table_candidates(m, o)[j],
{
    let targets = keys_at(m, o, seq!["target"@]);
    lemma_target_cursors(targets);
    let k = kind_cursors(None);
    let t = target_cursors(targets);
    let c = table_candidates(m, o);
    assert(c == k + t);
    assert forall|i: int, j: int| 0 <= i < j < c.len() implies #[trigger] c[i] != #[trigger] c[j] by {
        if j < 3 {
            assert(c[i] == k[i] && c[j] == k[j]);
        } else if i < 3 {
            assert(c[i] == k[i] && c[j] == t[j - 3]);
            assert(t[j - 3].target is Some);
        } else {
            assert(c[i] == t[i - 3] && c[j] == t[j - 3]);
        }
    }
}

proof fn lemma_deps_of_names(m: Nodes, p: KeyPath, keys: Seq<Seq<char>>)
    requires
        deps_of(m, p, keys) is Some,
    ensures
        deps_of(m, p, keys)->0.len() == keys.len(),
        forall|i: int| 0 <= i < keys.len() ==> (#[trigger] deps_of(m, p, keys)->0[i]).name == keys[i],
        forall|i: int|
            0 <= i < keys.len() ==> dependency_at(m, p.push(keys[i]), keys[i]) == Some(
                #[trigger] deps_of(m, p, keys)->0[i],
            ),
    decreases keys.len(),
{
    if keys.len() > 0 {
        let prev = keys.drop_last();
        lemma_deps_of_names(m, p, prev);
        let ds = deps_of(m, p, keys)->0;
        assert forall|i: int| 0 <= i < keys.len() implies (#[trigger] ds[i]).name == keys[i] && dependency_at(
            m,
            p.push(keys[i]),
            keys[i],
        ) == Some(ds[i]) by {
            if i < prev.len() {
                assert(ds[i] == deps_of(m, p, prev)->0[i]);
                assert(prev[i] == keys[i]);
            }
        }
    }
}

proof fn lemma_collect_distinct(m: Nodes, o: Order, cands: Seq<TableCursorView>)
    requires
        collect_tables(m, o, cands) is Some,
        forall|i: int, j: int| 0 <= i < j < cands.len() ==> #[trigger] cands[i] != #[trigger] cands[j],
        forall|j: int| 0 <= j < cands.len() ==> (#[trigger] keys_at(m, o, section_path(cands[j]))).no_duplicates(),
    ensures
        tables_distinct(collect_tables(m, o, cands)->0),
        forall|i: int|
            0 <= i < collect_tables(m, o, cands)->0.len() ==> cands.contains(
                (#[trigger] collect_tables(m, o, cands)->0[i]).cursor,
            ),
    decreases cands.len(),
{
    if cands.len() > 0 {
        let prev = cands.drop_last();
        let n = cands.len() - 1;
        let c = cands.last();
        let p = section_path(c);
        assert forall|j: int| 0 <= j < prev.len() implies #[trigger] prev[j] == cands[j] by {}
        assert forall|j: int| 0 <= j < prev.len() implies (#[trigger] keys_at(m, o, section_path(prev[j]))).no_duplicates() by {
            assert(prev[j] == cands[j]);
        }
        lemma_collect_distinct(m, o, prev);
        let ps = collect_tables(m, o, prev)->0;
        let ts = collect_tables(m, o, cands)->0;
        assert(cands[n] == c);
        if ts.len() == ps.len() {
            assert(ts == ps);
            assert forall|i: int| 0 <= i < ts.len() implies cands.contains((#[trigger] ts[i]).cursor) by {
                let j = choose|j: int| 0 <= j < prev.len() && prev[j] == ps[i].cursor;
                assert(cands[j] == prev[j]);
            }
        } else {
            let keys = keys_at(m, o, p);
            assert(keys == keys_at(m, o, section_path(cands[n])));
            lemma_deps_of_names(m, p, keys);
            let last = ts[ps.len() as int];
            assert(last.cursor == c);
            assert(last.deps == deps_of(m, p, keys)->0);
            assert forall|i: int| 0 <= i < ps.len() implies #[trigger] ts[i] == ps[i] by {}
            assert(!prev.contains(c)) by {
                if prev.contains(c) {
                    let j = choose|j: int| 0 <= j < prev.len() && prev[j] == c;
                    assert(cands[j] == cands[n]);
                }
            }
            assert forall|i: int| 0 <= i < ts.len() implies cands.contains((#[trigger] ts[i]).cursor) by {
                if i < ps.len() {
                    let j = choose|j: int| 0 <= j < prev.len() && prev[j] == ps[i].cursor;
                    assert(cands[j] == prev[j]);
                } else {
                    assert(cands[n] == c);
                }
            }
            assert forall|i: int, j: int| 0 <= i < j < ts.len() implies #[trigger] ts[i].cursor != #[trigger] ts[j].cursor by {
                if j < ps.len() {
                    assert(ts[i] == ps[i] && ts[j] == ps[j]);
                } else {
                    assert(ts[i] == ps[i]);
                    assert(prev.contains(ps[i].cursor));
                }
            }
            assert forall|i: int, a: int, b: int|
                0 <= i < ts.len() && 0 <= a < b < ts[i].deps.len() implies #[trigger] ts[i].deps[a].name
                != #[trigger] ts[i].deps[b].name by {
                if i < ps.len() {
                    assert(ts[i] == ps[i]);
                } else {
                    assert(ts[i].deps[a].name == keys[a] && ts[i].deps[b].name == keys[b]);
                }
            }
        }
    }
}

/// Every dependency listed in a table that is no target's can be looked up again by its
/// table and name, and reads the same. (A cursor names a target's table by the one key
/// `target.<target>.<section>`, which the listing does not read.)
pub proof fn law_listed_dependencies_resolve(m: Nodes, o: Order, i: int, k: int)
    requires
        manifest_tables(m, o) is Some,
        0 <= i < manifest_tables(m, o)->0.len(),
        manifest_tables(m, o)->0[i].cursor.target is None,
        0 <= k < manifest_tables(m, o)->0[i].deps.len(),
    ensures
        ({
            let t = manifest_tables(m, o)->0[i];
            resolved_dependency(m, DependencyCursorView { table: t.cursor, name: t.deps[k].name }) == Ok::<
                Option<DependencyView>,
                DependencyParseError,
            >(Some(t.deps[k]))
        }),
{
    let ts = manifest_tables(m, o)->0;
    let cs = table_candidates(m, o);
    lemma_collect_some(m, o, cs);
    let t = ts[i];
    let j = choose|j: int| 0 <= j < cs.len() && section_table(m, o, cs[j], ts[i]);
    let sp = section_path(t.cursor);
    let keys = keys_at(m, o, sp);
    lemma_deps_of_names(m, sp, keys);
    let d = t.deps[k];
    assert(d.name == keys[k]);
    let c = DependencyCursorView { table: t.cursor, name: d.name };
    assert(cursor_path(c) =~= sp.push(keys[k]));
    assert(cursor_path(c).drop_last() =~= sp);
    assert(dependency_at(m, sp.push(keys[k]), keys[k]) == Some(d));
}

/// Where each table that the reading looks at lists each key once, as the tables of a TOML
/// document do, the dependency tables read are all different, and so are the names of the
/// dependencies of each.
pub proof fn law_dependency_tables_are_distinct(m: Nodes, o: Order)
    requires
        keys_read_distinct(m, o),
        manifest_tables(m, o) is Some,
    ensures
        tables_distinct(manifest_tables(m, o)->0),
{
    lemma_candidates_distinct(m, o);
    lemma_collect_distinct(m, o, table_candidates(m, o));
}

/// Two different keys under the same table: the path to one does not lead through the
/// other.
proof fn lemma_sibling_keys(p: KeyPath, a: Seq<char>, b: Seq<char>)
    requires
        a != b,
    ensures
        !is_prefix(p.push(a), p.push(b)),
{
    if is_prefix(p.push(a), p.push(b)) {
        assert(p.push(b).subrange(0, p.push(a).len() as int) =~= p.push(b));
        assert(p.push(a)[p.len() as int] == a);
        assert(p.push(b)[p.len() as int] == b);
    }
}

/// Setting the version of a readable dependency changes its source alone: where the new
/// version text reads as a source, the dependency reads back with that source, and with
/// its name, default features, package and features as they were.
pub proof fn law_set_version_keeps_the_rest(m: Nodes, o: Order, c: DependencyCursorView, t: Seq<char>)
    requires
        resolved_dependency(m, c) is Ok,
        resolved_dependency(m, c)->Ok_0 is Some,
        source_from_text(t) is Some,
    ensures
        set_version_effect(m, o, cursor_path(c), t) is Some,
        resolved_dependency(edited_nodes(set_version_effect(m, o, cursor_path(c), t)), c) == Ok::<
            Option<DependencyView>,
            DependencyParseError,
        >(Some(DependencyView { source: source_from_text(t)->0, ..resolved_dependency(m, c)->Ok_0->0 })),
{
    law_set_version_reads_back(m, o, c, t);
    let p = cursor_path(c);
    let r = p.drop_last();
    let pv = p.push("version"@);
    let m2 = edited_nodes(set_version_effect(m, o, p, t));
    assert(pv.drop_last() =~= p);
    assert(!is_prefix(p, r));
    assert(!is_prefix(pv, r));
    assert(!is_prefix(pv, p));
    match node_at(m, p) {
        Some(TomlNode::Str(_)) => {
            lemma_change_outside(m, p, TomlNode::Str(t), r);
        },
        _ => {
            reveal_strlit("version");
            reveal_strlit("package");
            reveal_strlit("features");
            reveal_strlit("default-features");
            assert("version"@[0] != "package"@[0]);
            assert("version"@[0] != "features"@[0]);
            assert("version"@[0] != "default-features"@[0]);
            lemma_sibling_keys(p, "version"@, "package"@);
            lemma_sibling_keys(p, "version"@, "features"@);
            lemma_sibling_keys(p, "version"@, "default-features"@);
            lemma_change_outside(m, pv, TomlNode::Str(t), r);
            lemma_change_outside(m, pv, TomlNode::Str(t), p);
            lemma_change_outside(m, pv, TomlNode::Str(t), p.push("package"@));
            lemma_change_outside(m, pv, TomlNode::Str(t), p.push("features"@));
            lemma_change_outside(m, pv, TomlNode::Str(t), p.push("default-features"@));
            assert(node_at(m2, pv) == Some(TomlNode::Str(t)));
        },
    }
}

/// An entry that is neither a version string nor a table cannot take a version: the edit
/// is refused, and the manifest stays as it was.
pub proof fn law_set_version_refuses(m: Nodes, o: Order, p: KeyPath, t: Seq<char>)
    requires
        !(node_at(m, p) matches Some(TomlNode::Str(_))),
        node_at(m, p) != Some(TomlNode::InlineTable),
        node_at(m, p) != Some(TomlNode::Table),
    ensures
        set_version_effect(m, o, p, t) is None,
{
}

/// Turning the default features of a readable dependency on or off makes it read them as
/// set, and it stays readable.
pub proof fn law_default_features_read_back(m: Nodes, o: Order, c: DependencyCursorView, b: bool)
    requires
        resolved_dependency(m, c) matches Ok(Some(_)),
    ensures
        set_default_features_effect(m, o, cursor_path(c), b) is Some,
        resolved_dependency(edited_nodes(set_default_features_effect(m, o, cursor_path(c), b)), c) matches Ok(
            Some(d2),
        ) && d2.default_features == b,
{
    let p = cursor_path(c);
    let r = p.drop_last();
    let pv = p.push("version"@);
    let pd = p.push("default-features"@);
    reveal_strlit("default-features");
    reveal_strlit("version");
    assert("default-features"@[0] != "version"@[0]);
    assert(pd[p.len() as int] != pv[p.len() as int]);
    assert(pv.drop_last() =~= p);
    assert(pd.drop_last() =~= p);
    assert(!is_prefix(pd, pv)) by {
        if is_prefix(pd, pv) {
            assert(pv.subrange(0, pd.len() as int) =~= pv);
        }
    }
    assert(!is_prefix(p, r));
    assert(!is_prefix(pv, r));
    assert(!is_prefix(pd, r));
    assert(!is_prefix(pd, p));
    let (m1, o1) = lemma_feature_table(m, o, p);
    match node_at(m, p) {
        Some(TomlNode::Str(s)) => {
            let mi = replace_node(m, p, TomlNode::InlineTable);
            lemma_change_outside(m, p, TomlNode::InlineTable, r);
            lemma_change_outside(mi, pv, TomlNode::Str(s), r);
            assert(node_at(m1, pv) == Some(TomlNode::Str(s)));
        },
        _ => {},
    }
    let m2 = edited_nodes(set_default_features_effect(m, o, p, b));
    assert(m2 == replace_node(m1, pd, TomlNode::Bool(b)));
    lemma_change_outside(m1, pd, TomlNode::Bool(b), r);
    lemma_change_outside(m1, pd, TomlNode::Bool(b), p);
    lemma_change_outside(m1, pd, TomlNode::Bool(b), pv);
    assert(node_at(m2, pd) == Some(TomlNode::Bool(b)));
}

/// Turning the default features of a readable dependency on or off changes them alone: it
/// reads back with its name, source, package and features as they were.
pub proof fn law_default_features_keep_the_rest(m: Nodes, o: Order, c: DependencyCursorView, b: bool)
    requires
        resolved_dependency(m, c) is Ok,
        resolved_dependency(m, c)->Ok_0 is Some,
    ensures
        resolved_dependency(edited_nodes(set_default_features_effect(m, o, cursor_path(c), b)), c) == Ok::<
            Option<DependencyView>,
            DependencyParseError,
        >(Some(DependencyView { default_features: b, ..resolved_dependency(m, c)->Ok_0->0 })),
{
    law_default_features_read_back(m, o, c, b);
    let p = cursor_path(c);
    let r = p.drop_last();
    let pv = p.push("version"@);
    let pd = p.push("default-features"@);
    let pp = p.push("package"@);
    let pf = p.push("features"@);
    reveal_strlit("default-features");
    reveal_strlit("version");
    reveal_strlit("package");
    reveal_strlit("features");
    assert("default-features"@[0] != "package"@[0]);
    assert("default-features"@[0] != "features"@[0]);
    assert("default-features"@ != "features"@) by {
        assert("default-features"@.len() != "features"@.len());
    }
    lemma_sibling_keys(p, "default-features"@, "package"@);
    lemma_sibling_keys(p, "default-features"@, "features"@);
    assert(pp.drop_last() =~= p);
    assert(pf.drop_last() =~= p);
    assert(pd.drop_last() =~= p);
    let (m1, o1) = lemma_feature_table(m, o, p);
    let m2 = edited_nodes(set_default_features_effect(m, o, p, b));
    assert(m2 == replace_node(m1, pd, TomlNode::Bool(b)));
    lemma_change_outside(m1, pd, TomlNode::Bool(b), pp);
    lemma_change_outside(m1, pd, TomlNode::Bool(b), pf);
    lemma_change_outside(m1, pd, TomlNode::Bool(b), p);
    match node_at(m, p) {
        Some(TomlNode::Str(s)) => {
            assert(is_prefix(p, pp) && pp != p);
            assert(is_prefix(p, pf) && pf != p);
            assert(pp != pv) by {
                assert(pp[p.len() as int] != pv[p.len() as int]);
            }
            assert(pf != pv) by {
                assert(pf[p.len() as int] != pv[p.len() as int]);
            }
            assert(!m1.contains_key(pp));
            assert(!m1.contains_key(pf));
            assert(node_at(m1, pp) is None);
            assert(node_at(m1, pf) is None);
        },
        _ => {},
    }
}

/// Two node maps that agree on every prefix of `q` reach the same node at `q`.
pub proof fn lemma_node_at_agree(m1: Nodes, m2: Nodes, q: KeyPath)
    requires
        forall|i: int|
            1 <= i <= q.len() ==> #[trigger] m1.contains_key(q.subrange(0, i)) == m2.contains_key(q.subrange(0, i)),
        forall|i: int|
            1 <= i <= q.len() && m1.contains_key(q.subrange(0, i)) ==> #[trigger] m1[q.subrange(0, i)] == m2[q.subrange(
                0,
                i,
            )],
    ensures
        node_at(m1, q) == node_at(m2, q),
    decreases q.len(),
{
    if q.len() > 0 {
        let r = q.drop_last();
        assert forall|i: int| 1 <= i <= r.len() implies #[trigger] r.subrange(0, i) == q.subrange(0, i) by {
            assert(r.subrange(0, i) =~= q.subrange(0, i));
        }
        assert forall|i: int| 1 <= i <= r.len() implies #[trigger] m1.contains_key(r.subrange(0, i))
            == m2.contains_key(r.subrange(0, i)) by {
            assert(r.subrange(0, i) == q.subrange(0, i));
        }
        assert forall|i: int| 1 <= i <= r.len() && m1.contains_key(r.subrange(0, i)) implies #[trigger] m1[r.subrange(
            0,
            i,
        )] == m2[r.subrange(0, i)] by {
            assert(r.subrange(0, i) == q.subrange(0, i));
        }
        lemma_node_at_agree(m1, m2, r);
        assert(q.subrange(0, q.len() as int) =~= q);
    }
}

/// Replacing the node at `p` leaves the walk to any path outside `p` as it was.
pub proof fn lemma_replace_outside(m: Nodes, p: KeyPath, n: TomlNode, q: KeyPath)
    requires
        !is_prefix(p, q),
    ensures
        node_at(replace_node(m, p, n), q) == node_at(m, q),
{
    let m2 = replace_node(m, p, n);
    assert forall|i: int| 1 <= i <= q.len() implies !is_prefix(p, #[trigger] q.subrange(0, i)) && q.subrange(0, i)
        != p by {
        if is_prefix(p, q.subrange(0, i)) {
            assert(q.subrange(0, i).subrange(0, p.len() as int) =~= q.subrange(0, p.len() as int));
        }
    }
    lemma_node_at_agree(m2, m, q);
}

/// After a string at `p` became an inline table, the walk to `p` finds that table.
proof fn lemma_inline_node(m: Nodes, p: KeyPath, s: Seq<char>)
    requires
        p.len() > 0,
        node_at(m, p) == Some(TomlNode::Str(s)),
    ensures
        node_at(inline_nodes(m, p, s), p) == Some(TomlNode::InlineTable),
        !inline_nodes(m, p, s).contains_key(p.push("features"@)),
{
    let m1 = replace_node(m, p, TomlNode::InlineTable);
    let v = p.push("version"@);
    let r = p.drop_last();
    assert(!is_prefix(p, r));
    lemma_replace_outside(m, p, TomlNode::InlineTable, r);
    assert forall|i: int| 1 <= i <= r.len() implies #[trigger] m1.contains_key(r.subrange(0, i)) == inline_nodes(
        m,
        p,
        s,
    ).contains_key(r.subrange(0, i)) && (m1.contains_key(r.subrange(0, i)) ==> m1[r.subrange(0, i)]
        == inline_nodes(m, p, s)[r.subrange(0, i)]) by {
        assert(r.subrange(0, i).len() < v.len());
    }
    lemma_node_at_agree(m1, inline_nodes(m, p, s), r);
    assert(v != p);
    reveal_strlit("features");
    reveal_strlit("version");
    let f = p.push("features"@);
    assert("features"@[0] != "version"@[0]);
    assert(f[p.len() as int] != v[p.len() as int]);
    assert(f != v);
    assert(f.subrange(0, p.len() as int) =~= p);
    assert(is_prefix(p, f));
    assert(f != p);
}

fn array_contains(values: &Vec<Option<String>>, f: &str) -> (r: bool)
    ensures
        r == opt_views(values@).contains(Some(f@)),
{
    let mut i: usize = 0;
    while i < values.len()
        invariant
            i <= values.len(),
            forall|j: int| 0 <= j < i ==> opt_views(values@)[j] != Some(f@),
        decreases values.len() - i,
    {
        match &values[i] {
            Some(v) => {
                if crate::text::str_eq(v.as_str(), f) {
                    assert(opt_views(values@)[i as int] == Some(f@));
                    return true;
                }
            },
            None => {},
        }
        i = i + 1;
    }
    false
}

impl MutableDependency {
    /// Sets the dependency's version.
    pub fn set_version(&self, manifest: &mut Manifest, version: &VersionType) -> (r: Result<(), DependencyUpdateError>)
        ensures
            final(manifest).path_spec() == old(manifest).path_spec(),
            match set_version_effect(old(manifest).nodes(), old(manifest).order(), self@, version_type_text(version@)) {
                Some((m, o)) => r is Ok && final(manifest).nodes() == m && final(manifest).order() == o,
                None => r matches Err(DependencyUpdateError::Unsupported) && final(manifest).nodes() == old(
                    manifest,
                ).nodes() && final(manifest).order() == old(manifest).order(),
            },
    {
        let p = self.path();
        let text = version.to_text();
        match node_kind(&manifest.data, p) {
            NodeKind::Str => {
                set_str(&mut manifest.data, p, text.as_str());
                Ok(())
            },
            NodeKind::InlineTable | NodeKind::Table => {
                insert_str(&mut manifest.data, p, "version", text.as_str());
                Ok(())
            },
            _ => Err(DependencyUpdateError::Unsupported),
        }
    }

    /// Turns the dependency's default features on or off.
    pub fn set_default_features(&self, manifest: &mut Manifest, default: bool) -> (r: Result<(), DependencyUpdateError>)
        ensures
            final(manifest).path_spec() == old(manifest).path_spec(),
            match set_default_features_effect(old(manifest).nodes(), old(manifest).order(), self@, default) {
                Some((m, o)) => r is Ok && final(manifest).nodes() == m && final(manifest).order() == o,
                None => r matches Err(DependencyUpdateError::Unsupported) && final(manifest).nodes() == old(
                    manifest,
                ).nodes() && final(manifest).order() == old(manifest).order(),
            },
    {
        let p = self.path();
        match node_kind(&manifest.data, p) {
            NodeKind::Str => {
                str_to_inline_table(&mut manifest.data, p, "version");
                insert_bool(&mut manifest.data, p, "default-features", default);
                Ok(())
            },
            NodeKind::InlineTable | NodeKind::Table => {
                insert_bool(&mut manifest.data, p, "default-features", default);
                Ok(())
            },
            _ => Err(DependencyUpdateError::Unsupported),
        }
    }

    /// Adds the feature to the features that the dependency enables, where it is not there yet.
    fn add_to_features(manifest: &mut Manifest, p: &Vec<String>, feature: &str) -> (r: Result<(), DependencyUpdateError>)
        requires
            is_table_like(node_at(old(manifest).nodes(), path_view(p@))),
        ensures
            final(manifest).path_spec() == old(manifest).path_spec(),
            match add_to_table(old(manifest).nodes(), old(manifest).order(), path_view(p@), feature@) {
                Some((m, o)) => r is Ok && final(manifest).nodes() == m && final(manifest).order() == o,
                None => r matches Err(DependencyUpdateError::Unsupported) && final(manifest).nodes() == old(
                    manifest,
                ).nodes() && final(manifest).order() == old(manifest).order(),
            },
    {
        let ghost m = old(manifest).nodes();
        let ghost pv = path_view(p@);
        let ghost q = pv.push("features"@);
        let is_array = ensure_array(&mut manifest.data, p, "features");
        if !is_array {
            return Err(DependencyUpdateError::Unsupported);
        }
        let fp = {
            let mut fp = p.clone();
            fp.push(String::from_str("features"));
            proof {
                assert(path_view(fp@) =~= q);
            }
            fp
        };
        let ghost m2 = manifest.nodes();
        proof {
            assert(q.drop_last() =~= pv);
            lemma_replace_outside(m, q, TomlNode::Array(Seq::empty()), pv);
            if m.contains_key(q) {
                assert(m2 == m);
            }
            assert(node_at(m2, q) == Some(m2[q]));
        }
        let values = node_array(&manifest.data, &fp);
        let values = match values {
            Some(v) => v,
            None => {
                return Err(DependencyUpdateError::Unsupported);
            },
        };
        if !array_contains(&values, feature) {
            array_push(&mut manifest.data, &fp, feature);
            proof {
                if !m.contains_key(q) {
                    assert(manifest.nodes() =~= replace_node(m, q, TomlNode::Array(seq![Some(feature@)])));
                }
            }
        }
        Ok(())
    }

    /// Adds a feature to those the dependency enables.
    pub fn add_feature(&self, manifest: &mut Manifest, feature: &str) -> (r: Result<(), DependencyUpdateError>)
        ensures
            final(manifest).path_spec() == old(manifest).path_spec(),
            match add_feature_effect(old(manifest).nodes(), old(manifest).order(), self@, feature@) {
                Some((m, o)) => r is Ok && final(manifest).nodes() == m && final(manifest).order() == o,
                None => r matches Err(DependencyUpdateError::Unsupported) && final(manifest).nodes() == old(
                    manifest,
                ).nodes() && final(manifest).order() == old(manifest).order(),
            },
    {
        let p = self.path();
        match node_kind(&manifest.data, p) {
            NodeKind::Str => {
                let ghost m = manifest.nodes();
                str_to_inline_table(&mut manifest.data, p, "version");
                proof {
                    let s = crate::toml::str_of(node_at(m, path_view(p@)))->0;
                    lemma_inline_node(m, path_view(p@), s);
                }
                MutableDependency::add_to_features(manifest, p, feature)
            },
            NodeKind::InlineTable | NodeKind::Table => MutableDependency::add_to_features(manifest, p, feature),
            _ => Err(DependencyUpdateError::Unsupported),
        }
    }

    /// Removes a feature from those the dependency enables.
    pub fn remove_feature(&self, manifest: &mut Manifest, feature: &str) -> (r: Result<(), DependencyUpdateError>)
        ensures
            final(manifest).path_spec() == old(manifest).path_spec(),
            match remove_feature_effect(old(manifest).nodes(), old(manifest).order(), self@, feature@) {
                Some((m, o)) => r is Ok && final(manifest).nodes() == m && final(manifest).order() == o,
                None => r matches Err(DependencyUpdateError::Unsupported) && final(manifest).nodes() == old(
                    manifest,
                ).nodes() && final(manifest).order() == old(manifest).order(),
            },
    {
        let p = self.path();
        let mut fp = p.clone();
        fp.push(String::from_str("features"));
        proof {
            assert(path_view(fp@) =~= path_view(p@).push("features"@));
        }
        match node_kind(&manifest.data, p) {
            NodeKind::Str => {
                str_to_inline_table(&mut manifest.data, p, "version");
                array_remove(&mut manifest.data, &fp, feature);
                Ok(())
            },
            NodeKind::InlineTable | NodeKind::Table => {
                array_remove(&mut manifest.data, &fp, feature);
                Ok(())
            },
            _ => Err(DependencyUpdateError::Unsupported),
        }
    }
}

} // verus!
