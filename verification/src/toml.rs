//! A model of an editable TOML document, over which the manifest logic is stated.
//!
//! The document itself stays a `toml_edit::DocumentMut`, so that edits keep the
//! layout and comments of the file.  Its contents are described by two names:
//! `toml_nodes`, the node stored at every key path, and `toml_order`, the order
//! of the keys of every table.  The functions of this module are the only place
//! where the document is read or written.

use vstd::prelude::*;

use toml_edit::{Array, DocumentMut, InlineTable, Item, Value};

verus! {

#[verifier::external_type_specification]
#[verifier::external_body]
pub struct ExDocumentMut(DocumentMut);

/// What is stored at one key path of a TOML document.
///
/// `Empty` is a placeholder entry of a table (`Item::None`); an array holds, for
/// each of its values, the string it holds if it is a string.
pub enum TomlNode {
    Empty,
    Str(Seq<char>),
    Bool(bool),
    Array(Seq<Option<Seq<char>>>),
    OtherValue,
    InlineTable,
    Table,
    ArrayOfTables,
}

/// The kind of the node at a key path, as the manifest logic tells them apart.
#[derive(Debug, Clone, Copy, PartialEq, Eq, Structural)]
pub enum NodeKind {
    Missing,
    Empty,
    Str,
    InlineTable,
    Table,
    Other,
}

pub type KeyPath = Seq<Seq<char>>;

/// The nodes of a document: every entry of every table and inline table, by its key path.
pub uninterp spec fn toml_nodes(d: DocumentMut) -> Map<KeyPath, TomlNode>;

/// The order of the entries of every table and inline table of a document, by its key path.
pub uninterp spec fn toml_order(d: DocumentMut) -> Map<KeyPath, Seq<Seq<char>>>;

/// The pair of names that a parse of `text` gives its document, or `None` where
/// the text is no TOML document.
pub uninterp spec fn parsed_toml(text: Seq<char>) -> Option<(Map<KeyPath, TomlNode>, Map<KeyPath, Seq<Seq<char>>>)>;

pub open spec fn path_view(p: Seq<String>) -> KeyPath {
    p.map_values(|k: String| k@)
}

pub open spec fn opt_view(s: Option<String>) -> Option<Seq<char>> {
    match s {
        Some(s) => Some(s@),
        None => None,
    }
}

pub open spec fn opt_views(v: Seq<Option<String>>) -> Seq<Option<Seq<char>>> {
    v.map_values(|e: Option<String>| opt_view(e))
}

pub open spec fn is_table_like(n: Option<TomlNode>) -> bool {
    n == Some(TomlNode::Table) || n == Some(TomlNode::InlineTable)
}

/// The node that a walk from the root reaches, stepping into each key of `p` the way
/// `TableLike::get` does: a table hides its placeholder entries, an inline table does not.
pub open spec fn node_at(m: Map<KeyPath, TomlNode>, p: KeyPath) -> Option<TomlNode>
    decreases p.len(),
{
    if p.len() == 0 {
        Some(TomlNode::Table)
    } else {
        match node_at(m, p.drop_last()) {
            Some(TomlNode::Table) => if m.contains_key(p) && m[p] != TomlNode::Empty {
                Some(m[p])
            } else {
                None
            },
            Some(TomlNode::InlineTable) => if m.contains_key(p) {
                Some(m[p])
            } else {
                None
            },
            _ => None,
        }
    }
}

pub open spec fn kind_of(n: Option<TomlNode>) -> NodeKind {
    match n {
        None => NodeKind::Missing,
        Some(TomlNode::Empty) => NodeKind::Empty,
        Some(TomlNode::Str(_)) => NodeKind::Str,
        Some(TomlNode::InlineTable) => NodeKind::InlineTable,
        Some(TomlNode::Table) => NodeKind::Table,
        Some(_) => NodeKind::Other,
    }
}

pub open spec fn str_of(n: Option<TomlNode>) -> Option<Seq<char>> {
    match n {
        Some(TomlNode::Str(s)) => Some(s),
        _ => None,
    }
}

pub open spec fn bool_of(n: Option<TomlNode>) -> Option<bool> {
    match n {
        Some(TomlNode::Bool(b)) => Some(b),
        _ => None,
    }
}

pub open spec fn array_of(n: Option<TomlNode>) -> Option<Seq<Option<Seq<char>>>> {
    match n {
        Some(TomlNode::Array(a)) => Some(a),
        _ => None,
    }
}

/// The keys that `TableLike::iter` yields at `p`: a table skips its placeholder entries.
pub open spec fn keys_at(m: Map<KeyPath, TomlNode>, o: Map<KeyPath, Seq<Seq<char>>>, p: KeyPath) -> Seq<Seq<char>> {
    match node_at(m, p) {
        Some(TomlNode::Table) => o[p].filter(|k: Seq<char>| m.get(p.push(k)) != Some(TomlNode::Empty)),
        Some(TomlNode::InlineTable) => o[p],
        _ => Seq::empty(),
    }
}

pub open spec fn is_prefix(p: KeyPath, q: KeyPath) -> bool {
    p.len() <= q.len() && q.subrange(0, p.len() as int) == p
}

/// `m` with the node at `p` replaced by `n` and everything below `p` removed.
pub open spec fn replace_node(m: Map<KeyPath, TomlNode>, p: KeyPath, n: TomlNode) -> Map<KeyPath, TomlNode> {
    Map::new(
        |x: KeyPath| x == p || (m.contains_key(x) && !is_prefix(p, x)),
        |x: KeyPath| if x == p { n } else { m[x] },
    )
}

/// `o` without the orders of `p` and of everything below it.
pub open spec fn drop_orders(o: Map<KeyPath, Seq<Seq<char>>>, p: KeyPath) -> Map<KeyPath, Seq<Seq<char>>> {
    Map::new(|x: KeyPath| o.contains_key(x) && !is_prefix(p, x), |x: KeyPath| o[x])
}

/// The order of a table after `k` was inserted: a present key keeps its place, a new one comes last.
pub open spec fn order_with(keys: Seq<Seq<char>>, k: Seq<char>) -> Seq<Seq<char>> {
    if keys.contains(k) {
        keys
    } else {
        keys.push(k)
    }
}

/// The effect of `TableLike::insert(k, n)` on the table-like node at `p`.
pub open spec fn inserted_nodes(m: Map<KeyPath, TomlNode>, p: KeyPath, k: Seq<char>, n: TomlNode) -> Map<KeyPath, TomlNode> {
    if is_table_like(node_at(m, p)) {
        replace_node(m, p.push(k), n)
    } else {
        m
    }
}

pub open spec fn inserted_order(m: Map<KeyPath, TomlNode>, o: Map<KeyPath, Seq<Seq<char>>>, p: KeyPath, k: Seq<char>) -> Map<KeyPath, Seq<Seq<char>>> {
    if is_table_like(node_at(m, p)) {
        drop_orders(o, p.push(k)).insert(p, order_with(o[p], k))
    } else {
        o
    }
}

/// Parses `text` as a TOML document (`DocumentMut::from_str`).
///
/// Claims that the document it gives back has the contents that `parsed_toml`
/// names for `text`, and that it fails exactly where that name is `None`.
#[verifier::external_body]
pub(crate) fn parse_document(text: &str) -> (r: Option<DocumentMut>)
    ensures
        r is Some <==> parsed_toml(text@) is Some,
        r matches Some(d) ==> parsed_toml(text@) == Some((toml_nodes(d), toml_order(d))),
{
    text.parse::<DocumentMut>().ok()
}

/// The text that `Display` of `DocumentMut` writes for a document: with the nodes and
/// orders, the third thing that the document holds.
pub uninterp spec fn toml_text(d: DocumentMut) -> Seq<char>;

/// Renders the document as text (`Display` of `DocumentMut`).
///
/// Claims that the text is what `toml_text` names for the document. How that text relates
/// to the document's nodes, and how far it keeps the layout of the parsed file, is not
/// stated: `toml_edit` documents that it preserves comments, spaces and order except the
/// order of dotted keys and a missing trailing newline.
#[verifier::external_body]
pub(crate) fn document_text(d: &DocumentMut) -> (r: String)
    ensures
        r@ == toml_text(*d),
{
    d.to_string()
}

/// The kind of the node at `path`, walking with `Item::as_table_like` and `TableLike::get`.
///
/// Claims that it is the kind of `node_at` on the document's nodes.
#[verifier::external_body]
pub(crate) fn node_kind(d: &DocumentMut, path: &Vec<String>) -> (r: NodeKind)
    ensures
        r == kind_of(node_at(toml_nodes(*d), path_view(path@))),
{
    let mut item = Some(d.as_item());
    for key in path {
        item = item.and_then(|i| i.as_table_like()).and_then(|t| t.get(key));
    }
    match item {
        None => NodeKind::Missing,
        Some(Item::None) => NodeKind::Empty,
        Some(Item::Table(_)) => NodeKind::Table,
        Some(Item::Value(Value::String(_))) => NodeKind::Str,
        Some(Item::Value(Value::InlineTable(_))) => NodeKind::InlineTable,
        Some(_) => NodeKind::Other,
    }
}

/// The string at `path` (`Item::as_str` of the node the walk reaches).
///
/// Claims that it is the string that `node_at` finds there, if that node is a string.
#[verifier::external_body]
pub(crate) fn node_str(d: &DocumentMut, path: &Vec<String>) -> (r: Option<String>)
    ensures
        opt_view(r) == str_of(node_at(toml_nodes(*d), path_view(path@))),
{
    let mut item = Some(d.as_item());
    for key in path {
        item = item.and_then(|i| i.as_table_like()).and_then(|t| t.get(key));
    }
    item.and_then(|i| i.as_str()).map(|s| s.to_string())
}

/// The boolean at `path` (`Item::as_bool` of the node the walk reaches).
///
/// Claims that it is the boolean that `node_at` finds there, if that node is a boolean.
#[verifier::external_body]
pub(crate) fn node_bool(d: &DocumentMut, path: &Vec<String>) -> (r: Option<bool>)
    ensures
        r == bool_of(node_at(toml_nodes(*d), path_view(path@))),
{
    let mut item = Some(d.as_item());
    for key in path {
        item = item.and_then(|i| i.as_table_like()).and_then(|t| t.get(key));
    }
    item.and_then(|i| i.as_bool())
}

/// The values of the array at `path`, each mapped by `Value::as_str` (`Item::as_array`, `Array::iter`).
///
/// Claims that they are the entries of the array that `node_at` finds there, if that node is an array.
#[verifier::external_body]
pub(crate) fn node_array(d: &DocumentMut, path: &Vec<String>) -> (r: Option<Vec<Option<String>>>)
    ensures
        r is Some <==> array_of(node_at(toml_nodes(*d), path_view(path@))) is Some,
        r matches Some(v) ==> opt_views(v@) == array_of(node_at(toml_nodes(*d), path_view(path@)))->0,
{
    let mut item = Some(d.as_item());
    for key in path {
        item = item.and_then(|i| i.as_table_like()).and_then(|t| t.get(key));
    }
    item.and_then(|i| i.as_array()).map(|a| a.iter().map(|v| v.as_str().map(|s| s.to_string())).collect())
}

/// The keys that `TableLike::iter` yields for the table-like node at `path`, in order.
///
/// Claims that they are `keys_at` of the document's names; none where the node is no table.
/// Also claims that no key comes twice: a table keeps its entries in an `IndexMap` keyed by
/// the key's text.
#[verifier::external_body]
pub(crate) fn node_keys(d: &DocumentMut, path: &Vec<String>) -> (r: Vec<String>)
    ensures
        path_view(r@) == keys_at(toml_nodes(*d), toml_order(*d), path_view(path@)),
        path_view(r@).no_duplicates(),
{
    let mut item = Some(d.as_item());
    for key in path {
        item = item.and_then(|i| i.as_table_like()).and_then(|t| t.get(key));
    }
    item.and_then(|i| i.as_table_like()).map_or_else(Vec::new, |t| t.iter().map(|(k, _)| k.to_string()).collect())
}

/// Inserts the string `s` under `key` into the table-like node at `path` (`TableLike::insert`
/// of `toml_edit::value(s)`), walking with `TableLike::get_mut`.
///
/// Claims the effect that `inserted_nodes` and `inserted_order` describe; nothing changes
/// where the node at `path` is no table.
#[verifier::external_body]
pub(crate) fn insert_str(d: &mut DocumentMut, path: &Vec<String>, key: &str, s: &str)
    ensures
        toml_nodes(*final(d)) == inserted_nodes(toml_nodes(*old(d)), path_view(path@), key@, TomlNode::Str(s@)),
        toml_order(*final(d)) == inserted_order(toml_nodes(*old(d)), toml_order(*old(d)), path_view(path@), key@),
{
    let mut item = Some(d.as_item_mut());
    for k in path {
        item = item.and_then(|i| i.as_table_like_mut()).and_then(|t| t.get_mut(k));
    }
    if let Some(t) = item.and_then(|i| i.as_table_like_mut()) {
        t.insert(key, toml_edit::value(s));
    }
}

/// Inserts the boolean `b` under `key` into the table-like node at `path` (`TableLike::insert`
/// of `toml_edit::value(b)`), walking with `TableLike::get_mut`.
///
/// Claims the effect that `inserted_nodes` and `inserted_order` describe.
#[verifier::external_body]
pub(crate) fn insert_bool(d: &mut DocumentMut, path: &Vec<String>, key: &str, b: bool)
    ensures
        toml_nodes(*final(d)) == inserted_nodes(toml_nodes(*old(d)), path_view(path@), key@, TomlNode::Bool(b)),
        toml_order(*final(d)) == inserted_order(toml_nodes(*old(d)), toml_order(*old(d)), path_view(path@), key@),
{
    let mut item = Some(d.as_item_mut());
    for k in path {
        item = item.and_then(|i| i.as_table_like_mut()).and_then(|t| t.get_mut(k));
    }
    if let Some(t) = item.and_then(|i| i.as_table_like_mut()) {
        t.insert(key, toml_edit::value(b));
    }
}

/// Replaces the node at `path` by the string `s` (`*item = toml_edit::value(s)` on the item
/// that the walk with `TableLike::get_mut` reaches).
///
/// Claims that the node at `path`, where there is one, becomes that string, with what lay below it gone.
#[verifier::external_body]
pub(crate) fn set_str(d: &mut DocumentMut, path: &Vec<String>, s: &str)
    requires
        path.len() > 0,
    ensures
        node_at(toml_nodes(*old(d)), path_view(path@)) is Some ==> toml_nodes(*final(d))
            == replace_node(toml_nodes(*old(d)), path_view(path@), TomlNode::Str(s@)) && toml_order(
            *final(d),
        ) == drop_orders(toml_order(*old(d)), path_view(path@)),
        node_at(toml_nodes(*old(d)), path_view(path@)) is None ==> *final(d) == *old(d),
{
    let mut item = Some(d.as_item_mut());
    for k in path {
        item = item.and_then(|i| i.as_table_like_mut()).and_then(|t| t.get_mut(k));
    }
    if let Some(i) = item {
        *i = toml_edit::value(s);
    }
}

/// Replaces the string at `path` by a new inline table that holds that string value, with
/// its formatting, under `key` (`InlineTable::default`, then `InlineTable::insert`).
///
/// Claims that a string node at `path` becomes an inline table whose only entry is `key`,
/// holding the old string; nothing changes where the node is no string.
#[verifier::external_body]
pub(crate) fn str_to_inline_table(d: &mut DocumentMut, path: &Vec<String>, key: &str)
    requires
        path.len() > 0,
    ensures
        ({
            let m = toml_nodes(*old(d));
            let p = path_view(path@);
            match node_at(m, p) {
                Some(TomlNode::Str(s)) => toml_nodes(*final(d)) == replace_node(m, p, TomlNode::InlineTable).insert(
                    p.push(key@),
                    TomlNode::Str(s),
                ) && toml_order(*final(d)) == drop_orders(toml_order(*old(d)), p).insert(p, seq![key@]),
                _ => *final(d) == *old(d),
            }
        }),
{
    let mut item = Some(d.as_item_mut());
    for k in path {
        item = item.and_then(|i| i.as_table_like_mut()).and_then(|t| t.get_mut(k));
    }
    if let Some(i) = item {
        if let Item::Value(Value::String(v)) = i {
            let mut table = InlineTable::default();
            table.insert(key, Value::String(v.clone()));
            *i = Item::Value(Value::InlineTable(table));
        }
    }
}

/// Makes sure that the table-like node at `path` has an entry `key`, inserting an empty
/// array where it has none (`TableLike::entry(key).or_insert_with(..)`), and tells whether
/// the entry is an array (`Item::as_array_mut`).
///
/// Claims: a missing entry becomes an empty array that comes last, and the answer is `true`;
/// a present entry (a placeholder too) stays as it is, and the answer says whether it is an
/// array; where the node is no table, nothing changes and the answer is `false`.
#[verifier::external_body]
pub(crate) fn ensure_array(d: &mut DocumentMut, path: &Vec<String>, key: &str) -> (r: bool)
    ensures
        ({
            let m = toml_nodes(*old(d));
            let o = toml_order(*old(d));
            let p = path_view(path@);
            let q = p.push(key@);
            if !is_table_like(node_at(m, p)) {
                *final(d) == *old(d) && !r
            } else if m.contains_key(q) {
                *final(d) == *old(d) && r == (m[q] is Array)
            } else {
                r && toml_nodes(*final(d)) == replace_node(m, q, TomlNode::Array(Seq::empty()))
                    && toml_order(*final(d)) == o.insert(p, o[p].push(key@))
            }
        }),
{
    let mut item = Some(d.as_item_mut());
    for k in path {
        item = item.and_then(|i| i.as_table_like_mut()).and_then(|t| t.get_mut(k));
    }
    match item.and_then(|i| i.as_table_like_mut()) {
        Some(t) => t.entry(key).or_insert_with(|| Array::default().into()).as_array_mut().is_some(),
        None => false,
    }
}

/// Appends the string `s` to the array at `path` (`Array::push`).
///
/// Claims that an array node at `path` gets `s` as its last value; nothing else changes.
#[verifier::external_body]
pub(crate) fn array_push(d: &mut DocumentMut, path: &Vec<String>, s: &str)
    ensures
        ({
            let m = toml_nodes(*old(d));
            let p = path_view(path@);
            match node_at(m, p) {
                Some(TomlNode::Array(a)) => toml_nodes(*final(d)) == m.insert(p, TomlNode::Array(a.push(Some(s@))))
                    && toml_order(*final(d)) == toml_order(*old(d)),
                _ => *final(d) == *old(d),
            }
        }),
{
    let mut item = Some(d.as_item_mut());
    for k in path {
        item = item.and_then(|i| i.as_table_like_mut()).and_then(|t| t.get_mut(k));
    }
    if let Some(a) = item.and_then(|i| i.as_array_mut()) {
        a.push(s);
    }
}

/// Removes from the array at `path` every value that `keeps_value` refuses for `s`
/// (`Array::retain`, handing each value as `Value::as_str` reads it to `keeps_value`).
///
/// Claims that an array node at `path` keeps, in order, exactly its values that are not the
/// string `s`.
#[verifier::external_body]
pub(crate) fn array_remove(d: &mut DocumentMut, path: &Vec<String>, s: &str)
    ensures
        ({
            let m = toml_nodes(*old(d));
            let p = path_view(path@);
            match node_at(m, p) {
                Some(TomlNode::Array(a)) => toml_nodes(*final(d)) == m.insert(
                    p,
                    TomlNode::Array(a.filter(|e: Option<Seq<char>>| e != Some(s@))),
                ) && toml_order(*final(d)) == toml_order(*old(d)),
                _ => *final(d) == *old(d),
            }
        }),
{
    let mut item = Some(d.as_item_mut());
    for k in path {
        item = item.and_then(|i| i.as_table_like_mut()).and_then(|t| t.get_mut(k));
    }
    if let Some(a) = item.and_then(|i| i.as_array_mut()) {
        a.retain(|v| keeps_value(v.as_str(), s));
    }
}

/// Whether a value of an array stays when `s` is removed: it is not the string `s`.
pub(crate) fn keeps_value(value: Option<&str>, s: &str) -> (r: bool)
    ensures
        r == match value {
            Some(v) => v@ != s@,
            None => true,
        },
{
    match value {
        Some(v) => !crate::text::str_eq(v, s),
        None => true,
    }
}

} // verus!
