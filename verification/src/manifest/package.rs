use vstd::prelude::*;

use toml_edit::DocumentMut;

use crate::toml::{node_at, node_str, opt_view, path_view, str_of, toml_nodes, KeyPath, TomlNode};

verus! {

/// The name and version of the package that a manifest describes.
#[derive(Debug)]
pub struct PackageInfo {
    pub name: String,
    pub version: String,
}

pub struct PackageInfoView {
    pub name: Seq<char>,
    pub version: Seq<char>,
}

impl View for PackageInfo {
    type V = PackageInfoView;

    open spec fn view(&self) -> PackageInfoView {
        PackageInfoView { name: self.name@, version: self.version@ }
    }
}

/// Errors that can occur when parsing a package manifest.
#[derive(Debug, Clone, Copy, PartialEq, Eq, Structural)]
pub enum PackageParseError {
    /// The `name` field is missing from the package manifest.
    MissingName,
    /// The `version` field is missing from the package manifest.
    MissingVersion,
}

/// What the table at `p` gives: its string entries `name` and `version`.
pub open spec fn package_from_table(m: Map<KeyPath, TomlNode>, p: KeyPath) -> Result<PackageInfoView, PackageParseError> {
    match str_of(node_at(m, p.push("name"@))) {
        None => Err(PackageParseError::MissingName),
        Some(name) => match str_of(node_at(m, p.push("version"@))) {
            None => Err(PackageParseError::MissingVersion),
            Some(version) => Ok(PackageInfoView { name, version }),
        },
    }
}

impl PackageInfo {
    /// Reads the package's name and version from the table at `table`.
    pub fn from_table(doc: &DocumentMut, table: &Vec<String>) -> (r: Result<PackageInfo, PackageParseError>)
        ensures
            match package_from_table(toml_nodes(*doc), path_view(table@)) {
                Ok(info) => r matches Ok(i) && i@ == info,
                Err(e) => r matches Err(e2) && e2 == e,
            },
    {
        let mut name_path = table.clone();
        name_path.push(String::from_str("name"));
        let mut version_path = table.clone();
        version_path.push(String::from_str("version"));
        proof {
            assert(path_view(name_path@) =~= path_view(table@).push("name"@));
            assert(path_view(version_path@) =~= path_view(table@).push("version"@));
        }
        let name = match node_str(doc, &name_path) {
            Some(n) => n,
            None => {
                return Err(PackageParseError::MissingName);
            },
        };
        let version = match node_str(doc, &version_path) {
            Some(v) => v,
            None => {
                return Err(PackageParseError::MissingVersion);
            },
        };
        Ok(PackageInfo { name, version })
    }
}

} // verus!
