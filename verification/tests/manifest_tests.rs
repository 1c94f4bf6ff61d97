use tuwui::manifest::dependency::{
    DependencyCursor, DependencyKind, DependencyTableCursor, RegistrySource, Source,
};
use tuwui::manifest::{Error, Manifest, PackageError};
use tuwui::updater::{DependencyUpdateError, VersionType};
use tuwui::version::SemVersion;

const MANIFEST: &str = r#"[package]
name = "demo"
version = "0.1.0"

[dependencies]
serde = "1.0.100"
tokio = { version = "1", features = ["rt"] }

[dev-dependencies]
pretty = { version = "0.2.1", default-features = false }

[target.'cfg(unix)'.dependencies]
libc = "0.2"
"#;

fn manifest() -> Manifest {
    Manifest::new(String::from("Cargo.toml"), MANIFEST).unwrap()
}

fn cursor(kind: DependencyKind, target: Option<&str>, name: &str) -> DependencyCursor {
    DependencyCursor {
        table: DependencyTableCursor { kind, target: target.map(String::from) },
        name: String::from(name),
    }
}

fn version(text: &str) -> VersionType {
    VersionType::Registry(SemVersion::parse(text).unwrap())
}

#[test]
fn parse_error_is_reported() {
    let r = Manifest::new(String::from("Cargo.toml"), "[package\nname = ");
    assert!(matches!(r, Err(Error::ParseError)));
}

#[test]
fn path_is_kept() {
    let m = manifest();
    assert_eq!(m.path(), "Cargo.toml");
}

#[test]
fn package_is_read() {
    let m = manifest();
    let p = m.package().unwrap();
    assert_eq!(p.name, "demo");
    assert_eq!(p.version, "0.1.0");
}

#[test]
fn missing_package_is_reported() {
    let m = Manifest::new(String::from("Cargo.toml"), "[dependencies]\nserde = \"1\"\n").unwrap();
    assert!(matches!(m.package(), Err(PackageError::NoPackage)));
}

#[test]
fn package_that_is_no_table_is_reported() {
    let m = Manifest::new(String::from("Cargo.toml"), "package = 3\n").unwrap();
    assert!(matches!(m.package(), Err(PackageError::ParseError)));
}

#[test]
fn section_names() {
    assert_eq!(DependencyKind::Normal.section(), "dependencies");
    assert_eq!(DependencyKind::Dev.section(), "dev-dependencies");
    assert_eq!(DependencyKind::Build.section(), "build-dependencies");
    assert_eq!(DependencyKind::kinds().len(), 3);
}

#[test]
fn table_names_and_titles() {
    let plain = DependencyTableCursor { kind: DependencyKind::Dev, target: None };
    assert_eq!(plain.to_table_name(), "dev-dependencies");
    assert_eq!(plain.to_text(), "Dev Dependencies");
    let target = DependencyTableCursor { kind: DependencyKind::Build, target: Some(String::from("cfg(unix)")) };
    assert_eq!(target.to_table_name(), "target.cfg(unix).build-dependencies");
    assert_eq!(target.to_text(), "Build Dependencies (cfg(unix))");
}

#[test]
fn dependency_tables_are_listed_in_order() {
    let m = manifest();
    let tables = m.dependencies().unwrap();
    assert_eq!(tables.len(), 3);
    assert_eq!(tables[0].cursor.kind, DependencyKind::Normal);
    assert!(tables[0].cursor.target.is_none());
    let names: Vec<&str> = tables[0].deps.iter().map(|d| d.name()).collect();
    assert_eq!(names, vec!["serde", "tokio"]);
    assert_eq!(tables[1].cursor.kind, DependencyKind::Dev);
    assert_eq!(tables[1].deps[0].name(), "pretty");
    assert_eq!(tables[2].cursor.kind, DependencyKind::Normal);
    assert_eq!(tables[2].cursor.target.as_deref(), Some("cfg(unix)"));
    assert_eq!(tables[2].deps[0].name(), "libc");
}

#[test]
fn unreadable_dependency_fails_the_listing() {
    let m = Manifest::new(String::from("Cargo.toml"), "[dependencies]\nfoo = { path = \"../foo\" }\n").unwrap();
    assert!(matches!(m.dependencies(), Err(PackageError::ParseError)));
}

#[test]
fn section_that_is_no_table_fails_the_listing() {
    let m = Manifest::new(String::from("Cargo.toml"), "dev-dependencies = 3\n[dependencies]\nfoo = \"1\"\n").unwrap();
    assert!(matches!(m.dependencies(), Err(PackageError::ParseError)));
}

#[test]
fn target_that_is_no_table_adds_no_sections() {
    let m = Manifest::new(String::from("Cargo.toml"), "target = 3\n[dependencies]\nfoo = \"1\"\n").unwrap();
    let tables = m.dependencies().unwrap();
    assert_eq!(tables.len(), 1);
    assert_eq!(tables[0].deps[0].name(), "foo");
}

#[test]
fn empty_section_is_listed() {
    let m = Manifest::new(String::from("Cargo.toml"), "[build-dependencies]\n").unwrap();
    let tables = m.dependencies().unwrap();
    assert_eq!(tables.len(), 1);
    assert_eq!(tables[0].cursor.kind, DependencyKind::Build);
    assert!(tables[0].deps.is_empty());
}

#[test]
fn sources_are_read() {
    let m = manifest();
    let serde = m.resolve_dependency(&cursor(DependencyKind::Normal, None, "serde")).unwrap().unwrap();
    assert!(matches!(serde.source(), Source::Registry(RegistrySource::Version(_))));
    assert_eq!(serde.source().to_text(), "1.0.100");
    assert!(serde.default_features());
    assert!(serde.features().is_none());
    let tokio = m.resolve_dependency(&cursor(DependencyKind::Normal, None, "tokio")).unwrap().unwrap();
    assert!(matches!(tokio.source(), Source::Registry(RegistrySource::Requirement(_))));
    assert_eq!(tokio.source().to_text(), "^1");
    assert_eq!(tokio.features().unwrap(), &vec![String::from("rt")]);
    let pretty = m.resolve_dependency(&cursor(DependencyKind::Dev, None, "pretty")).unwrap().unwrap();
    assert!(!pretty.default_features());
}

#[test]
fn package_entry_gives_the_resolved_name() {
    let m = Manifest::new(
        String::from("Cargo.toml"),
        "[dependencies]\nmy_serde = { version = \"1\", package = \"serde\" }\n",
    )
    .unwrap();
    let d = m.resolve_dependency(&cursor(DependencyKind::Normal, None, "my_serde")).unwrap().unwrap();
    assert_eq!(d.name(), "my_serde");
    assert_eq!(d.package(), Some("serde"));
    assert_eq!(d.resolved_name(), "serde");
}

#[test]
fn missing_dependency_resolves_to_nothing() {
    let m = manifest();
    assert!(m.resolve_dependency(&cursor(DependencyKind::Normal, None, "rand")).unwrap().is_none());
    assert!(m.resolve_dependency(&cursor(DependencyKind::Build, None, "cc")).unwrap().is_none());
    assert!(m.resolve_dependency_mut(&cursor(DependencyKind::Normal, None, "rand")).is_none());
}

#[test]
fn target_dependency_is_looked_up_under_its_dotted_table_name() {
    // A cursor names its table by one key, `target.<target>.<section>`, which a
    // `[target.<target>.<section>]` header does not create.
    let m = manifest();
    assert!(m.resolve_dependency(&cursor(DependencyKind::Normal, Some("cfg(unix)"), "libc")).unwrap().is_none());
    let dotted = Manifest::new(
        String::from("Cargo.toml"),
        "[\"target.cfg(unix).dependencies\"]\nlibc = \"0.2\"\n",
    )
    .unwrap();
    let libc =
        dotted.resolve_dependency(&cursor(DependencyKind::Normal, Some("cfg(unix)"), "libc")).unwrap().unwrap();
    assert_eq!(libc.source().to_text(), "^0.2");
}

#[test]
fn set_version_of_a_string_entry() {
    let mut m = manifest();
    let c = cursor(DependencyKind::Normal, None, "serde");
    let d = m.resolve_dependency_mut(&c).unwrap();
    d.set_version(&mut m, &version("1.0.200")).unwrap();
    assert!(m.text().contains("serde = \"1.0.200\""));
    let serde = m.resolve_dependency(&c).unwrap().unwrap();
    assert_eq!(serde.source().to_text(), "1.0.200");
}

#[test]
fn set_version_of_a_table_entry_keeps_its_features() {
    let mut m = manifest();
    let c = cursor(DependencyKind::Normal, None, "tokio");
    let d = m.resolve_dependency_mut(&c).unwrap();
    d.set_version(&mut m, &version("1.40.0")).unwrap();
    let tokio = m.resolve_dependency(&c).unwrap().unwrap();
    assert_eq!(tokio.source().to_text(), "1.40.0");
    assert_eq!(tokio.features().unwrap(), &vec![String::from("rt")]);
}

#[test]
fn set_version_of_an_unsupported_entry_is_refused() {
    let mut m = Manifest::new(String::from("Cargo.toml"), "[dependencies]\nfoo = 3\n").unwrap();
    let d = m.resolve_dependency_mut(&cursor(DependencyKind::Normal, None, "foo")).unwrap();
    let r = d.set_version(&mut m, &version("1.0.0"));
    assert!(matches!(r, Err(DependencyUpdateError::Unsupported)));
    assert!(m.text().contains("foo = 3"));
}

#[test]
fn default_features_of_a_string_entry() {
    let mut m = manifest();
    let c = cursor(DependencyKind::Normal, None, "serde");
    let d = m.resolve_dependency_mut(&c).unwrap();
    d.set_default_features(&mut m, false).unwrap();
    let serde = m.resolve_dependency(&c).unwrap().unwrap();
    assert!(!serde.default_features());
    assert_eq!(serde.source().to_text(), "1.0.100");
}

#[test]
fn default_features_toggled_twice_are_back() {
    let mut m = manifest();
    let c = cursor(DependencyKind::Dev, None, "pretty");
    let d = m.resolve_dependency_mut(&c).unwrap();
    d.set_default_features(&mut m, true).unwrap();
    assert!(m.resolve_dependency(&c).unwrap().unwrap().default_features());
    d.set_default_features(&mut m, false).unwrap();
    assert!(!m.resolve_dependency(&c).unwrap().unwrap().default_features());
}

#[test]
fn added_feature_is_listed() {
    let mut m = manifest();
    let c = cursor(DependencyKind::Normal, None, "tokio");
    let d = m.resolve_dependency_mut(&c).unwrap();
    d.add_feature(&mut m, "macros").unwrap();
    let tokio = m.resolve_dependency(&c).unwrap().unwrap();
    assert_eq!(tokio.features().unwrap(), &vec![String::from("rt"), String::from("macros")]);
}

#[test]
fn added_feature_that_is_listed_is_not_repeated() {
    let mut m = manifest();
    let c = cursor(DependencyKind::Normal, None, "tokio");
    let d = m.resolve_dependency_mut(&c).unwrap();
    d.add_feature(&mut m, "rt").unwrap();
    let tokio = m.resolve_dependency(&c).unwrap().unwrap();
    assert_eq!(tokio.features().unwrap(), &vec![String::from("rt")]);
}

#[test]
fn feature_added_to_a_string_entry() {
    let mut m = manifest();
    let c = cursor(DependencyKind::Normal, None, "serde");
    let d = m.resolve_dependency_mut(&c).unwrap();
    d.add_feature(&mut m, "derive").unwrap();
    let serde = m.resolve_dependency(&c).unwrap().unwrap();
    assert_eq!(serde.features().unwrap(), &vec![String::from("derive")]);
    assert_eq!(serde.source().to_text(), "1.0.100");
}

#[test]
fn removed_feature_is_unlisted() {
    let mut m = manifest();
    let c = cursor(DependencyKind::Normal, None, "tokio");
    let d = m.resolve_dependency_mut(&c).unwrap();
    d.remove_feature(&mut m, "rt").unwrap();
    let tokio = m.resolve_dependency(&c).unwrap().unwrap();
    assert_eq!(tokio.features().unwrap().len(), 0);
}

#[test]
fn feature_added_to_a_non_array_is_refused() {
    let mut m =
        Manifest::new(String::from("Cargo.toml"), "[dependencies]\nfoo = { version = \"1\", features = 3 }\n").unwrap();
    let d = m.resolve_dependency_mut(&cursor(DependencyKind::Normal, None, "foo")).unwrap();
    assert!(matches!(d.add_feature(&mut m, "x"), Err(DependencyUpdateError::Unsupported)));
}

#[test]
fn source_from_version_text() {
    assert!(matches!(Source::from_version_text("1.2.3"), Ok(Source::Registry(RegistrySource::Version(_)))));
    assert!(matches!(Source::from_version_text("^1.2"), Ok(Source::Registry(RegistrySource::Requirement(_)))));
    assert!(Source::from_version_text("not a version").is_err());
}

#[test]
fn path_and_git_sources_are_written() {
    let p = Source::Path { path: String::from("../foo") };
    assert_eq!(p.to_text(), "path+../foo");
    let g = Source::Git {
        url: String::from("https://example.org/r.git"),
        branch: Some(String::from("main")),
        tag: None,
        git_ref: None,
    };
    assert_eq!(g.to_text(), "git+https://example.org/r.git#main");
}

#[test]
fn remove_undoes_add() {
    let mut m = manifest();
    let before = m.text();
    let c = cursor(DependencyKind::Normal, None, "tokio");
    let d = m.resolve_dependency_mut(&c).unwrap();
    d.add_feature(&mut m, "macros").unwrap();
    d.remove_feature(&mut m, "macros").unwrap();
    let tokio = m.resolve_dependency(&c).unwrap().unwrap();
    assert_eq!(tokio.features().unwrap(), &vec![String::from("rt")]);
    assert_eq!(m.text(), before);
}

#[test]
fn adding_a_feature_twice_adds_it_once() {
    let mut m = manifest();
    let c = cursor(DependencyKind::Normal, None, "serde");
    let d = m.resolve_dependency_mut(&c).unwrap();
    d.add_feature(&mut m, "derive").unwrap();
    let once = m.text();
    d.add_feature(&mut m, "derive").unwrap();
    assert_eq!(m.text(), once);
}

#[test]
fn default_features_keep_the_rest() {
    let mut m = manifest();
    let c = cursor(DependencyKind::Normal, None, "tokio");
    let d = m.resolve_dependency_mut(&c).unwrap();
    d.set_default_features(&mut m, false).unwrap();
    let tokio = m.resolve_dependency(&c).unwrap().unwrap();
    assert!(!tokio.default_features());
    assert_eq!(tokio.source().to_text(), "^1");
    assert_eq!(tokio.features().unwrap(), &vec![String::from("rt")]);
    assert!(tokio.package().is_none());
}

#[test]
fn listed_dependencies_resolve_again() {
    let m = manifest();
    for t in m.dependencies().unwrap() {
        if t.cursor.target.is_some() {
            continue;
        }
        for d in &t.deps {
            let c = DependencyCursor { table: t.cursor.duplicate(), name: String::from(d.name()) };
            let r = m.resolve_dependency(&c).unwrap().unwrap();
            assert_eq!(r.source().to_text(), d.source().to_text());
            assert_eq!(r.default_features(), d.default_features());
        }
    }
}
