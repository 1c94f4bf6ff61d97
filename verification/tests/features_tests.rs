use tuwui::features::{
    create_implied_graph, fetch_features, FeaturesList, FetchFeaturesError, Metadata, MetadataDependency,
    MetadataPackage, Resolve, ResolveNode,
};
use tuwui::ui::main::{feature_rows, join_arrows, FeatureMark};

fn strings(v: &[&str]) -> Vec<String> {
    v.iter().map(|s| String::from(*s)).collect()
}

fn features(entries: &[(&str, &[&str])]) -> FeaturesList {
    let mut f = FeaturesList::new();
    for (k, v) in entries {
        f.insert(String::from(*k), strings(v));
    }
    f
}

fn sample() -> FeaturesList {
    features(&[("default", &["std"]), ("std", &["alloc"]), ("alloc", &[]), ("serde", &["dep:serde", "std"])])
}

fn chain(g: &FeaturesList, k: &str) -> Vec<String> {
    g.get(k).unwrap().clone()
}

#[test]
fn features_list_keeps_keys_sorted() {
    let f = sample();
    let keys: Vec<&str> = f.entries().iter().map(|e| e.0.as_str()).collect();
    assert_eq!(keys, vec!["alloc", "default", "serde", "std"]);
    assert_eq!(f.len(), 4);
    assert!(f.get("missing").is_none());
}

#[test]
fn insert_replaces_a_value() {
    let mut f = sample();
    f.insert(String::from("std"), strings(&["x"]));
    assert_eq!(f.len(), 4);
    assert_eq!(chain(&f, "std"), strings(&["x"]));
}

#[test]
fn default_features_imply_their_chain() {
    let g = create_implied_graph(&sample(), &Vec::new(), true);
    assert_eq!(chain(&g, "std"), strings(&["default"]));
    assert_eq!(chain(&g, "alloc"), strings(&["default", "std"]));
    assert!(chain(&g, "serde").is_empty());
    assert!(chain(&g, "default").is_empty());
    assert_eq!(g.len(), 4);
}

#[test]
fn enabled_feature_implies_its_chain_but_not_dependencies() {
    let g = create_implied_graph(&sample(), &strings(&["serde"]), false);
    assert_eq!(chain(&g, "std"), strings(&["serde"]));
    assert_eq!(chain(&g, "alloc"), strings(&["serde", "std"]));
    assert!(g.get("dep:serde").is_none());
}

#[test]
fn nothing_enabled_implies_nothing() {
    let g = create_implied_graph(&sample(), &Vec::new(), false);
    for (_, c) in g.entries() {
        assert!(c.is_empty());
    }
}

#[test]
fn unknown_enabled_feature_ends_the_walk() {
    // The walk stops at the first feature that the list does not hold.
    let g = create_implied_graph(&sample(), &strings(&["serde", "nope"]), false);
    assert!(chain(&g, "std").is_empty());
}

fn metadata() -> Metadata {
    let root = MetadataPackage {
        id: String::from("demo 0.1.0"),
        name: String::from("demo"),
        dependencies: vec![
            MetadataDependency { name: String::from("serde"), rename: None },
            MetadataDependency { name: String::from("tokio"), rename: Some(String::from("tk")) },
        ],
        features: FeaturesList::new(),
    };
    let serde = MetadataPackage {
        id: String::from("serde 1.0.0"),
        name: String::from("serde"),
        dependencies: Vec::new(),
        features: features(&[("derive", &["serde_derive"]), ("std", &[])]),
    };
    let tokio = MetadataPackage {
        id: String::from("tokio 1.0.0"),
        name: String::from("tokio"),
        dependencies: Vec::new(),
        features: features(&[("rt", &[])]),
    };
    Metadata {
        packages: vec![root, serde, tokio],
        resolve: Some(Resolve {
            nodes: vec![ResolveNode {
                id: String::from("demo 0.1.0"),
                dependencies: strings(&["serde 1.0.0", "tokio 1.0.0"]),
            }],
            root: Some(String::from("demo 0.1.0")),
        }),
    }
}

#[test]
fn features_of_a_dependency_are_found() {
    let md = metadata();
    let f = fetch_features(&md, "serde").unwrap();
    assert!(f.get("derive").is_some());
    assert_eq!(f.len(), 2);
}

#[test]
fn renamed_dependency_is_found_by_its_rename() {
    let md = metadata();
    let f = fetch_features(&md, "tk").unwrap();
    assert!(f.get("rt").is_some());
}

#[test]
fn unknown_dependency_is_not_found() {
    let md = metadata();
    assert_eq!(fetch_features(&md, "rand").unwrap_err(), FetchFeaturesError::NotFound);
}

#[test]
fn missing_resolve_is_reported() {
    let mut md = metadata();
    md.resolve = None;
    assert_eq!(fetch_features(&md, "serde").unwrap_err(), FetchFeaturesError::ResolutionNotFound);
}

#[test]
fn missing_root_is_reported() {
    let mut md = metadata();
    md.resolve.as_mut().unwrap().root = None;
    assert_eq!(fetch_features(&md, "serde").unwrap_err(), FetchFeaturesError::RootNotFound);
}

#[test]
fn root_without_a_resolve_node_is_reported() {
    let mut md = metadata();
    md.resolve.as_mut().unwrap().nodes = Vec::new();
    assert_eq!(fetch_features(&md, "serde").unwrap_err(), FetchFeaturesError::RootNotFound);
}

#[test]
fn chains_start_at_enabled_features() {
    let g = create_implied_graph(&sample(), &strings(&["serde"]), true);
    for (_, c) in g.entries() {
        if let Some(first) = c.first() {
            assert!(first == "serde" || first == "default");
        }
    }
    assert!(g.get("default").is_some() && g.get("alloc").is_some());
}

#[test]
fn root_id_without_a_package_is_reported() {
    let mut md = metadata();
    md.resolve.as_mut().unwrap().root = Some(String::from("other 1.0.0"));
    assert_eq!(fetch_features(&md, "serde").unwrap_err(), FetchFeaturesError::RootNotFound);
}

#[test]
fn chains_are_joined_by_arrows() {
    assert_eq!(join_arrows(&Vec::new()), "");
    assert_eq!(join_arrows(&strings(&["default"])), "default");
    assert_eq!(join_arrows(&strings(&["default", "std", "alloc"])), "default -> std -> alloc");
}

#[test]
fn feature_rows_mark_enabled_and_implied_features() {
    let enabled = strings(&["serde"]);
    let g = create_implied_graph(&sample(), &enabled, true);
    let rows = feature_rows(&g, &enabled);
    let names: Vec<&str> = rows.iter().map(|r| r.name.as_str()).collect();
    assert_eq!(names, vec!["alloc", "serde", "std"]);
    assert_eq!(rows[0].mark, FeatureMark::Implied);
    assert_eq!(rows[1].mark, FeatureMark::Enabled);
    assert_eq!(rows[1].chain, "");
    assert_eq!(rows[2].mark, FeatureMark::Implied);
}

#[test]
fn feature_rows_without_anything_enabled_are_off() {
    let g = create_implied_graph(&sample(), &Vec::new(), false);
    let rows = feature_rows(&g, &Vec::new());
    assert_eq!(rows.len(), 3);
    assert!(rows.iter().all(|r| r.mark == FeatureMark::Off && r.chain.is_empty()));
}
