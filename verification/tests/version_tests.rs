use tuwui::manifest::dependency::RegistrySource;
use tuwui::version::{CmpResult, SemVersion, SemVersionReq};

fn v(text: &str) -> SemVersion {
    SemVersion::parse(text).unwrap()
}

#[test]
fn version_parts() {
    let x = v("1.2.3");
    assert_eq!((x.major(), x.minor(), x.patch()), (1, 2, 3));
    assert_eq!(x.to_text(), "1.2.3");
    assert_eq!(v("1.0.0-beta.1+build.5").to_text(), "1.0.0-beta.1+build.5");
}

#[test]
fn invalid_version_is_refused() {
    assert!(SemVersion::parse("1.2").is_none());
    assert!(SemVersion::parse("one").is_none());
}

#[test]
fn versions_are_ordered() {
    assert_eq!(v("1.2.3").compare(&v("1.10.0")), CmpResult::Less);
    assert_eq!(v("2.0.0").compare(&v("1.99.99")), CmpResult::Greater);
    assert_eq!(v("1.0.0").compare(&v("1.0.0")), CmpResult::Equal);
    assert_eq!(v("1.0.0-alpha").compare(&v("1.0.0")), CmpResult::Less);
    assert!(v("1.0.0").not_newer_than(&v("1.0.0")));
    assert!(!v("1.0.1").not_newer_than(&v("1.0.0")));
}

#[test]
fn same_version() {
    assert!(v("1.2.3").same_as(&v("1.2.3")));
    assert!(!v("1.2.3").same_as(&v("1.2.4")));
    assert!(v("1.2.3").duplicate().same_as(&v("1.2.3")));
}

#[test]
fn requirements_match() {
    let r = SemVersionReq::parse("1").unwrap();
    assert_eq!(r.to_text(), "^1");
    assert!(r.matches(&v("1.9.0")));
    assert!(!r.matches(&v("2.0.0")));
    assert!(SemVersionReq::parse("not a req").is_none());
}

#[test]
fn caret_requirement_of_a_version() {
    let r = SemVersionReq::caret(&v("0.2.3")).unwrap();
    assert_eq!(r.to_text(), "^0.2.3");
    assert!(r.matches(&v("0.2.9")));
    assert!(!r.matches(&v("0.3.0")));
}

#[test]
fn registry_source_matches() {
    let exact = RegistrySource::Version(v("1.0.100"));
    assert!(exact.matches(&v("1.0.100")));
    assert!(!exact.matches(&v("1.0.101")));
    assert_eq!(exact.compatible_req().unwrap().to_text(), "^1.0.100");
    let req = RegistrySource::Requirement(SemVersionReq::parse("~1.2").unwrap());
    assert!(req.matches(&v("1.2.7")));
    assert!(!req.matches(&v("1.3.0")));
    assert_eq!(req.compatible_req().unwrap().to_text(), "~1.2");
    assert_eq!(req.to_text(), "~1.2");
}
