use tuwui::manifest::dependency::RegistrySource;
use tuwui::ui::icons::{Color, Icons};
use tuwui::updater::registry::{checked_status, filter_update_results, installable_versions, CrateVersion};
use tuwui::updater::{update_status, CheckForUpdateError, UpdateResult, UpdateStatus, VersionType};
use tuwui::version::{SemVersion, SemVersionReq};

fn v(text: &str) -> SemVersion {
    SemVersion::parse(text).unwrap()
}

fn cv(text: &str, yanked: bool) -> CrateVersion {
    CrateVersion { num: v(text), yanked }
}

fn text(o: &Option<SemVersion>) -> Option<String> {
    o.as_ref().map(|x| x.to_text())
}

fn listing() -> Vec<CrateVersion> {
    vec![cv("1.0.0", false), cv("1.4.0", false), cv("2.1.0", true), cv("2.0.0", false), cv("1.5.0", false)]
}

#[test]
fn latest_and_semantic_latest() {
    let source = RegistrySource::Version(v("1.0.0"));
    let r = filter_update_results(&source, &listing()).unwrap();
    assert_eq!(text(&r.latest_version), Some(String::from("2.0.0")));
    assert_eq!(text(&r.semantic_latest_version), Some(String::from("1.5.0")));
}

#[test]
fn compatible_version_listed_after_a_newer_one_is_found() {
    let source = RegistrySource::Requirement(SemVersionReq::parse("^1").unwrap());
    let r = filter_update_results(&source, &listing()).unwrap();
    assert_eq!(text(&r.semantic_latest_version), Some(String::from("1.5.0")));
}

#[test]
fn newest_first_listing_gives_the_same_targets() {
    let source = RegistrySource::Version(v("1.0.0"));
    let newest_first = vec![cv("2.0.0", false), cv("1.5.0", false)];
    let r = filter_update_results(&source, &newest_first).unwrap();
    assert_eq!(text(&r.latest_version), Some(String::from("2.0.0")));
    assert_eq!(text(&r.semantic_latest_version), Some(String::from("1.5.0")));
}

#[test]
fn order_of_the_listing_does_not_matter() {
    let source = RegistrySource::Version(v("1.0.0"));
    let mut reversed = listing();
    reversed.reverse();
    let a = filter_update_results(&source, &listing()).unwrap();
    let b = filter_update_results(&source, &reversed).unwrap();
    assert_eq!(text(&a.latest_version), text(&b.latest_version));
    assert_eq!(text(&a.semantic_latest_version), text(&b.semantic_latest_version));
}

#[test]
fn yanked_versions_are_never_targets() {
    let source = RegistrySource::Requirement(SemVersionReq::parse("^2").unwrap());
    let r = filter_update_results(&source, &vec![cv("2.1.0", true)]).unwrap();
    assert!(r.latest_version.is_none());
    assert!(r.semantic_latest_version.is_none());
}

#[test]
fn empty_listing_gives_no_targets() {
    let source = RegistrySource::Version(v("1.0.0"));
    let r = filter_update_results(&source, &Vec::new()).unwrap();
    assert!(r.latest_version.is_none() && r.semantic_latest_version.is_none());
}

#[test]
fn installable_versions_skip_yanked() {
    let vs = installable_versions(listing());
    let texts: Vec<String> = vs.iter().map(|x| x.to_text()).collect();
    assert_eq!(texts, vec!["1.0.0", "1.4.0", "2.0.0", "1.5.0"]);
}

#[test]
fn status_up_to_date_without_targets() {
    let source = RegistrySource::Version(v("1.0.0"));
    let s = update_status(&source, Ok(UpdateResult { latest_version: None, semantic_latest_version: None }));
    assert!(matches!(s, UpdateStatus::UpToDate));
}

#[test]
fn status_up_to_date_when_the_source_accepts_both() {
    let source = RegistrySource::Requirement(SemVersionReq::parse("^1").unwrap());
    let s = update_status(
        &source,
        Ok(UpdateResult { latest_version: Some(v("1.5.0")), semantic_latest_version: Some(v("1.5.0")) }),
    );
    assert!(matches!(s, UpdateStatus::UpToDate));
}

#[test]
fn status_update_available() {
    let source = RegistrySource::Version(v("1.0.0"));
    let s = checked_status(&source, Ok(listing())).unwrap();
    match s {
        UpdateStatus::UpdateAvailable(r) => {
            assert_eq!(r.latest_version.unwrap().to_text(), "2.0.0");
            assert_eq!(r.semantic_latest_version.unwrap().to_text(), "1.5.0");
        },
        other => panic!("unexpected status {other:?}"),
    }
}

#[test]
fn status_of_a_failed_request() {
    let source = RegistrySource::Version(v("1.0.0"));
    let s = checked_status(&source, Err(CheckForUpdateError::RequestFailed)).unwrap();
    assert!(matches!(s, UpdateStatus::Error(CheckForUpdateError::RequestFailed)));
    assert_eq!(s.icon(), Icons::Error);
    assert_eq!(s.color(), Color::Red);
}

#[test]
fn status_icons_and_colors() {
    assert_eq!(UpdateStatus::Pending.icon(), Icons::Loading);
    assert_eq!(UpdateStatus::Pending.color(), Color::Gray);
    assert_eq!(UpdateStatus::UpToDate.icon(), Icons::Done);
    assert_eq!(UpdateStatus::UpToDate.color(), Color::Green);
    let only_latest = UpdateStatus::UpdateAvailable(UpdateResult {
        latest_version: Some(VersionType::Registry(v("2.0.0"))),
        semantic_latest_version: None,
    });
    assert_eq!(only_latest.icon(), Icons::Warning);
    assert_eq!(only_latest.color(), Color::Yellow);
    let compatible = UpdateStatus::UpdateAvailable(UpdateResult {
        latest_version: None,
        semantic_latest_version: Some(VersionType::Registry(v("1.1.0"))),
    });
    assert_eq!(compatible.icon(), Icons::Update);
    assert!(UpdateStatus::Pending.is_pending());
    assert!(!UpdateStatus::UpToDate.is_pending());
}

#[test]
fn icons_have_both_faces() {
    assert_eq!(Icons::Done.get_icon(false), Icons::Done.get_emoji_icon());
    assert_eq!(Icons::Done.get_icon(true), Icons::Done.get_nerd_icon());
    assert_ne!(Icons::Loading.get_emoji_icon(), Icons::Error.get_emoji_icon());
    assert_eq!(Icons::Done.get_emoji_icon(), "\u{2714}\u{fe0f}");
    assert_eq!(Icons::Warning.get_nerd_icon(), "\u{f071}");
}

#[test]
fn version_type_text_and_name() {
    let x = VersionType::Registry(v("3.1.4"));
    assert_eq!(x.to_text(), "3.1.4");
    assert_eq!(x.name(), "registry");
    assert!(x.eq_version(&v("3.1.4")));
}

#[test]
fn latest_is_the_same_whatever_the_source() {
    let a = filter_update_results(&RegistrySource::Version(v("1.0.0")), &listing()).unwrap();
    let b = filter_update_results(&RegistrySource::Requirement(SemVersionReq::parse("~2.0").unwrap()), &listing()).unwrap();
    assert_eq!(text(&a.latest_version), text(&b.latest_version));
    assert_eq!(text(&b.semantic_latest_version), Some(String::from("2.0.0")));
}
