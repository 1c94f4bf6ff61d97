use tuwui::app::{App, AppConstructionError, AppError, Effect, FocusedArea, MainFocusState};
use tuwui::event::AppEvent;
use tuwui::features::{FeaturesList, FetchFeaturesError};
use tuwui::keybinds::Keymap;
use tuwui::manifest::dependency::{DependencyCursor, DependencyKind, DependencyTableCursor};
use tuwui::manifest::Manifest;
use tuwui::ui::main::dependency::{
    DependencyKeybinds, FeaturesListKeybinds, FocusedArea as DependencyArea, VersionListKeybinds,
};
use tuwui::ui::modals::help::key_column_width;
use tuwui::ui::modals::update_dependency::UpdateDependencyModalKeybinds;
use tuwui::ui::modals::{ModalState, SelectionType};
use tuwui::ui::sidebar::{SidebarFocusState, SidebarKeybinds, SidebarRow};
use tuwui::updater::{CheckForUpdateError, DependencyUpdateError, UpdateResult, UpdateStatus, VersionType};
use tuwui::version::SemVersion;

const MANIFEST: &str = r#"[package]
name = "demo"
version = "0.1.0"

[dependencies]
serde = "1.0.100"
tokio = { version = "1", features = ["rt"] }

[dev-dependencies]
pretty = { version = "0.2.1", default-features = false }
"#;

fn app() -> App {
    App::new(Manifest::new(String::from("Cargo.toml"), MANIFEST).unwrap()).unwrap()
}

fn normal(name: &str) -> DependencyCursor {
    DependencyCursor {
        table: DependencyTableCursor { kind: DependencyKind::Normal, target: None },
        name: String::from(name),
    }
}

fn version(text: &str) -> VersionType {
    VersionType::Registry(SemVersion::parse(text).unwrap())
}

fn sidebar_on(app: &App, name: &str) -> bool {
    matches!(&app.sidebar_focus_state, SidebarFocusState::Dependency(c) if c.name == name)
}

fn top(app: &App) -> &FocusedArea {
    app.focused_area()
}

fn open(app: &mut App, name: &str) {
    app.sidebar_focus_state = SidebarFocusState::Dependency(normal(name));
    SidebarKeybinds::focus_selected(app);
}

#[test]
fn new_app_focuses_the_first_table() {
    let a = app();
    assert!(a.running);
    assert_eq!(a.focus_stack.len(), 1);
    assert!(matches!(top(&a), FocusedArea::Sidebar));
    match &a.sidebar_focus_state {
        SidebarFocusState::DependencyTable(c) => {
            assert_eq!(c.kind, DependencyKind::Normal);
            assert!(c.target.is_none());
        },
        _ => panic!("expected a table"),
    }
    assert!(a.main_focus_state.is_none());
}

#[test]
fn app_without_dependencies_is_refused() {
    let m = Manifest::new(String::from("Cargo.toml"), "[package]\nname = \"x\"\nversion = \"0.1.0\"\n").unwrap();
    assert!(matches!(App::new(m), Err(AppConstructionError::Dependencies)));
}

#[test]
fn app_with_unreadable_dependencies_is_refused() {
    let m = Manifest::new(String::from("Cargo.toml"), "[dependencies]\nfoo = 3\n").unwrap();
    assert!(matches!(App::new(m), Err(AppConstructionError::Dependencies)));
}

#[test]
fn every_dependency_is_queued_for_a_check() {
    let a = app();
    let events = a.queue_check_for_updates().unwrap();
    let names: Vec<String> = events
        .iter()
        .map(|e| match e {
            AppEvent::UpdateCheck { cursor } => cursor.name.clone(),
            _ => panic!("expected update checks"),
        })
        .collect();
    assert_eq!(names, vec!["serde", "tokio", "pretty"]);
}

#[test]
fn unreadable_manifest_fails_the_queue() {
    let mut a = app();
    a.manifest = Manifest::new(String::from("Cargo.toml"), "[dependencies]\nfoo = 3\n").unwrap();
    assert!(matches!(a.queue_check_for_updates(), Err(AppError::Event)));
}

#[test]
fn update_check_asks_the_registry_and_marks_pending() {
    let mut a = app();
    let effects = a.handle_event(AppEvent::UpdateCheck { cursor: normal("serde") }).unwrap();
    assert_eq!(effects.len(), 1);
    match &effects[0] {
        Effect::CheckRegistry { cursor, name, source } => {
            assert_eq!(cursor.name, "serde");
            assert_eq!(name, "serde");
            assert_eq!(source.to_text(), "1.0.100");
        },
        other => panic!("unexpected effect {other:?}"),
    }
    assert!(matches!(a.update_status(&normal("serde")), Some(UpdateStatus::Pending)));
}

#[test]
fn pending_check_is_not_started_again() {
    let mut a = app();
    a.handle_event(AppEvent::UpdateCheck { cursor: normal("serde") }).unwrap();
    let effects = a.handle_event(AppEvent::UpdateCheck { cursor: normal("serde") }).unwrap();
    assert!(effects.is_empty());
    assert!(matches!(a.update_status(&normal("serde")), Some(UpdateStatus::Pending)));
}

#[test]
fn check_result_is_recorded() {
    let mut a = app();
    a.handle_event(AppEvent::UpdateCheck { cursor: normal("serde") }).unwrap();
    let effects = a.handle_event(AppEvent::UpdateCheckResult { cursor: normal("serde"), result: UpdateStatus::UpToDate }).unwrap();
    assert!(effects.is_empty());
    assert!(matches!(a.update_status(&normal("serde")), Some(UpdateStatus::UpToDate)));
    assert!(a.update_status(&normal("tokio")).is_none());
}

#[test]
fn recorded_status_can_be_forgotten() {
    let mut a = app();
    a.record_status(normal("tokio"), UpdateStatus::UpToDate);
    a.record_status(normal("serde"), UpdateStatus::Error(CheckForUpdateError::RequestFailed));
    a.forget_status(&normal("serde"));
    assert!(a.update_status(&normal("serde")).is_none());
    assert!(matches!(a.update_status(&normal("tokio")), Some(UpdateStatus::UpToDate)));
}

#[test]
fn sidebar_rows_list_headers_and_dependencies() {
    let a = app();
    let rows = a.sidebar_rows();
    assert_eq!(rows.len(), 5);
    assert!(matches!(&rows[0], SidebarRow::DependencyTableHeader { collapsed: false, .. }));
    match &rows[1] {
        SidebarRow::Dependency { cursor, version, update_status } => {
            assert_eq!(cursor.name, "serde");
            assert_eq!(version, "1.0.100");
            assert!(matches!(update_status, UpdateStatus::Pending));
        },
        _ => panic!("expected a dependency"),
    }
    assert!(matches!(&rows[3], SidebarRow::DependencyTableHeader { .. }));
    assert_eq!(a.sidebar_selected_index(), Some(0));
}

#[test]
fn header_text_shows_the_arrow() {
    let c = DependencyTableCursor { kind: DependencyKind::Dev, target: None };
    assert_eq!(SidebarRow::header_text(&c, false), " \u{25bc} Dev Dependencies");
    let t = DependencyTableCursor { kind: DependencyKind::Normal, target: Some(String::from("wasm32")) };
    assert_eq!(SidebarRow::header_text(&t, true), " \u{25b6} Dependencies (wasm32)");
}

#[test]
fn down_then_up_comes_back() {
    let mut a = app();
    SidebarKeybinds::down(&mut a);
    assert!(sidebar_on(&a, "serde"));
    assert_eq!(a.sidebar_selected_index(), Some(1));
    SidebarKeybinds::down(&mut a);
    assert!(sidebar_on(&a, "tokio"));
    SidebarKeybinds::up(&mut a);
    assert!(sidebar_on(&a, "serde"));
    SidebarKeybinds::up(&mut a);
    assert!(matches!(&a.sidebar_focus_state, SidebarFocusState::DependencyTable(_)));
}

#[test]
fn up_at_the_top_and_down_at_the_bottom_stay() {
    let mut a = app();
    SidebarKeybinds::up(&mut a);
    assert_eq!(a.sidebar_selected_index(), Some(0));
    for _ in 0..10 {
        SidebarKeybinds::down(&mut a);
    }
    assert_eq!(a.sidebar_selected_index(), Some(4));
    assert!(matches!(&a.sidebar_focus_state, SidebarFocusState::Dependency(c) if c.name == "pretty"));
}

#[test]
fn up_from_an_unknown_row_goes_to_the_last() {
    let mut a = app();
    a.sidebar_focus_state = SidebarFocusState::Dependency(normal("gone"));
    assert_eq!(a.sidebar_selected_index(), None);
    SidebarKeybinds::down(&mut a);
    assert!(sidebar_on(&a, "gone"));
    SidebarKeybinds::up(&mut a);
    assert!(matches!(&a.sidebar_focus_state, SidebarFocusState::Dependency(c) if c.name == "pretty"));
}

#[test]
fn enter_on_a_header_collapses_and_expands() {
    let mut a = app();
    let effects = SidebarKeybinds::focus_selected(&mut a);
    assert!(effects.is_empty());
    let c = DependencyTableCursor { kind: DependencyKind::Normal, target: None };
    assert!(a.is_collapsed(&c));
    assert_eq!(a.sidebar_rows().len(), 3);
    SidebarKeybinds::focus_selected(&mut a);
    assert!(!a.is_collapsed(&c));
    assert_eq!(a.sidebar_rows().len(), 5);
}

#[test]
fn enter_on_a_dependency_opens_it() {
    let mut a = app();
    SidebarKeybinds::down(&mut a);
    let effects = SidebarKeybinds::focus_selected(&mut a);
    assert_eq!(effects.len(), 2);
    assert!(matches!(&effects[0], Effect::Send(AppEvent::LoadDependencyVersions(c)) if c.name == "serde"));
    assert!(matches!(&effects[1], Effect::Send(AppEvent::LoadDependencyFeatures(c)) if c.name == "serde"));
    assert!(matches!(top(&a), FocusedArea::Main));
    assert_eq!(a.get_area_subkeybinds(), Keymap::Dependency);
    a.close();
    assert!(matches!(top(&a), FocusedArea::Sidebar));
    assert!(a.running);
}

#[test]
fn help_then_close_gives_back_the_state() {
    let mut a = app();
    assert_eq!(a.get_area_subkeybinds(), Keymap::Sidebar);
    a.help();
    assert_eq!(a.focus_stack.len(), 2);
    match top(&a) {
        FocusedArea::Modal(ModalState::Help(h)) => assert_eq!(h.area_binds, Keymap::Sidebar),
        _ => panic!("expected the help window"),
    }
    assert_eq!(a.get_area_subkeybinds(), Keymap::Empty);
    a.close();
    assert_eq!(a.focus_stack.len(), 1);
    assert!(a.running);
}

#[test]
fn closing_the_last_area_stops_the_app() {
    let mut a = app();
    a.close();
    assert!(!a.running);
    assert!(a.focus_stack.is_empty());
}

#[test]
fn quit_stops_the_app() {
    let mut a = app();
    a.quit();
    assert!(!a.running);
    assert_eq!(a.focus_stack.len(), 1);
}

#[test]
fn load_versions_asks_the_registry() {
    let mut a = app();
    let effects = a.handle_event(AppEvent::LoadDependencyVersions(normal("tokio"))).unwrap();
    assert!(matches!(&effects[0], Effect::LoadRegistryVersions { name } if name == "tokio"));
    let effects = a.handle_event(AppEvent::LoadDependencyFeatures(normal("tokio"))).unwrap();
    assert!(matches!(&effects[0], Effect::LoadFeatures { cursor } if cursor.name == "tokio"));
}

fn loaded_versions(a: &mut App, vs: &[&str]) {
    let versions = vs.iter().map(|v| version(v)).collect();
    a.handle_event(AppEvent::UpdateDependencyVersions { versions: Ok(versions) }).unwrap();
}

fn selected(a: &App) -> DependencyArea {
    match &a.main_focus_state {
        Some(MainFocusState::Dependency { focused_area, .. }) => *focused_area,
        None => panic!("nothing open"),
    }
}

#[test]
fn versions_are_stored_and_walked_in_a_ring() {
    let mut a = app();
    open(&mut a, "serde");
    loaded_versions(&mut a, &["1.0.100", "1.0.150", "1.0.200"]);
    DependencyKeybinds::focus_versions(&mut a);
    assert_eq!(selected(&a), DependencyArea::Versions { selected: 0 });
    assert_eq!(a.get_area_subkeybinds(), Keymap::VersionList);
    VersionListKeybinds::previous_version(&mut a);
    assert_eq!(selected(&a), DependencyArea::Versions { selected: 2 });
    VersionListKeybinds::next_version(&mut a);
    assert_eq!(selected(&a), DependencyArea::Versions { selected: 0 });
    VersionListKeybinds::next_version(&mut a);
    VersionListKeybinds::next_version(&mut a);
    VersionListKeybinds::next_version(&mut a);
    assert_eq!(selected(&a), DependencyArea::Versions { selected: 0 });
    VersionListKeybinds::close_versions(&mut a);
    assert_eq!(selected(&a), DependencyArea::Main);
}

#[test]
fn version_walk_before_loading_stays() {
    let mut a = app();
    open(&mut a, "serde");
    DependencyKeybinds::focus_versions(&mut a);
    VersionListKeybinds::next_version(&mut a);
    assert_eq!(selected(&a), DependencyArea::Versions { selected: 0 });
}

#[test]
fn set_version_writes_and_rechecks() {
    let mut a = app();
    open(&mut a, "serde");
    loaded_versions(&mut a, &["1.0.100", "1.0.150"]);
    DependencyKeybinds::focus_versions(&mut a);
    VersionListKeybinds::next_version(&mut a);
    let effects = VersionListKeybinds::set_version(&mut a).unwrap();
    assert_eq!(effects.len(), 2);
    assert!(matches!(effects[0], Effect::Save));
    assert!(matches!(&effects[1], Effect::Send(AppEvent::UpdateCheck { cursor }) if cursor.name == "serde"));
    let d = a.manifest.resolve_dependency(&normal("serde")).unwrap().unwrap();
    assert_eq!(d.source().to_text(), "1.0.150");
    let (current, update) = a.version_marks(&version("1.0.150"));
    assert!(current);
    assert!(!update);
}

#[test]
fn failed_version_load_is_kept() {
    let mut a = app();
    open(&mut a, "serde");
    a.handle_event(AppEvent::UpdateDependencyVersions { versions: Err(CheckForUpdateError::DeserializationFailed) }).unwrap();
    match &a.main_focus_state {
        Some(MainFocusState::Dependency { versions: Some(Err(e)), .. }) => {
            assert_eq!(*e, CheckForUpdateError::DeserializationFailed)
        },
        _ => panic!("expected the error"),
    }
}

#[test]
fn version_marks_show_update_targets() {
    let mut a = app();
    open(&mut a, "serde");
    a.record_status(
        normal("serde"),
        UpdateStatus::UpdateAvailable(UpdateResult {
            latest_version: Some(version("2.0.0")),
            semantic_latest_version: Some(version("1.0.200")),
        }),
    );
    assert_eq!(a.version_marks(&version("1.0.100")), (true, false));
    assert_eq!(a.version_marks(&version("2.0.0")), (false, true));
    assert_eq!(a.version_marks(&version("1.0.200")), (false, true));
    assert_eq!(a.version_marks(&version("1.0.150")), (false, false));
}

#[test]
fn default_features_toggle_twice_is_back() {
    let mut a = app();
    open(&mut a, "serde");
    let effects = DependencyKeybinds::toggle_default_features(&mut a).unwrap();
    assert!(matches!(effects.as_slice(), [Effect::Save]));
    assert!(!a.manifest.resolve_dependency(&normal("serde")).unwrap().unwrap().default_features());
    FeaturesListKeybinds::toggle_default_features(&mut a).unwrap();
    assert!(a.manifest.resolve_dependency(&normal("serde")).unwrap().unwrap().default_features());
}

fn tokio_features() -> FeaturesList {
    let mut f = FeaturesList::new();
    f.insert(String::from("default"), Vec::new());
    f.insert(String::from("full"), vec![String::from("rt"), String::from("macros")]);
    f.insert(String::from("macros"), Vec::new());
    f.insert(String::from("rt"), Vec::new());
    f
}

#[test]
fn toggling_a_feature_flips_it() {
    let mut a = app();
    open(&mut a, "tokio");
    a.handle_event(AppEvent::UpdateDependencyFeatures { features: Ok(tokio_features()) }).unwrap();
    DependencyKeybinds::focus_features(&mut a);
    assert_eq!(a.get_area_subkeybinds(), Keymap::FeaturesList);
    // The list without `default` is full, macros, rt: select macros.
    FeaturesListKeybinds::next_feature(&mut a);
    FeaturesListKeybinds::next_feature(&mut a);
    assert_eq!(selected(&a), DependencyArea::Features { selected: 2 });
    FeaturesListKeybinds::previous_feature(&mut a);
    assert_eq!(selected(&a), DependencyArea::Features { selected: 1 });
    let effects = FeaturesListKeybinds::toggle_selected_feature(&mut a).unwrap();
    assert!(matches!(effects.as_slice(), [Effect::Save]));
    let d = a.manifest.resolve_dependency(&normal("tokio")).unwrap().unwrap();
    assert_eq!(d.features().unwrap(), &vec![String::from("rt"), String::from("macros")]);
    FeaturesListKeybinds::toggle_selected_feature(&mut a).unwrap();
    let d = a.manifest.resolve_dependency(&normal("tokio")).unwrap().unwrap();
    assert_eq!(d.features().unwrap(), &vec![String::from("rt")]);
    FeaturesListKeybinds::close_versions(&mut a);
    assert_eq!(selected(&a), DependencyArea::Main);
}

#[test]
fn shown_features_graph_marks_implied_features() {
    let mut a = app();
    open(&mut a, "tokio");
    assert!(a.shown_features_graph().is_none());
    let mut f = tokio_features();
    f.insert(String::from("rt"), vec![String::from("macros")]);
    a.handle_event(AppEvent::UpdateDependencyFeatures { features: Ok(f) }).unwrap();
    let g = a.shown_features_graph().unwrap().unwrap();
    assert_eq!(g.get("macros").unwrap(), &vec![String::from("rt")]);
    assert!(g.get("full").unwrap().is_empty());
}

#[test]
fn failed_feature_load_is_shown() {
    let mut a = app();
    open(&mut a, "tokio");
    a.handle_event(AppEvent::UpdateDependencyFeatures { features: Err(FetchFeaturesError::NotFound) }).unwrap();
    assert!(matches!(a.shown_features_graph(), Some(Err(FetchFeaturesError::NotFound))));
}

fn update_available() -> UpdateStatus {
    UpdateStatus::UpdateAvailable(UpdateResult {
        latest_version: Some(version("2.0.0")),
        semantic_latest_version: Some(version("1.0.200")),
    })
}

fn window_selection(a: &App) -> SelectionType {
    match top(a) {
        FocusedArea::Modal(ModalState::UpdateDependency(w)) => w.selected,
        _ => panic!("expected the update window"),
    }
}

#[test]
fn update_opens_the_window_and_buttons_ring() {
    let mut a = app();
    a.sidebar_focus_state = SidebarFocusState::Dependency(normal("serde"));
    a.record_status(normal("serde"), update_available());
    assert!(SidebarKeybinds::update(&mut a).is_none());
    assert_eq!(a.get_area_subkeybinds(), Keymap::UpdateDependencyModal);
    assert_eq!(window_selection(&a), SelectionType::Cancel);
    UpdateDependencyModalKeybinds::right(&mut a);
    assert_eq!(window_selection(&a), SelectionType::SemverCompatible);
    UpdateDependencyModalKeybinds::right(&mut a);
    assert_eq!(window_selection(&a), SelectionType::Latest);
    UpdateDependencyModalKeybinds::right(&mut a);
    assert_eq!(window_selection(&a), SelectionType::Cancel);
    UpdateDependencyModalKeybinds::left(&mut a);
    assert_eq!(window_selection(&a), SelectionType::Latest);
    UpdateDependencyModalKeybinds::left(&mut a);
    assert_eq!(window_selection(&a), SelectionType::SemverCompatible);
}

#[test]
fn window_buttons_and_texts() {
    let mut a = app();
    a.sidebar_focus_state = SidebarFocusState::Dependency(normal("serde"));
    a.record_status(normal("serde"), update_available());
    SidebarKeybinds::update(&mut a);
    match top(&a) {
        FocusedArea::Modal(ModalState::UpdateDependency(w)) => {
            let labels: Vec<String> = w.buttons().into_iter().map(|b| b.0).collect();
            assert_eq!(labels, vec!["Cancel", "Compatible (1.0.200)", "Latest (2.0.0)"]);
            assert_eq!(w.selected_version_text(), "[N/A]");
            assert!(w.selected_version().is_none());
        },
        _ => panic!("expected the update window"),
    }
}

#[test]
fn enter_on_a_version_asks_for_the_update() {
    let mut a = app();
    a.sidebar_focus_state = SidebarFocusState::Dependency(normal("serde"));
    a.record_status(normal("serde"), update_available());
    SidebarKeybinds::update(&mut a);
    UpdateDependencyModalKeybinds::right(&mut a);
    let e = UpdateDependencyModalKeybinds::enter(&mut a).unwrap();
    match e {
        Effect::Send(AppEvent::UpdateDependency { cursor, version }) => {
            assert_eq!(cursor.name, "serde");
            assert_eq!(version.to_text(), "1.0.200");
        },
        other => panic!("unexpected effect {other:?}"),
    }
    assert_eq!(a.focus_stack.len(), 2);
}

#[test]
fn enter_on_cancel_closes_the_window() {
    let mut a = app();
    a.sidebar_focus_state = SidebarFocusState::Dependency(normal("serde"));
    a.record_status(normal("serde"), update_available());
    SidebarKeybinds::update(&mut a);
    assert!(UpdateDependencyModalKeybinds::enter(&mut a).is_none());
    assert_eq!(a.focus_stack.len(), 1);
}

#[test]
fn window_with_only_a_latest_version() {
    let mut a = app();
    a.sidebar_focus_state = SidebarFocusState::Dependency(normal("serde"));
    a.record_status(
        normal("serde"),
        UpdateStatus::UpdateAvailable(UpdateResult { latest_version: Some(version("2.0.0")), semantic_latest_version: None }),
    );
    SidebarKeybinds::update(&mut a);
    UpdateDependencyModalKeybinds::right(&mut a);
    assert_eq!(window_selection(&a), SelectionType::Latest);
    UpdateDependencyModalKeybinds::right(&mut a);
    assert_eq!(window_selection(&a), SelectionType::Cancel);
    UpdateDependencyModalKeybinds::left(&mut a);
    assert_eq!(window_selection(&a), SelectionType::Latest);
}

fn error_window(a: &App) -> DependencyUpdateError {
    match top(a) {
        FocusedArea::Modal(ModalState::DependencyUpdateError(e, _)) => *e,
        _ => panic!("expected an error window"),
    }
}

#[test]
fn update_without_a_check_says_no_update() {
    let mut a = app();
    a.sidebar_focus_state = SidebarFocusState::Dependency(normal("serde"));
    assert!(SidebarKeybinds::update(&mut a).is_none());
    assert!(matches!(error_window(&a), DependencyUpdateError::NoUpdate));
}

#[test]
fn update_while_pending_says_so() {
    let mut a = app();
    a.sidebar_focus_state = SidebarFocusState::Dependency(normal("serde"));
    a.record_status(normal("serde"), UpdateStatus::Pending);
    SidebarKeybinds::update(&mut a);
    assert!(matches!(error_window(&a), DependencyUpdateError::Pending));
}

#[test]
fn update_when_up_to_date_says_no_update() {
    let mut a = app();
    a.sidebar_focus_state = SidebarFocusState::Dependency(normal("serde"));
    a.record_status(normal("serde"), UpdateStatus::UpToDate);
    SidebarKeybinds::update(&mut a);
    assert!(matches!(error_window(&a), DependencyUpdateError::NoUpdate));
}

#[test]
fn update_after_a_failed_check_checks_again() {
    let mut a = app();
    a.sidebar_focus_state = SidebarFocusState::Dependency(normal("serde"));
    a.record_status(normal("serde"), UpdateStatus::Error(CheckForUpdateError::RequestFailed));
    let e = SidebarKeybinds::update(&mut a).unwrap();
    assert!(matches!(e, Effect::Send(AppEvent::UpdateCheck { cursor }) if cursor.name == "serde"));
    assert!(matches!(error_window(&a), DependencyUpdateError::UpdateCheckError));
    assert!(matches!(
        top(&a),
        FocusedArea::Modal(ModalState::DependencyUpdateError(_, Some(CheckForUpdateError::RequestFailed)))
    ));
    assert!(a.update_status(&normal("serde")).is_none());
}

#[test]
fn update_on_a_header_does_nothing() {
    let mut a = app();
    assert!(SidebarKeybinds::update(&mut a).is_none());
    assert_eq!(a.focus_stack.len(), 1);
}

#[test]
fn update_dependency_writes_the_version() {
    let mut a = app();
    a.update_dependency(&normal("tokio"), &version("1.40.0")).unwrap();
    let d = a.manifest.resolve_dependency(&normal("tokio")).unwrap().unwrap();
    assert_eq!(d.source().to_text(), "1.40.0");
    assert!(a.manifest.text().contains("version = \"1.40.0\""));
}

#[test]
fn update_event_writes_saves_rechecks_and_closes() {
    let mut a = app();
    a.sidebar_focus_state = SidebarFocusState::Dependency(normal("serde"));
    a.record_status(normal("serde"), update_available());
    SidebarKeybinds::update(&mut a);
    assert_eq!(a.focus_stack.len(), 2);
    let effects =
        a.handle_event(AppEvent::UpdateDependency { cursor: normal("serde"), version: version("1.0.200") }).unwrap();
    assert_eq!(effects.len(), 2);
    assert!(matches!(effects[0], Effect::Save));
    assert!(matches!(&effects[1], Effect::CheckRegistry { name, .. } if name == "serde"));
    assert_eq!(a.focus_stack.len(), 1);
    assert!(matches!(a.update_status(&normal("serde")), Some(UpdateStatus::Pending)));
    let d = a.manifest.resolve_dependency(&normal("serde")).unwrap().unwrap();
    assert_eq!(d.source().to_text(), "1.0.200");
}

#[test]
fn update_event_on_an_entry_that_takes_no_version_fails() {
    let mut a = app();
    a.manifest = Manifest::new(String::from("Cargo.toml"), "[dependencies]\nfoo = 3\n").unwrap();
    let r = a.handle_event(AppEvent::UpdateDependency { cursor: normal("foo"), version: version("1.0.0") });
    assert!(matches!(r, Err(AppError::Event)));
    assert_eq!(a.focus_stack.len(), 1);
    assert!(a.manifest.text().contains("foo = 3"));
}

#[test]
fn unknown_dependency_is_not_handled() {
    let mut a = app();
    assert!(a.try_handle_event(AppEvent::UpdateCheck { cursor: normal("missing") }).is_none());
    assert!(a.update_status(&normal("missing")).is_none());
    assert!(a.try_handle_event(AppEvent::LoadDependencyVersions(normal("missing"))).is_none());
    let update = AppEvent::UpdateDependency { cursor: normal("missing"), version: version("1.0.0") };
    assert!(a.try_handle_event(update).is_none());
}

#[test]
fn known_dependency_is_handled() {
    let mut a = app();
    let effects = a.try_handle_event(AppEvent::UpdateCheck { cursor: normal("serde") }).unwrap().unwrap();
    assert_eq!(effects.len(), 1);
    assert!(matches!(a.update_status(&normal("serde")), Some(UpdateStatus::Pending)));
    let update = AppEvent::UpdateDependency { cursor: normal("tokio"), version: version("1.2.0") };
    let effects = a.try_handle_event(update).unwrap().unwrap();
    assert!(matches!(effects[0], Effect::Save));
    let d = a.manifest.resolve_dependency(&normal("tokio")).unwrap().unwrap();
    assert_eq!(d.source().to_text(), "1.2.0");
}

#[test]
fn sidebar_rows_are_named_by_different_selections() {
    let a = app();
    let rows = a.sidebar_rows();
    for i in 0..rows.len() {
        for j in (i + 1)..rows.len() {
            assert!(!rows[i].matches(&rows[j].focus()));
        }
    }
}

#[test]
fn help_key_column_width() {
    assert_eq!(key_column_width(&Vec::new()), 3);
    assert_eq!(key_column_width(&vec![vec![1, 1]]), 4);
    assert_eq!(key_column_width(&vec![vec![5], vec![2, 2, 2]]), 10);
    assert_eq!(key_column_width(&vec![vec![usize::MAX]]), u16::MAX);
}
