//! The application's state and the decisions of its event loop.

use vstd::prelude::*;

use crate::assoc::{assoc_get, assoc_map, assoc_without, lemma_assoc_replace, lemma_assoc_remove};
use crate::event::AppEvent;
use crate::features::{FeatureEntries, FeaturesList, FetchFeaturesError};
use crate::keybinds::close_spec;
use crate::manifest::dependency::{
    source_from_text, DependencyCursor, DependencyCursorView, DependencyTableCursor, DependencyTableView,
    DependencyView, RegistrySource, RegistrySourceView, Source, SourceView, TableCursorView,
};
use crate::manifest::{
    cursor_path, law_set_version_reads_back, manifest_tables, resolved_dependency, set_version_effect, version_type_text,
    Manifest, Nodes, Order,
};
use crate::toml::node_at;
use crate::ui::main::dependency::FocusedArea as DependencyArea;
use crate::ui::modals::{ModalState, ModalView};
use crate::ui::sidebar::{SidebarFocusState, SidebarFocusView};
use crate::updater::{
    CheckForUpdateError, DependencyUpdateError, UpdateStatus, UpdateStatusView, VersionType, VersionTypeView,
};

verus! {

/// What the main area shows.
#[derive(Debug)]
pub enum MainFocusState {
    /// A dependency, with its versions and features once they are loaded.
    Dependency {
        cursor: DependencyCursor,
        versions: Option<Result<Vec<VersionType>, CheckForUpdateError>>,
        features: Option<Result<FeaturesList, FetchFeaturesError>>,
        focused_area: DependencyArea,
    },
}

pub struct MainFocusView {
    pub cursor: DependencyCursorView,
    pub versions: Option<Result<Seq<VersionTypeView>, CheckForUpdateError>>,
    pub features: Option<Result<FeatureEntries, FetchFeaturesError>>,
    pub focused_area: DependencyArea,
}

pub open spec fn versions_view(v: Option<Result<Vec<VersionType>, CheckForUpdateError>>) -> Option<
    Result<Seq<VersionTypeView>, CheckForUpdateError>,
> {
    match v {
        Some(Ok(vs)) => Some(Ok(vs@.map_values(|x: VersionType| x@))),
        Some(Err(e)) => Some(Err(e)),
        None => None,
    }
}

pub open spec fn features_view(f: Option<Result<FeaturesList, FetchFeaturesError>>) -> Option<
    Result<FeatureEntries, FetchFeaturesError>,
> {
    match f {
        Some(Ok(fs)) => Some(Ok(fs@)),
        Some(Err(e)) => Some(Err(e)),
        None => None,
    }
}

impl View for MainFocusState {
    type V = MainFocusView;

    open spec fn view(&self) -> MainFocusView {
        match self {
            MainFocusState::Dependency { cursor, versions, features, focused_area } => MainFocusView {
                cursor: cursor@,
                versions: versions_view(*versions),
                features: features_view(*features),
                focused_area: *focused_area,
            },
        }
    }
}

/// An area of the interface that can hold the focus.
#[derive(Debug)]
pub enum FocusedArea {
    Sidebar,
    Main,
    /// Windows are always on top, so they always hold the focus while open.
    Modal(ModalState),
}

pub enum FocusedAreaView {
    Sidebar,
    Main,
    Modal(ModalView),
}

impl View for FocusedArea {
    type V = FocusedAreaView;

    open spec fn view(&self) -> FocusedAreaView {
        match self {
            FocusedArea::Sidebar => FocusedAreaView::Sidebar,
            FocusedArea::Main => FocusedAreaView::Main,
            FocusedArea::Modal(m) => FocusedAreaView::Modal(m@),
        }
    }
}

/// Errors that can occur during application execution.
#[derive(Debug, Clone, Copy, PartialEq, Eq, Structural)]
pub enum AppError {
    /// Failed to render the terminal
    Render,
    /// Failed to handle an event
    Event,
}

/// Errors that can occur during application construction.
#[derive(Debug, Clone, Copy, PartialEq, Eq, Structural)]
pub enum AppConstructionError {
    /// Failed to load the manifest file
    Manifest,
    /// Failed to load the dependencies
    Dependencies,
    /// Failed to create the HTTP client
    Client,
}

/// Work that the event loop does for the state: sending an event back to itself, or
/// reaching outside (the registry, the workspace metadata, the manifest file).
#[derive(Debug)]
pub enum Effect {
    /// Queue an application event.
    Send(AppEvent),
    /// Ask the registry for the versions of the crate `name`, and report the status that
    /// they give the dependency at `cursor` in an `UpdateCheckResult`.
    CheckRegistry { cursor: DependencyCursor, name: String, source: RegistrySource },
    /// Ask the registry for the versions of the crate `name`, and report those that can be
    /// installed in an `UpdateDependencyVersions`.
    LoadRegistryVersions { name: String },
    /// Read the workspace metadata, and report the features of the dependency at `cursor`
    /// in an `UpdateDependencyFeatures`.
    LoadFeatures { cursor: DependencyCursor },
    /// Write the manifest back to its file.
    Save,
}

pub enum AppEventView {
    UpdateCheck { cursor: DependencyCursorView },
    UpdateCheckResult { cursor: DependencyCursorView, result: UpdateStatusView },
    UpdateDependency { cursor: DependencyCursorView, version: VersionTypeView },
    LoadDependencyVersions(DependencyCursorView),
    LoadDependencyFeatures(DependencyCursorView),
    UpdateDependencyVersions { versions: Result<Seq<VersionTypeView>, CheckForUpdateError> },
    UpdateDependencyFeatures { features: Result<FeatureEntries, FetchFeaturesError> },
}

impl View for AppEvent {
    type V = AppEventView;

    open spec fn view(&self) -> AppEventView {
        match self {
            AppEvent::UpdateCheck { cursor } => AppEventView::UpdateCheck { cursor: cursor@ },
            AppEvent::UpdateCheckResult { cursor, result } => AppEventView::UpdateCheckResult {
                cursor: cursor@,
                result: result@,
            },
            AppEvent::UpdateDependency { cursor, version } => AppEventView::UpdateDependency {
                cursor: cursor@,
                version: version@,
            },
            AppEvent::LoadDependencyVersions(c) => AppEventView::LoadDependencyVersions(c@),
            AppEvent::LoadDependencyFeatures(c) => AppEventView::LoadDependencyFeatures(c@),
            AppEvent::UpdateDependencyVersions { versions } => AppEventView::UpdateDependencyVersions {
                versions: match versions {
                    Ok(vs) => Ok(vs@.map_values(|x: VersionType| x@)),
                    Err(e) => Err(*e),
                },
            },
            AppEvent::UpdateDependencyFeatures { features } => AppEventView::UpdateDependencyFeatures {
                features: match features {
                    Ok(fs) => Ok(fs@),
                    Err(e) => Err(*e),
                },
            },
        }
    }
}

pub enum EffectView {
    Send(AppEventView),
    CheckRegistry { cursor: DependencyCursorView, name: Seq<char>, source: RegistrySourceView },
    LoadRegistryVersions { name: Seq<char> },
    LoadFeatures { cursor: DependencyCursorView },
    Save,
}

impl View for Effect {
    type V = EffectView;

    open spec fn view(&self) -> EffectView {
        match self {
            Effect::Send(e) => EffectView::Send(e@),
            Effect::CheckRegistry { cursor, name, source } => EffectView::CheckRegistry {
                cursor: cursor@,
                name: name@,
                source: source@,
            },
            Effect::LoadRegistryVersions { name } => EffectView::LoadRegistryVersions { name: name@ },
            Effect::LoadFeatures { cursor } => EffectView::LoadFeatures { cursor: cursor@ },
            Effect::Save => EffectView::Save,
        }
    }
}

/// Application.
pub struct App {
    /// Is the application running?
    pub running: bool,
    /// The manifest file.
    pub manifest: Manifest,
    /// The collapsed state of each dependency table section.
    pub collapsed_sections: Vec<(DependencyTableCursor, bool)>,
    /// The current focus state of the sidebar.
    pub sidebar_focus_state: SidebarFocusState,
    /// The current focus state of the main content area.
    pub main_focus_state: Option<MainFocusState>,
    /// Update check results for each dependency.
    pub update_cache: Vec<(DependencyCursor, UpdateStatus)>,
    /// The stack of current and previously focused areas.
    pub focus_stack: Vec<FocusedArea>,
}

pub struct ManifestView {
    pub nodes: Nodes,
    pub order: Order,
    pub path: Seq<char>,
}

pub struct AppView {
    pub running: bool,
    pub manifest: ManifestView,
    pub collapsed: Map<TableCursorView, bool>,
    pub sidebar: SidebarFocusView,
    pub main: Option<MainFocusView>,
    pub cache: Map<DependencyCursorView, UpdateStatusView>,
    pub stack: Seq<FocusedAreaView>,
}

pub open spec fn manifest_view(m: Manifest) -> ManifestView {
    ManifestView { nodes: m.nodes(), order: m.order(), path: m.path_spec() }
}

pub open spec fn collapsed_entries(s: Seq<(DependencyTableCursor, bool)>) -> Seq<(TableCursorView, bool)> {
    s.map_values(|e: (DependencyTableCursor, bool)| (e.0@, e.1))
}

pub open spec fn cache_entries(s: Seq<(DependencyCursor, UpdateStatus)>) -> Seq<(DependencyCursorView, UpdateStatusView)> {
    s.map_values(|e: (DependencyCursor, UpdateStatus)| (e.0@, e.1@))
}

pub open spec fn stack_view(s: Seq<FocusedArea>) -> Seq<FocusedAreaView> {
    s.map_values(|a: FocusedArea| a@)
}

pub open spec fn main_view(m: Option<MainFocusState>) -> Option<MainFocusView> {
    match m {
        Some(s) => Some(s@),
        None => None,
    }
}

impl View for App {
    type V = AppView;

    open spec fn view(&self) -> AppView {
        AppView {
            running: self.running,
            manifest: manifest_view(self.manifest),
            collapsed: assoc_map(collapsed_entries(self.collapsed_sections@)),
            sidebar: self.sidebar_focus_state@,
            main: main_view(self.main_focus_state),
            cache: assoc_map(cache_entries(self.update_cache@)),
            stack: stack_view(self.focus_stack@),
        }
    }
}

/// The name under which a dependency is published.
pub open spec fn resolved_name_spec(d: DependencyView) -> Seq<char> {
    match d.package {
        Some(p) => p,
        None => d.name,
    }
}

/// What checking the dependency `d` at `c` for updates asks for: the registry, for a
/// registry dependency; an up-to-date report, for a path dependency.
pub open spec fn check_effect(c: DependencyCursorView, d: DependencyView) -> EffectView {
    match d.source {
        SourceView::Registry(rs) => EffectView::CheckRegistry { cursor: c, name: resolved_name_spec(d), source: rs },
        _ => EffectView::Send(AppEventView::UpdateCheckResult { cursor: c, result: UpdateStatusView::UpToDate }),
    }
}

/// What loading the versions of the dependency `d` asks for: the registry's versions, for
/// a registry dependency; an error report otherwise.
pub open spec fn versions_effect(d: DependencyView) -> EffectView {
    match d.source {
        SourceView::Registry(_) => EffectView::LoadRegistryVersions { name: resolved_name_spec(d) },
        _ => EffectView::Send(
            AppEventView::UpdateDependencyVersions { versions: Err(CheckForUpdateError::UnsupportedDependency) },
        ),
    }
}

/// One update check per dependency, table by table, in order.
pub open spec fn update_checks(ts: Seq<DependencyTableView>) -> Seq<AppEventView>
    decreases ts.len(),
{
    if ts.len() == 0 {
        Seq::empty()
    } else {
        let t = ts.last();
        update_checks(ts.drop_last()) + t.deps.map_values(
            |d: DependencyView| AppEventView::UpdateCheck { cursor: DependencyCursorView { table: t.cursor, name: d.name } },
        )
    }
}


/// The state once the versions of the shown dependency were loaded.
pub open spec fn with_versions(a: AppView, v: Result<Seq<VersionTypeView>, CheckForUpdateError>) -> AppView {
    match a.main {
        Some(m) => AppView { main: Some(MainFocusView { versions: Some(v), ..m }), ..a },
        None => a,
    }
}

/// The state once the features of the shown dependency were loaded.
pub open spec fn with_features(a: AppView, f: Result<FeatureEntries, FetchFeaturesError>) -> AppView {
    match a.main {
        Some(m) => AppView { main: Some(MainFocusView { features: Some(f), ..m }), ..a },
        None => a,
    }
}

/// Whether a check of the dependency at `c` is pending.
pub open spec fn pending(a: AppView, c: DependencyCursorView) -> bool {
    a.cache.contains_key(c) && a.cache[c] is Pending
}

/// Whether the dependency at `c` can be read from the manifest, or its check is pending.
pub open spec fn checkable(a: AppView, c: DependencyCursorView) -> bool {
    pending(a, c) || resolved_dependency(a.manifest.nodes, c) matches Ok(Some(_))
}

/// The state once a check of the dependency at `c` was asked for: pending, unless it was.
pub open spec fn check_started(a: AppView, c: DependencyCursorView) -> AppView {
    if pending(a, c) {
        a
    } else {
        AppView { cache: a.cache.insert(c, UpdateStatusView::Pending), ..a }
    }
}

/// What asking for a check of the dependency at `c` asks for: nothing where one is pending.
pub open spec fn check_effects(a: AppView, c: DependencyCursorView) -> Seq<EffectView> {
    if pending(a, c) {
        Seq::empty()
    } else {
        seq![check_effect(c, resolved_dependency(a.manifest.nodes, c)->Ok_0->0)]
    }
}

/// The state with the manifest's contents replaced by an edit's outcome.
pub open spec fn with_contents(a: AppView, edit: (Nodes, Order)) -> AppView {
    AppView { manifest: ManifestView { nodes: edit.0, order: edit.1, ..a.manifest }, ..a }
}

/// Setting the version of the dependency at `c` to `v`, where its entry can be edited.
pub open spec fn version_edit(a: AppView, c: DependencyCursorView, v: VersionTypeView) -> Option<(Nodes, Order)> {
    set_version_effect(a.manifest.nodes, a.manifest.order, cursor_path(c), version_type_text(v))
}

/// What handling an event asks of its caller: the dependency it names can be read, where
/// the event needs it; for an update, the entry exists, and once updated it can be read
/// again to be checked, unless its check is pending.
pub open spec fn handles(a: AppView, e: AppEventView) -> bool {
    match e {
        AppEventView::UpdateCheck { cursor } => checkable(a, cursor),
        AppEventView::LoadDependencyVersions(c) => resolved_dependency(a.manifest.nodes, c) matches Ok(Some(_)),
        AppEventView::UpdateDependency { cursor, version } => {
            &&& node_at(a.manifest.nodes, cursor_path(cursor)) is Some
            &&& version_edit(a, cursor, version) is Some ==> pending(a, cursor) || source_from_text(
                version_type_text(version),
            ) is Some
        },
        _ => true,
    }
}

/// Whether an event can be handled as it stands: as `handles` asks, with an update asking,
/// beyond an existing entry, that the new version's text reads back as a source unless a
/// check of the dependency is pending, whether or not the entry takes the version.
pub open spec fn can_handle(a: AppView, e: AppEventView) -> bool {
    match e {
        AppEventView::UpdateDependency { cursor, version } => {
            &&& node_at(a.manifest.nodes, cursor_path(cursor)) is Some
            &&& pending(a, cursor) || source_from_text(version_type_text(version)) is Some
        },
        _ => handles(a, e),
    }
}

/// Whether handling the event fails: an update of an entry that cannot take a version.
pub open spec fn handling_fails(a: AppView, e: AppEventView) -> bool {
    match e {
        AppEventView::UpdateDependency { cursor, version } => version_edit(a, cursor, version) is None,
        _ => false,
    }
}

/// The state once an event was handled. An update sets the version, checks the dependency
/// again and closes the update window.
pub open spec fn handled_spec(a: AppView, e: AppEventView) -> AppView {
    match e {
        AppEventView::UpdateCheck { cursor } => check_started(a, cursor),
        AppEventView::UpdateCheckResult { cursor, result } => AppView { cache: a.cache.insert(cursor, result), ..a },
        AppEventView::UpdateDependency { cursor, version } => match version_edit(a, cursor, version) {
            Some(edit) => close_spec(check_started(with_contents(a, edit), cursor)),
            None => a,
        },
        AppEventView::UpdateDependencyVersions { versions } => with_versions(a, versions),
        AppEventView::UpdateDependencyFeatures { features } => with_features(a, features),
        _ => a,
    }
}

/// What handling an event asks for. An update asks for the manifest to be saved first.
pub open spec fn handled_effects(a: AppView, e: AppEventView) -> Seq<EffectView> {
    match e {
        AppEventView::UpdateCheck { cursor } => check_effects(a, cursor),
        AppEventView::UpdateDependency { cursor, version } => match version_edit(a, cursor, version) {
            Some(edit) => seq![EffectView::Save] + check_effects(with_contents(a, edit), cursor),
            None => Seq::empty(),
        },
        AppEventView::LoadDependencyVersions(c) => seq![
            versions_effect(resolved_dependency(a.manifest.nodes, c)->Ok_0->0),
        ],
        AppEventView::LoadDependencyFeatures(c) => seq![EffectView::LoadFeatures { cursor: c }],
        _ => Seq::empty(),
    }
}

/// An update that goes through leaves the dependency reading its source from the new
/// version's text, closes the area on top (the update window), and checks the dependency
/// again.
pub proof fn law_update_reads_back(a: AppView, c: DependencyCursorView, v: VersionTypeView)
    requires
        version_edit(a, c, v) is Some,
        source_from_text(version_type_text(v)) is Some,
    ensures
        ({
            let b = handled_spec(a, AppEventView::UpdateDependency { cursor: c, version: v });
            &&& resolved_dependency(b.manifest.nodes, c) matches Ok(Some(d)) && d.source == source_from_text(
                version_type_text(v),
            )->0
            &&& a.stack.len() > 0 ==> b.stack == a.stack.drop_last()
            &&& pending(b, c)
        }),
{
    law_set_version_reads_back(a.manifest.nodes, a.manifest.order, c, version_type_text(v));
}

/// A reported check result is what the state then records for the dependency.
pub proof fn law_result_is_recorded(a: AppView, c: DependencyCursorView, s: UpdateStatusView)
    ensures
        handled_spec(a, AppEventView::UpdateCheckResult { cursor: c, result: s }).cache[c] == s,
        handled_spec(a, AppEventView::UpdateCheckResult { cursor: c, result: s }).cache.contains_key(c),
{
}

/// A check that is pending is not started again: the state stays as it is and nothing is
/// asked for.
pub proof fn law_pending_check_not_restarted(a: AppView, c: DependencyCursorView)
    requires
        a.cache.contains_key(c),
        a.cache[c] is Pending,
    ensures
        handled_spec(a, AppEventView::UpdateCheck { cursor: c }) == a,
        handled_effects(a, AppEventView::UpdateCheck { cursor: c }) == Seq::<EffectView>::empty(),
{
}

/// A started check leaves the dependency pending, so that a second request for it is not
/// started again until its result comes.
pub proof fn law_started_check_is_pending(a: AppView, c: DependencyCursorView)
    ensures
        ({
            let b = handled_spec(a, AppEventView::UpdateCheck { cursor: c });
            b.cache.contains_key(c) && b.cache[c] is Pending && handled_spec(b, AppEventView::UpdateCheck { cursor: c })
                == b
        }),
{
}

/// The status recorded for `c`.
fn cache_get<'a>(cache: &'a Vec<(DependencyCursor, UpdateStatus)>, c: &DependencyCursor) -> (r: Option<&'a UpdateStatus>)
    ensures
        match r {
            Some(s) => assoc_get(cache_entries(cache@), c@) == Some(s@),
            None => assoc_get(cache_entries(cache@), c@) is None,
        },
{
    let ghost es = cache_entries(cache@);
    let mut i: usize = cache.len();
    proof {
        assert(es.subrange(0, i as int) =~= es);
    }
    while i > 0
        invariant
            i <= cache.len(),
            es == cache_entries(cache@),
            assoc_get(es, c@) == assoc_get(es.subrange(0, i as int), c@),
        decreases i,
    {
        proof {
            assert(es.subrange(0, i as int).drop_last() =~= es.subrange(0, i - 1));
        }
        if cache[i - 1].0.same_as(c) {
            return Some(&cache[i - 1].1);
        }
        i = i - 1;
    }
    None
}

/// Forgets the status of `c`.
fn cache_remove(cache: &mut Vec<(DependencyCursor, UpdateStatus)>, c: &DependencyCursor)
    ensures
        cache_entries(final(cache)@) == assoc_without(cache_entries(old(cache)@), c@),
{
    let ghost es = cache_entries(cache@);
    let mut kept: Vec<(DependencyCursor, UpdateStatus)> = Vec::new();
    let mut i: usize = 0;
    proof {
        assert(cache_entries(kept@) =~= assoc_without(es.subrange(0, 0), c@));
    }
    while i < cache.len()
        invariant
            i <= cache.len(),
            es == cache_entries(cache@),
            cache_entries(kept@) == assoc_without(es.subrange(0, i as int), c@),
        decreases cache.len() - i,
    {
        proof {
            assert(es.subrange(0, i + 1).drop_last() =~= es.subrange(0, i as int));
        }
        if !cache[i].0.same_as(c) {
            let ghost before = kept@;
            kept.push((cache[i].0.duplicate(), cache[i].1.duplicate()));
            proof {
                assert(cache_entries(kept@) =~= cache_entries(before).push(es[i as int]));
            }
        }
        i = i + 1;
    }
    proof {
        assert(es.subrange(0, cache@.len() as int) =~= es);
    }
    *cache = kept;
}

/// Records `status` for `c`.
fn cache_insert(cache: &mut Vec<(DependencyCursor, UpdateStatus)>, c: DependencyCursor, status: UpdateStatus)
    ensures
        assoc_map(cache_entries(final(cache)@)) == assoc_map(cache_entries(old(cache)@)).insert(c@, status@),
{
    cache_remove(cache, &c);
    let ghost before = cache@;
    let ghost entry = (c@, status@);
    cache.push((c, status));
    proof {
        assert(cache_entries(cache@) =~= cache_entries(before).push(entry));
        lemma_assoc_replace(cache_entries(old(cache)@), entry.0, entry.1);
    }
}

/// The collapsed state recorded for `c`.
fn collapsed_get(sections: &Vec<(DependencyTableCursor, bool)>, c: &DependencyTableCursor) -> (r: Option<bool>)
    ensures
        r == assoc_get(collapsed_entries(sections@), c@),
{
    let ghost es = collapsed_entries(sections@);
    let mut i: usize = sections.len();
    proof {
        assert(es.subrange(0, i as int) =~= es);
    }
    while i > 0
        invariant
            i <= sections.len(),
            es == collapsed_entries(sections@),
            assoc_get(es, c@) == assoc_get(es.subrange(0, i as int), c@),
        decreases i,
    {
        proof {
            assert(es.subrange(0, i as int).drop_last() =~= es.subrange(0, i - 1));
        }
        if sections[i - 1].0.same_as(c) {
            return Some(sections[i - 1].1);
        }
        i = i - 1;
    }
    None
}

/// Records the collapsed state `b` for `c`.
fn collapsed_insert(sections: &mut Vec<(DependencyTableCursor, bool)>, c: DependencyTableCursor, b: bool)
    ensures
        assoc_map(collapsed_entries(final(sections)@)) == assoc_map(collapsed_entries(old(sections)@)).insert(c@, b),
{
    let ghost es = collapsed_entries(sections@);
    let mut kept: Vec<(DependencyTableCursor, bool)> = Vec::new();
    let mut i: usize = 0;
    proof {
        assert(collapsed_entries(kept@) =~= assoc_without(es.subrange(0, 0), c@));
    }
    while i < sections.len()
        invariant
            i <= sections.len(),
            es == collapsed_entries(sections@),
            collapsed_entries(kept@) == assoc_without(es.subrange(0, i as int), c@),
        decreases sections.len() - i,
    {
        proof {
            assert(es.subrange(0, i + 1).drop_last() =~= es.subrange(0, i as int));
        }
        if !sections[i].0.same_as(&c) {
            let ghost before = kept@;
            kept.push((sections[i].0.duplicate(), sections[i].1));
            proof {
                assert(collapsed_entries(kept@) =~= collapsed_entries(before).push(es[i as int]));
            }
        }
        i = i + 1;
    }
    proof {
        assert(es.subrange(0, sections@.len() as int) =~= es);
    }
    let ghost entry = (c@, b);
    kept.push((c, b));
    proof {
        assert(collapsed_entries(kept@) =~= assoc_without(es, entry.0).push(entry));
        lemma_assoc_replace(es, entry.0, entry.1);
    }
    *sections = kept;
}

impl App {
    /// The state of a new session on `manifest`: running, with the sidebar focused on the
    /// first dependency table, nothing collapsed, nothing checked and nothing in the main area.
    pub fn new(manifest: Manifest) -> (r: Result<App, AppConstructionError>)
        ensures
            match manifest_tables(manifest.nodes(), manifest.order()) {
                Some(ts) if ts.len() > 0 => r matches Ok(app) && app@ == AppView {
                    running: true,
                    manifest: manifest_view(manifest),
                    collapsed: Map::empty(),
                    sidebar: SidebarFocusView::DependencyTable(ts[0].cursor),
                    main: None,
                    cache: Map::empty(),
                    stack: seq![FocusedAreaView::Sidebar],
                },
                _ => r == Err::<App, AppConstructionError>(AppConstructionError::Dependencies),
            },
    {
        let tables = match manifest.dependencies() {
            Ok(t) => t,
            Err(_) => {
                return Err(AppConstructionError::Dependencies);
            },
        };
        if tables.len() == 0 {
            return Err(AppConstructionError::Dependencies);
        }
        let first = tables[0].cursor.duplicate();
        let mut focus_stack = Vec::new();
        focus_stack.push(FocusedArea::Sidebar);
        let app = App {
            running: true,
            manifest,
            collapsed_sections: Vec::new(),
            sidebar_focus_state: SidebarFocusState::DependencyTable(first),
            main_focus_state: None,
            update_cache: Vec::new(),
            focus_stack,
        };
        proof {
            assert(collapsed_entries(app.collapsed_sections@) =~= Seq::empty());
            assert(cache_entries(app.update_cache@) =~= Seq::empty());
            assert(assoc_map(collapsed_entries(app.collapsed_sections@)) =~= Map::empty());
            assert(assoc_map(cache_entries(app.update_cache@)) =~= Map::empty());
            assert(stack_view(app.focus_stack@) =~= seq![FocusedAreaView::Sidebar]);
        }
        Ok(app)
    }

    /// The area that holds the focus: the top of the stack.
    pub fn focused_area(&self) -> (r: &FocusedArea)
        requires
            self.focus_stack@.len() > 0,
        ensures
            *r == self.focus_stack@.last(),
    {
        let n = self.focus_stack.len();
        &self.focus_stack[n - 1]
    }

    /// The status recorded for the dependency at `cursor`.
    pub fn update_status(&self, cursor: &DependencyCursor) -> (r: Option<&UpdateStatus>)
        ensures
            match r {
                Some(s) => self@.cache.contains_key(cursor@) && self@.cache[cursor@] == s@,
                None => !self@.cache.contains_key(cursor@),
            },
    {
        cache_get(&self.update_cache, cursor)
    }

    /// Records `status` for the dependency at `cursor`.
    pub fn record_status(&mut self, cursor: DependencyCursor, status: UpdateStatus)
        ensures
            final(self)@ == (AppView { cache: old(self)@.cache.insert(cursor@, status@), ..old(self)@ }),
    {
        cache_insert(&mut self.update_cache, cursor, status);
    }

    /// Forgets the status of the dependency at `cursor`.
    pub fn forget_status(&mut self, cursor: &DependencyCursor)
        ensures
            final(self)@ == (AppView { cache: old(self)@.cache.remove(cursor@), ..old(self)@ }),
    {
        cache_remove(&mut self.update_cache, cursor);
        proof {
            lemma_assoc_remove(cache_entries(old(self).update_cache@), cursor@);
        }
    }

    /// Whether the table at `cursor` is collapsed in the sidebar (not, where never toggled).
    pub fn is_collapsed(&self, cursor: &DependencyTableCursor) -> (r: bool)
        ensures
            r == (self@.collapsed.contains_key(cursor@) && self@.collapsed[cursor@]),
    {
        match collapsed_get(&self.collapsed_sections, cursor) {
            Some(b) => b,
            None => false,
        }
    }

    /// Collapses the table at `cursor` where it is expanded, and expands it where collapsed.
    pub fn toggle_collapsed(&mut self, cursor: &DependencyTableCursor)
        ensures
            final(self)@ == (AppView {
                collapsed: old(self)@.collapsed.insert(
                    cursor@,
                    !(old(self)@.collapsed.contains_key(cursor@) && old(self)@.collapsed[cursor@]),
                ),
                ..old(self)@
            }),
    {
        let collapsed = self.is_collapsed(cursor);
        collapsed_insert(&mut self.collapsed_sections, cursor.duplicate(), !collapsed);
    }

    /// Starts an update check of the dependency at `cursor`, unless one is pending: records
    /// it as pending and says what to ask for.
    pub fn check_for_update(&mut self, cursor: DependencyCursor) -> (r: Option<Effect>)
        requires
            old(self)@.cache.contains_key(cursor@) && old(self)@.cache[cursor@] is Pending || resolved_dependency(
                old(self).manifest.nodes(),
                cursor@,
            ) matches Ok(Some(_)),
        ensures
            if old(self)@.cache.contains_key(cursor@) && old(self)@.cache[cursor@] is Pending {
                final(self)@ == old(self)@ && r is None
            } else {
                let d = resolved_dependency(old(self).manifest.nodes(), cursor@)->Ok_0->0;
                &&& d.source is Registry
                &&& final(self)@ == (AppView {
                    cache: old(self)@.cache.insert(cursor@, UpdateStatusView::Pending),
                    ..old(self)@
                })
                &&& r matches Some(e) && e@ == check_effect(cursor@, d)
            },
    {
        match self.update_status(&cursor) {
            Some(UpdateStatus::Pending) => {
                return None;
            },
            _ => {},
        }
        let dependency = match self.manifest.resolve_dependency(&cursor) {
            Ok(Some(d)) => d,
            _ => {
                return None;
            },
        };
        self.record_status(cursor.duplicate(), UpdateStatus::Pending);
        match dependency.source() {
            Source::Registry(registry_source) => Some(
                Effect::CheckRegistry {
                    cursor,
                    name: String::from_str(dependency.resolved_name()),
                    source: registry_source.duplicate(),
                },
            ),
            _ => Some(
                Effect::Send(AppEvent::UpdateCheckResult { cursor, result: UpdateStatus::UpToDate }),
            ),
        }
    }

    /// What loading the versions of the dependency at `cursor` asks for.
    pub fn load_dependency_versions(&self, cursor: &DependencyCursor) -> (r: Effect)
        requires
            resolved_dependency(self.manifest.nodes(), cursor@) matches Ok(Some(_)),
        ensures
            r@ == versions_effect(resolved_dependency(self.manifest.nodes(), cursor@)->Ok_0->0),
    {
        match self.manifest.resolve_dependency(cursor) {
            Ok(Some(dependency)) => match dependency.source() {
                Source::Registry(_) => Effect::LoadRegistryVersions {
                    name: String::from_str(dependency.resolved_name()),
                },
                _ => Effect::Send(
                    AppEvent::UpdateDependencyVersions { versions: Err(CheckForUpdateError::UnsupportedDependency) },
                ),
            },
            _ => Effect::Send(
                AppEvent::UpdateDependencyVersions { versions: Err(CheckForUpdateError::UnsupportedDependency) },
            ),
        }
    }

    /// An update check for every dependency of the manifest, table by table.
    pub fn queue_check_for_updates(&self) -> (r: Result<Vec<AppEvent>, AppError>)
        ensures
            match manifest_tables(self.manifest.nodes(), self.manifest.order()) {
                Some(ts) => r matches Ok(v) && v@.map_values(|e: AppEvent| e@) == update_checks(ts),
                None => r == Err::<Vec<AppEvent>, AppError>(AppError::Event),
            },
    {
        let tables = match self.manifest.dependencies() {
            Ok(t) => t,
            Err(_) => {
                return Err(AppError::Event);
            },
        };
        let ghost ts = tables@.map_values(|t: crate::manifest::dependency::DependencyTable| t@);
        let mut events: Vec<AppEvent> = Vec::new();
        let mut i: usize = 0;
        while i < tables.len()
            invariant
                i <= tables.len(),
                ts == tables@.map_values(|t: crate::manifest::dependency::DependencyTable| t@),
                events@.map_values(|e: AppEvent| e@) == update_checks(ts.subrange(0, i as int)),
            decreases tables.len() - i,
        {
            let table = &tables[i];
            let ghost before = events@.map_values(|e: AppEvent| e@);
            let ghost tv = ts[i as int];
            let mut j: usize = 0;
            while j < table.deps.len()
                invariant
                    j <= table.deps.len(),
                    tv == table@,
                    events@.map_values(|e: AppEvent| e@) == before + tv.deps.subrange(0, j as int).map_values(
                        |d: DependencyView| AppEventView::UpdateCheck {
                            cursor: DependencyCursorView { table: tv.cursor, name: d.name },
                        },
                    ),
                decreases table.deps.len() - j,
            {
                let cursor = DependencyCursor {
                    table: table.cursor.duplicate(),
                    name: String::from_str(table.deps[j].name()),
                };
                let ghost prev = events@;
                events.push(AppEvent::UpdateCheck { cursor });
                proof {
                    assert(tv.deps[j as int] == table.deps@[j as int]@);
                    assert(events@.map_values(|e: AppEvent| e@) =~= prev.map_values(|e: AppEvent| e@).push(
                        events@.last()@,
                    ));
                    assert(tv.deps.subrange(0, j + 1) =~= tv.deps.subrange(0, j as int).push(tv.deps[j as int]));
                    assert(tv.deps.subrange(0, j + 1).map_values(
                        |d: DependencyView| AppEventView::UpdateCheck {
                            cursor: DependencyCursorView { table: tv.cursor, name: d.name },
                        },
                    ) =~= tv.deps.subrange(0, j as int).map_values(
                        |d: DependencyView| AppEventView::UpdateCheck {
                            cursor: DependencyCursorView { table: tv.cursor, name: d.name },
                        },
                    ).push(events@.last()@));
                }
                j = j + 1;
            }
            proof {
                assert(tv.deps.subrange(0, tv.deps.len() as int) =~= tv.deps);
                assert(ts.subrange(0, i + 1).drop_last() =~= ts.subrange(0, i as int));
                assert(ts.subrange(0, i + 1).last() == tv);
            }
            i = i + 1;
        }
        proof {
            assert(ts.subrange(0, tables@.len() as int) =~= ts);
        }
        Ok(events)
    }

    /// Sets the version of the dependency at `cursor`; the manifest is saved by the caller.
    pub fn update_dependency(&mut self, cursor: &DependencyCursor, version: &VersionType) -> (r: Result<(), DependencyUpdateError>)
        requires
            node_at(old(self).manifest.nodes(), cursor_path(cursor@)) is Some,
        ensures
            match crate::manifest::set_version_effect(
                old(self).manifest.nodes(),
                old(self).manifest.order(),
                cursor_path(cursor@),
                crate::manifest::version_type_text(version@),
            ) {
                Some((m, o)) => r is Ok && final(self)@ == (AppView {
                    manifest: ManifestView { nodes: m, order: o, ..old(self)@.manifest },
                    ..old(self)@
                }),
                None => r matches Err(DependencyUpdateError::Unsupported) && final(self)@ == old(self)@,
            },
    {
        match self.manifest.resolve_dependency_mut(cursor) {
            Some(dependency) => dependency.set_version(&mut self.manifest, version),
            None => Err(DependencyUpdateError::Unsupported),
        }
    }

    /// Whether a check of the dependency at `cursor` is pending.
    fn is_pending(&self, cursor: &DependencyCursor) -> (r: bool)
        ensures
            r == pending(self@, cursor@),
    {
        match self.update_status(cursor) {
            Some(UpdateStatus::Pending) => true,
            _ => false,
        }
    }

    /// Whether the dependency at `cursor` can be read from the manifest.
    fn is_resolvable(&self, cursor: &DependencyCursor) -> (r: bool)
        ensures
            r == (resolved_dependency(self@.manifest.nodes, cursor@) matches Ok(Some(_))),
    {
        match self.manifest.resolve_dependency(cursor) {
            Ok(Some(_)) => true,
            _ => false,
        }
    }

    /// Handles an event where it can be handled as it stands (`can_handle`), as `handle_event`
    /// does; otherwise it leaves the state as it is and answers `None`.
    pub fn try_handle_event(&mut self, event: AppEvent) -> (r: Option<Result<Vec<Effect>, AppError>>)
        ensures
            !can_handle(old(self)@, event@) ==> r is None && final(self)@ == old(self)@,
            can_handle(old(self)@, event@) && handling_fails(old(self)@, event@) ==> r == Some(
                Err::<Vec<Effect>, AppError>(AppError::Event),
            ) && final(self)@ == old(self)@,
            can_handle(old(self)@, event@) && !handling_fails(old(self)@, event@) ==> (r matches Some(Ok(v))
                && v@.map_values(|e: Effect| e@) == handled_effects(old(self)@, event@)) && final(self)@
                == handled_spec(old(self)@, event@),
    {
        let ready = match &event {
            AppEvent::UpdateCheck { cursor } => self.is_pending(cursor) || self.is_resolvable(cursor),
            AppEvent::LoadDependencyVersions(cursor) => self.is_resolvable(cursor),
            AppEvent::UpdateDependency { cursor, version } => {
                self.manifest.resolve_dependency_mut(cursor).is_some() && (self.is_pending(cursor)
                    || Source::from_version_text(version.to_text().as_str()).is_ok())
            },
            _ => true,
        };
        if !ready {
            return None;
        }
        Some(self.handle_event(event))
    }

    /// Handles an event of the loop: what the state becomes, and what to do for it.
    pub fn handle_event(&mut self, event: AppEvent) -> (r: Result<Vec<Effect>, AppError>)
        requires
            handles(old(self)@, event@),
        ensures
            handling_fails(old(self)@, event@) ==> r == Err::<Vec<Effect>, AppError>(AppError::Event)
                && final(self)@ == old(self)@,
            !handling_fails(old(self)@, event@) ==> (r matches Ok(v) && v@.map_values(|e: Effect| e@)
                == handled_effects(old(self)@, event@)) && final(self)@ == handled_spec(old(self)@, event@),
    {
        let ghost ev = event@;
        let mut effects: Vec<Effect> = Vec::new();
        match event {
            AppEvent::UpdateCheck { cursor } => {
                match self.check_for_update(cursor) {
                    Some(e) => effects.push(e),
                    None => {},
                }
            },
            AppEvent::UpdateCheckResult { cursor, result } => {
                self.record_status(cursor, result);
            },
            AppEvent::UpdateDependency { cursor, version } => {
                let ghost before = self@;
                match self.update_dependency(&cursor, &version) {
                    Ok(()) => {},
                    Err(_) => {
                        return Err(AppError::Event);
                    },
                }
                effects.push(Effect::Save);
                proof {
                    law_set_version_reads_back(
                        before.manifest.nodes,
                        before.manifest.order,
                        cursor@,
                        version_type_text(version@),
                    );
                }
                match self.check_for_update(cursor) {
                    Some(e) => effects.push(e),
                    None => {},
                }
                self.close();
            },
            AppEvent::LoadDependencyVersions(cursor) => {
                effects.push(self.load_dependency_versions(&cursor));
            },
            AppEvent::LoadDependencyFeatures(cursor) => {
                effects.push(Effect::LoadFeatures { cursor });
            },
            AppEvent::UpdateDependencyVersions { versions } => {
                let main = self.main_focus_state.take();
                self.main_focus_state = match main {
                    Some(MainFocusState::Dependency { cursor, versions: _, features, focused_area }) => Some(
                        MainFocusState::Dependency { cursor, versions: Some(versions), features, focused_area },
                    ),
                    None => None,
                };
            },
            AppEvent::UpdateDependencyFeatures { features } => {
                let main = self.main_focus_state.take();
                self.main_focus_state = match main {
                    Some(MainFocusState::Dependency { cursor, versions, features: _, focused_area }) => Some(
                        MainFocusState::Dependency { cursor, versions, features: Some(features), focused_area },
                    ),
                    None => None,
                };
            },
        }
        proof {
            assert(effects@.map_values(|e: Effect| e@) =~= handled_effects(old(self)@, ev));
        }
        Ok(effects)
    }
}

} // verus!
