//! The dependency view of the main area and its keybinds.

use vstd::prelude::*;

use crate::app::{with_contents, App, AppEventView, AppView, Effect, EffectView, MainFocusState, MainFocusView};
use crate::event::AppEvent;
use crate::features::{FeatureEntries, FeaturesList};
use crate::manifest::dependency::{contains_string, DependencyCursor, DependencyView};
use crate::manifest::{
    edited_nodes, lemma_feature_edit_keeps_dependency, lemma_strings_of_contains, law_added_feature_is_listed,
    law_removed_feature_is_unlisted, law_default_features_read_back, add_feature_effect, cursor_path, remove_feature_effect, resolved_dependency, set_default_features_effect,
    set_version_effect, version_type_text, Nodes, Order,
};
use crate::toml::{array_of, node_at, path_view};
use crate::updater::{DependencyUpdateError, VersionType};

verus! {

/// The part of the dependency view that holds the focus.
#[derive(Debug, Clone, Copy, PartialEq, Eq, Structural)]
pub enum FocusedArea {
    Main,
    Versions {
        /// The currently selected version.
        selected: usize,
    },
    Features {
        /// The currently selected feature.
        selected: usize,
    },
}

/// The state with `area` focused in the dependency view.
pub open spec fn with_area(a: AppView, area: FocusedArea) -> AppView {
    match a.main {
        Some(m) => AppView { main: Some(MainFocusView { focused_area: area, ..m }), ..a },
        None => a,
    }
}

/// The outcome of an edit of the manifest: the manifest changed and is to be saved, then
/// `then` is asked for; or, where the edit is refused, nothing changes.
pub open spec fn edit_outcome(
    a: AppView,
    edit: Option<(Nodes, Order)>,
    then: Seq<EffectView>,
    f: AppView,
    r: Result<Seq<EffectView>, DependencyUpdateError>,
) -> bool {
    match edit {
        Some(e) => f == with_contents(a, e) && r == Ok::<Seq<EffectView>, DependencyUpdateError>(
            seq![EffectView::Save] + then,
        ),
        None => f == a && r == Err::<Seq<EffectView>, DependencyUpdateError>(DependencyUpdateError::Unsupported),
    }
}

pub open spec fn result_view(r: Result<Vec<Effect>, DependencyUpdateError>) -> Result<Seq<EffectView>, DependencyUpdateError> {
    match r {
        Ok(v) => Ok(v@.map_values(|e: Effect| e@)),
        Err(e) => Err(e),
    }
}

/// The dependency that the main area shows, as the manifest has it.
pub open spec fn shown_dependency(a: AppView) -> DependencyView {
    resolved_dependency(a.manifest.nodes, a.main->0.cursor)->Ok_0->0
}

pub open spec fn shows_resolved_dependency(a: AppView) -> bool {
    &&& a.main is Some
    &&& resolved_dependency(a.manifest.nodes, a.main->0.cursor) matches Ok(Some(_))
}

/// Turning the default features of the shown dependency off where they are on, and on
/// where they are off.
pub open spec fn toggle_default_edit(a: AppView) -> Option<(Nodes, Order)> {
    set_default_features_effect(
        a.manifest.nodes,
        a.manifest.order,
        cursor_path(a.main->0.cursor),
        !shown_dependency(a).default_features,
    )
}

/// The index after `i` among `n` items, back to the first after the last.
pub open spec fn next_index(i: usize, n: usize) -> usize {
    ((i + 1) % (n as int)) as usize
}

/// The index before `i` among `n` items, back to the last before the first.
pub open spec fn previous_index(i: usize, n: usize) -> usize {
    ((i + n - 1) % (n as int)) as usize
}

/// The keys of the features, in order, without `default`.
pub open spec fn feature_keys(es: FeatureEntries) -> Seq<Seq<char>>
    decreases es.len(),
{
    if es.len() == 0 {
        Seq::empty()
    } else if es.last().0 == "default"@ {
        feature_keys(es.drop_last())
    } else {
        feature_keys(es.drop_last()).push(es.last().0)
    }
}

/// Whether the dependency enables the feature `f` in its `features` array.
pub open spec fn enables(d: DependencyView, f: Seq<char>) -> bool {
    match d.features {
        Some(fs) => fs.contains(f),
        None => false,
    }
}

/// Toggling feature `f` of the shown dependency: it is removed where enabled, else added.
pub open spec fn toggle_feature_edit(a: AppView, f: Seq<char>) -> Option<(Nodes, Order)> {
    let p = cursor_path(a.main->0.cursor);
    if enables(shown_dependency(a), f) {
        remove_feature_effect(a.manifest.nodes, a.manifest.order, p, f)
    } else {
        add_feature_effect(a.manifest.nodes, a.manifest.order, p, f)
    }
}

/// Previous undoes next, for any selection among a non-empty list.
pub proof fn law_previous_undoes_next(i: usize, n: usize)
    requires
        i < n,
        n < usize::MAX,
    ensures
        previous_index(next_index(i, n), n) == i,
        next_index(previous_index(i, n), n) == i,
{
    let j = next_index(i, n);
    if i + 1 < n {
        assert((i + 1) % (n as int) == i + 1) by (nonlinear_arith)
            requires
                0 <= i + 1 < n,
        ;
        assert((i + 1 + n - 1) % (n as int) == i) by (nonlinear_arith)
            requires
                0 <= i < n,
        ;
    } else {
        assert((i + 1) % (n as int) == 0) by (nonlinear_arith)
            requires
                i + 1 == n,
                n > 0,
        ;
        assert((0 + n - 1) % (n as int) == i) by (nonlinear_arith)
            requires
                i + 1 == n,
                n > 0,
        ;
    }
    let k = previous_index(i, n);
    if i > 0 {
        assert((i + n - 1) % (n as int) == i - 1) by (nonlinear_arith)
            requires
                0 < i < n,
        ;
        assert((i - 1 + 1) % (n as int) == i) by (nonlinear_arith)
            requires
                0 < i < n,
        ;
    } else {
        assert((i + n - 1) % (n as int) == n - 1) by (nonlinear_arith)
            requires
                i == 0,
                n > 0,
        ;
        assert((n - 1 + 1) % (n as int) == i) by (nonlinear_arith)
            requires
                i == 0,
                n > 0,
        ;
    }
}

/// Toggling a feature of the shown dependency turns it off where the dependency enabled it
/// and on where it did not, and the dependency can still be read.
pub proof fn law_toggle_flips_feature(a: AppView, f: Seq<char>)
    requires
        shows_resolved_dependency(a),
        toggle_feature_edit(a, f) is Some,
    ensures
        resolved_dependency(edited_nodes(toggle_feature_edit(a, f)), a.main->0.cursor) matches Ok(Some(d2)) && enables(
            d2,
            f,
        ) == !enables(shown_dependency(a), f),
{
    let c = a.main->0.cursor;
    let m = a.manifest.nodes;
    let o = a.manifest.order;
    let p = cursor_path(c);
    let q = p.push("features"@);
    let d = shown_dependency(a);
    let add = !enables(d, f);
    lemma_feature_edit_keeps_dependency(m, o, c, f, add);
    let m2 = edited_nodes(toggle_feature_edit(a, f));
    if add {
        law_added_feature_is_listed(m, o, p, f);
        let arr = array_of(node_at(m2, q))->0;
        lemma_strings_of_contains(arr, f);
    } else {
        law_removed_feature_is_unlisted(m, o, p, f);
        match array_of(node_at(m2, q)) {
            Some(arr) => lemma_strings_of_contains(arr, f),
            None => {},
        }
    }
}

/// Toggling the default features of the shown dependency turns them off where they were
/// on and on where they were off, and the dependency can still be read.
pub proof fn law_toggle_default_flips(a: AppView)
    requires
        shows_resolved_dependency(a),
    ensures
        toggle_default_edit(a) is Some,
        resolved_dependency(edited_nodes(toggle_default_edit(a)), a.main->0.cursor) matches Ok(Some(d2))
            && d2.default_features == !shown_dependency(a).default_features,
{
    law_default_features_read_back(
        a.manifest.nodes,
        a.manifest.order,
        a.main->0.cursor,
        !shown_dependency(a).default_features,
    );
}

fn feature_key_list(features: &FeaturesList) -> (r: Vec<String>)
    ensures
        path_view(r@) == feature_keys(features@),
{
    let entries = features.entries();
    let ghost es = features@;
    let mut keys: Vec<String> = Vec::new();
    let mut i: usize = 0;
    proof {
        assert(path_view(keys@) =~= feature_keys(es.subrange(0, 0)));
    }
    while i < entries.len()
        invariant
            i <= entries.len(),
            entries@.map_values(|e: (String, Vec<String>)| crate::features::entry_view(e)) == es,
            path_view(keys@) == feature_keys(es.subrange(0, i as int)),
        decreases entries.len() - i,
    {
        proof {
            assert(es.subrange(0, i + 1).drop_last() =~= es.subrange(0, i as int));
            assert(es.subrange(0, i + 1).last() == es[i as int]);
            assert(es[i as int].0 == entries@[i as int].0@);
        }
        proof {
            reveal_strlit("default");
        }
        if !crate::text::str_eq(entries[i].0.as_str(), "default") {
            let ghost before = keys@;
            keys.push(entries[i].0.clone());
            proof {
                assert(path_view(keys@) =~= path_view(before).push(keys@.last()@));
            }
        }
        i = i + 1;
    }
    proof {
        assert(es.subrange(0, entries@.len() as int) =~= es);
    }
    keys
}

/// The cursor of the dependency that the main area shows.
fn shown_cursor(app: &App) -> (r: DependencyCursor)
    requires
        app.main_focus_state is Some,
    ensures
        r@ == app@.main->0.cursor,
{
    match &app.main_focus_state {
        Some(MainFocusState::Dependency { cursor, .. }) => cursor.duplicate(),
        None => DependencyCursor {
            table: crate::manifest::dependency::DependencyTableCursor {
                kind: crate::manifest::dependency::DependencyKind::Normal,
                target: None,
            },
            name: String::new(),
        },
    }
}

/// Focuses `area` in the dependency view.
fn set_area(app: &mut App, area: FocusedArea)
    ensures
        final(app)@ == with_area(old(app)@, area),
{
    let main = app.main_focus_state.take();
    app.main_focus_state = match main {
        Some(MainFocusState::Dependency { cursor, versions, features, focused_area: _ }) => Some(
            MainFocusState::Dependency { cursor, versions, features, focused_area: area },
        ),
        None => None,
    };
}

fn save_then(then: Vec<Effect>) -> (r: Vec<Effect>)
    ensures
        r@.map_values(|e: Effect| e@) == seq![EffectView::Save] + then@.map_values(|e: Effect| e@),
{
    let mut r: Vec<Effect> = Vec::new();
    r.push(Effect::Save);
    let mut then = then;
    let ghost rest = then@;
    r.append(&mut then);
    proof {
        assert(r@.map_values(|e: Effect| e@) =~= seq![EffectView::Save] + rest.map_values(|e: Effect| e@));
    }
    r
}

/// Turns the default features of the shown dependency off where on, and on where off.
fn toggle_default(app: &mut App) -> (r: Result<Vec<Effect>, DependencyUpdateError>)
    requires
        shows_resolved_dependency(old(app)@),
    ensures
        edit_outcome(old(app)@, toggle_default_edit(old(app)@), Seq::empty(), final(app)@, result_view(r)),
{
    let cursor = shown_cursor(app);
    let default_features = match app.manifest.resolve_dependency(&cursor) {
        Ok(Some(d)) => d.default_features(),
        _ => true,
    };
    let item = match app.manifest.resolve_dependency_mut(&cursor) {
        Some(item) => item,
        None => {
            return Err(DependencyUpdateError::Unsupported);
        },
    };
    match item.set_default_features(&mut app.manifest, !default_features) {
        Ok(()) => {
            let none: Vec<Effect> = Vec::new();
            assert(none@.map_values(|e: Effect| e@) =~= Seq::<EffectView>::empty());
            Ok(save_then(none))
        },
        Err(e) => Err(e),
    }
}

/// The keybinds of the dependency view.
pub struct DependencyKeybinds;

impl DependencyKeybinds {
    /// Focus the versions list
    pub fn focus_versions(app: &mut App)
        requires
            old(app).main_focus_state is Some,
        ensures
            final(app)@ == with_area(old(app)@, FocusedArea::Versions { selected: 0 }),
    {
        set_area(app, FocusedArea::Versions { selected: 0 });
    }

    /// Focus the features list
    pub fn focus_features(app: &mut App)
        requires
            old(app).main_focus_state is Some,
        ensures
            final(app)@ == with_area(old(app)@, FocusedArea::Features { selected: 0 }),
    {
        set_area(app, FocusedArea::Features { selected: 0 });
    }

    /// Toggle default features
    pub fn toggle_default_features(app: &mut App) -> (r: Result<Vec<Effect>, DependencyUpdateError>)
        requires
            shows_resolved_dependency(old(app)@),
        ensures
            edit_outcome(old(app)@, toggle_default_edit(old(app)@), Seq::empty(), final(app)@, result_view(r)),
    {
        toggle_default(app)
    }
}

/// Whether the versions list is focused, with the selection `i`.
pub open spec fn versions_focused(a: AppView) -> bool {
    a.main matches Some(m) && m.focused_area is Versions
}

pub open spec fn features_focused(a: AppView) -> bool {
    a.main matches Some(m) && m.focused_area is Features
}

/// The number of loaded versions, where the versions were loaded.
pub open spec fn loaded_versions(a: AppView) -> Option<nat> {
    match a.main {
        Some(m) => match m.versions {
            Some(Ok(vs)) => Some(vs.len()),
            _ => None,
        },
        None => None,
    }
}

pub open spec fn loaded_features(a: AppView) -> Option<nat> {
    match a.main {
        Some(m) => match m.features {
            Some(Ok(fs)) => Some(fs.len()),
            _ => None,
        },
        None => None,
    }
}

pub open spec fn selection(a: AppView) -> usize {
    match a.main->0.focused_area {
        FocusedArea::Versions { selected } => selected,
        FocusedArea::Features { selected } => selected,
        FocusedArea::Main => 0,
    }
}

/// The state with the versions list's selection moved by `step` among `n` versions.
pub open spec fn moved_versions(a: AppView, to: spec_fn(usize, usize) -> usize) -> AppView {
    match loaded_versions(a) {
        Some(n) => with_area(a, FocusedArea::Versions { selected: to(selection(a), n as usize) }),
        None => a,
    }
}

pub open spec fn moved_features(a: AppView, to: spec_fn(usize, usize) -> usize) -> AppView {
    match loaded_features(a) {
        Some(n) => with_area(a, FocusedArea::Features { selected: to(selection(a), n as usize) }),
        None => a,
    }
}

fn loaded_versions_len(app: &App) -> (r: Option<usize>)
    ensures
        match r {
            Some(n) => loaded_versions(app@) == Some(n as nat),
            None => loaded_versions(app@) is None,
        },
{
    match &app.main_focus_state {
        Some(MainFocusState::Dependency { versions: Some(Ok(vs)), .. }) => Some(vs.len()),
        _ => None,
    }
}

fn loaded_features_len(app: &App) -> (r: Option<usize>)
    ensures
        match r {
            Some(n) => loaded_features(app@) == Some(n as nat),
            None => loaded_features(app@) is None,
        },
{
    match &app.main_focus_state {
        Some(MainFocusState::Dependency { features: Some(Ok(fs)), .. }) => Some(fs.len()),
        _ => None,
    }
}

fn selected_index(app: &App) -> (r: usize)
    requires
        app.main_focus_state is Some,
    ensures
        r == selection(app@),
{
    match &app.main_focus_state {
        Some(MainFocusState::Dependency { focused_area, .. }) => match focused_area {
            FocusedArea::Versions { selected } => *selected,
            FocusedArea::Features { selected } => *selected,
            FocusedArea::Main => 0,
        },
        None => 0,
    }
}

/// The keybinds of the versions list.
pub struct VersionListKeybinds;

impl VersionListKeybinds {
    /// Unfocus the versions list
    pub fn close_versions(app: &mut App)
        requires
            old(app).main_focus_state is Some,
        ensures
            final(app)@ == with_area(old(app)@, FocusedArea::Main),
    {
        set_area(app, FocusedArea::Main);
    }

    /// Next version
    pub fn next_version(app: &mut App)
        requires
            versions_focused(old(app)@),
            loaded_versions(old(app)@) matches Some(n) ==> n > 0 && selection(old(app)@) < usize::MAX,
        ensures
            final(app)@ == moved_versions(old(app)@, |i: usize, n: usize| next_index(i, n)),
    {
        match loaded_versions_len(app) {
            Some(n) => {
                let i = selected_index(app);
                set_area(app, FocusedArea::Versions { selected: (i + 1) % n });
            },
            None => {},
        }
    }

    /// Previous version
    pub fn previous_version(app: &mut App)
        requires
            versions_focused(old(app)@),
            loaded_versions(old(app)@) matches Some(n) ==> n > 0 && selection(old(app)@) + n <= usize::MAX,
        ensures
            final(app)@ == moved_versions(old(app)@, |i: usize, n: usize| previous_index(i, n)),
    {
        match loaded_versions_len(app) {
            Some(n) => {
                let i = selected_index(app);
                set_area(app, FocusedArea::Versions { selected: (i + n - 1) % n });
            },
            None => {},
        }
    }

    /// Set version: the selected version goes into the manifest, which is saved and checked
    /// for updates again.
    pub fn set_version(app: &mut App) -> (r: Result<Vec<Effect>, DependencyUpdateError>)
        requires
            versions_focused(old(app)@),
            loaded_versions(old(app)@) is Some ==> selection(old(app)@) < loaded_versions(old(app)@)->0
                && crate::toml::node_at(old(app)@.manifest.nodes, cursor_path(old(app)@.main->0.cursor)) is Some,
        ensures
            match old(app)@.main->0.versions {
                Some(Ok(vs)) => edit_outcome(
                    old(app)@,
                    set_version_effect(
                        old(app)@.manifest.nodes,
                        old(app)@.manifest.order,
                        cursor_path(old(app)@.main->0.cursor),
                        version_type_text(vs[selection(old(app)@) as int]),
                    ),
                    seq![EffectView::Send(AppEventView::UpdateCheck { cursor: old(app)@.main->0.cursor })],
                    final(app)@,
                    result_view(r),
                ),
                _ => final(app)@ == old(app)@ && result_view(r) == Ok::<Seq<EffectView>, DependencyUpdateError>(
                    Seq::empty(),
                ),
            },
    {
        let i = selected_index(app);
        let cursor = shown_cursor(app);
        let version = match &app.main_focus_state {
            Some(MainFocusState::Dependency { versions: Some(Ok(vs)), .. }) => {
                assert(vs@.map_values(|x: VersionType| x@)[i as int] == vs@[i as int]@);
                vs[i].duplicate()
            },
            _ => {
                let r: Vec<Effect> = Vec::new();
                assert(r@.map_values(|e: Effect| e@) =~= Seq::<EffectView>::empty());
                return Ok(r);
            },
        };
        let item = match app.manifest.resolve_dependency_mut(&cursor) {
            Some(item) => item,
            None => {
                return Err(DependencyUpdateError::Unsupported);
            },
        };
        match item.set_version(&mut app.manifest, &version) {
            Ok(()) => {
                let mut then: Vec<Effect> = Vec::new();
                then.push(Effect::Send(AppEvent::UpdateCheck { cursor }));
                assert(then@.map_values(|e: Effect| e@) =~= seq![
                    EffectView::Send(AppEventView::UpdateCheck { cursor: old(app)@.main->0.cursor }),
                ]);
                Ok(save_then(then))
            },
            Err(e) => Err(e),
        }
    }
}

/// The keybinds of the features list.
pub struct FeaturesListKeybinds;

impl FeaturesListKeybinds {
    /// Toggle default features
    pub fn toggle_default_features(app: &mut App) -> (r: Result<Vec<Effect>, DependencyUpdateError>)
        requires
            shows_resolved_dependency(old(app)@),
        ensures
            edit_outcome(old(app)@, toggle_default_edit(old(app)@), Seq::empty(), final(app)@, result_view(r)),
    {
        toggle_default(app)
    }

    /// Unfocus the features list
    pub fn close_versions(app: &mut App)
        requires
            old(app).main_focus_state is Some,
        ensures
            final(app)@ == with_area(old(app)@, FocusedArea::Main),
    {
        set_area(app, FocusedArea::Main);
    }

    /// Next feature
    pub fn next_feature(app: &mut App)
        requires
            features_focused(old(app)@),
            loaded_features(old(app)@) matches Some(n) ==> n > 0 && selection(old(app)@) < usize::MAX,
        ensures
            final(app)@ == moved_features(old(app)@, |i: usize, n: usize| next_index(i, n)),
    {
        match loaded_features_len(app) {
            Some(n) => {
                let i = selected_index(app);
                set_area(app, FocusedArea::Features { selected: (i + 1) % n });
            },
            None => {},
        }
    }

    /// Previous feature
    pub fn previous_feature(app: &mut App)
        requires
            features_focused(old(app)@),
            loaded_features(old(app)@) matches Some(n) ==> n > 0 && selection(old(app)@) + n <= usize::MAX,
        ensures
            final(app)@ == moved_features(old(app)@, |i: usize, n: usize| previous_index(i, n)),
    {
        match loaded_features_len(app) {
            Some(n) => {
                let i = selected_index(app);
                set_area(app, FocusedArea::Features { selected: (i + n - 1) % n });
            },
            None => {},
        }
    }

    /// Toggle the currently selected feature, `default` not counted among them.
    pub fn toggle_selected_feature(app: &mut App) -> (r: Result<Vec<Effect>, DependencyUpdateError>)
        requires
            features_focused(old(app)@),
            old(app)@.main->0.features matches Some(Ok(es)) ==> selection(old(app)@) < feature_keys(es).len()
                && shows_resolved_dependency(old(app)@),
        ensures
            match old(app)@.main->0.features {
                Some(Ok(es)) => edit_outcome(
                    old(app)@,
                    toggle_feature_edit(old(app)@, feature_keys(es)[selection(old(app)@) as int]),
                    Seq::empty(),
                    final(app)@,
                    result_view(r),
                ),
                _ => final(app)@ == old(app)@ && result_view(r) == Ok::<Seq<EffectView>, DependencyUpdateError>(
                    Seq::empty(),
                ),
            },
    {
        let i = selected_index(app);
        let cursor = shown_cursor(app);
        let keys = match &app.main_focus_state {
            Some(MainFocusState::Dependency { features: Some(Ok(fs)), .. }) => feature_key_list(fs),
            _ => {
                let r: Vec<Effect> = Vec::new();
                assert(r@.map_values(|e: Effect| e@) =~= Seq::<EffectView>::empty());
                return Ok(r);
            },
        };
        let feature = keys[i].as_str();
        let enabled = match app.manifest.resolve_dependency(&cursor) {
            Ok(Some(d)) => match d.features() {
                Some(fs) => contains_string(fs, feature),
                None => false,
            },
            _ => false,
        };
        let item = match app.manifest.resolve_dependency_mut(&cursor) {
            Some(item) => item,
            None => {
                return Err(DependencyUpdateError::Unsupported);
            },
        };
        let edited = if enabled {
            item.remove_feature(&mut app.manifest, feature)
        } else {
            item.add_feature(&mut app.manifest, feature)
        };
        match edited {
            Ok(()) => {
                let none: Vec<Effect> = Vec::new();
                assert(none@.map_values(|e: Effect| e@) =~= Seq::<EffectView>::empty());
                Ok(save_then(none))
            },
            Err(e) => Err(e),
        }
    }
}

} // verus!
