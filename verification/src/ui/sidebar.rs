//! The sidebar: the dependency tables and their dependencies, and its keybinds.

use vstd::prelude::*;

use crate::app::{
    App, AppEventView, AppView, Effect, EffectView, FocusedArea, FocusedAreaView, MainFocusState, MainFocusView,
};
use crate::event::AppEvent;
use crate::features::{first_where, lemma_first_where, lemma_first_where_some};
use crate::manifest::dependency::{
    table_title_spec, DependencyCursor, DependencyCursorView, DependencyTable, DependencyTableCursor,
    DependencyTableView, DependencyView, TableCursorView,
};
use crate::manifest::{keys_read_distinct, law_dependency_tables_are_distinct, manifest_tables, tables_distinct};
use crate::text::concat;
use crate::ui::main::dependency::FocusedArea as DependencyArea;
use crate::ui::modals::update_dependency::{UpdateDependencyModal, UpdateModalView};
use crate::ui::modals::{ModalState, ModalView, SelectionType};
use crate::updater::{CheckForUpdateError, DependencyUpdateError, UpdateStatus, UpdateStatusView};

verus! {

/// A row of the sidebar.
#[derive(Debug)]
#[allow(inconsistent_fields)]
pub enum SidebarRow {
    /// The header of a dependency table.
    DependencyTableHeader { cursor: DependencyTableCursor, collapsed: bool },
    /// A dependency, with its version text and the status of its update check.
    Dependency { cursor: DependencyCursor, version: String, update_status: UpdateStatus },
}

#[allow(inconsistent_fields)]
pub enum SidebarRowView {
    DependencyTableHeader { cursor: TableCursorView, collapsed: bool },
    Dependency { cursor: DependencyCursorView, version: Seq<char>, update_status: UpdateStatusView },
}

impl View for SidebarRow {
    type V = SidebarRowView;

    open spec fn view(&self) -> SidebarRowView {
        match self {
            SidebarRow::DependencyTableHeader { cursor, collapsed } => SidebarRowView::DependencyTableHeader {
                cursor: cursor@,
                collapsed: *collapsed,
            },
            SidebarRow::Dependency { cursor, version, update_status } => SidebarRowView::Dependency {
                cursor: cursor@,
                version: version@,
                update_status: update_status@,
            },
        }
    }
}

/// The row of the sidebar that holds the selection, named by what it shows rather than by
/// its position, so that the selection stays put when rows move.
#[derive(Debug)]
pub enum SidebarFocusState {
    DependencyTable(DependencyTableCursor),
    Dependency(DependencyCursor),
}

pub enum SidebarFocusView {
    DependencyTable(TableCursorView),
    Dependency(DependencyCursorView),
}

impl View for SidebarFocusState {
    type V = SidebarFocusView;

    open spec fn view(&self) -> SidebarFocusView {
        match self {
            SidebarFocusState::DependencyTable(c) => SidebarFocusView::DependencyTable(c@),
            SidebarFocusState::Dependency(c) => SidebarFocusView::Dependency(c@),
        }
    }
}

impl SidebarFocusState {
    pub fn duplicate(&self) -> (r: SidebarFocusState)
        ensures
            r@ == self@,
    {
        match self {
            SidebarFocusState::DependencyTable(c) => SidebarFocusState::DependencyTable(c.duplicate()),
            SidebarFocusState::Dependency(c) => SidebarFocusState::Dependency(c.duplicate()),
        }
    }
}

impl SidebarRowView {
    /// The selection that names this row.
    pub open spec fn focus(self) -> SidebarFocusView {
        match self {
            SidebarRowView::DependencyTableHeader { cursor, .. } => SidebarFocusView::DependencyTable(cursor),
            SidebarRowView::Dependency { cursor, .. } => SidebarFocusView::Dependency(cursor),
        }
    }
}

/// The text of a table header: an arrow pointing right where the table is collapsed and
/// down where it is not, then the table's title.
pub open spec fn header_text_spec(cursor: TableCursorView, collapsed: bool) -> Seq<char> {
    " "@ + (if collapsed { "\u{25b6}"@ } else { "\u{25bc}"@ }) + " "@ + table_title_spec(cursor)
}

impl SidebarRow {
    /// Whether this is the row that `focus` names.
    pub fn matches(&self, focus: &SidebarFocusState) -> (r: bool)
        ensures
            r == (self@.focus() == focus@),
    {
        match (self, focus) {
            (SidebarRow::DependencyTableHeader { cursor, .. }, SidebarFocusState::DependencyTable(c)) => cursor.same_as(c),
            (SidebarRow::Dependency { cursor, .. }, SidebarFocusState::Dependency(c)) => cursor.same_as(c),
            _ => false,
        }
    }

    /// The selection that names this row.
    pub fn focus(&self) -> (r: SidebarFocusState)
        ensures
            r@ == self@.focus(),
    {
        match self {
            SidebarRow::DependencyTableHeader { cursor, .. } => SidebarFocusState::DependencyTable(cursor.duplicate()),
            SidebarRow::Dependency { cursor, .. } => SidebarFocusState::Dependency(cursor.duplicate()),
        }
    }

    /// The text of a table header row.
    pub fn header_text(cursor: &DependencyTableCursor, collapsed: bool) -> (r: String)
        ensures
            r@ == header_text_spec(cursor@, collapsed),
    {
        proof {
            reveal_strlit(" ");
            reveal_strlit("\u{25b6}");
            reveal_strlit("\u{25bc}");
        }
        let arrow = if collapsed {
            "\u{25b6}"
        } else {
            "\u{25bc}"
        };
        let mut s = concat(" ", arrow);
        s.append(" ");
        let title = cursor.to_text();
        s.append(title.as_str());
        s
    }
}

/// The row of a dependency of the table at `table`: its version text, and the status of its
/// check (pending where none was recorded).
pub open spec fn dependency_row(
    table: TableCursorView,
    d: DependencyView,
    cache: Map<DependencyCursorView, UpdateStatusView>,
) -> SidebarRowView {
    let c = DependencyCursorView { table, name: d.name };
    SidebarRowView::Dependency {
        cursor: c,
        version: d.source.text(),
        update_status: if cache.contains_key(c) {
            cache[c]
        } else {
            UpdateStatusView::Pending
        },
    }
}

pub open spec fn is_collapsed_in(collapsed: Map<TableCursorView, bool>, c: TableCursorView) -> bool {
    collapsed.contains_key(c) && collapsed[c]
}

/// The rows of a table: its header, then its dependencies unless it is collapsed.
pub open spec fn table_rows(
    t: DependencyTableView,
    collapsed: Map<TableCursorView, bool>,
    cache: Map<DependencyCursorView, UpdateStatusView>,
) -> Seq<SidebarRowView> {
    let c = is_collapsed_in(collapsed, t.cursor);
    seq![SidebarRowView::DependencyTableHeader { cursor: t.cursor, collapsed: c }] + if c {
        Seq::empty()
    } else {
        t.deps.map_values(|d: DependencyView| dependency_row(t.cursor, d, cache))
    }
}

pub open spec fn rows_of(
    ts: Seq<DependencyTableView>,
    collapsed: Map<TableCursorView, bool>,
    cache: Map<DependencyCursorView, UpdateStatusView>,
) -> Seq<SidebarRowView>
    decreases ts.len(),
{
    if ts.len() == 0 {
        Seq::empty()
    } else {
        rows_of(ts.drop_last(), collapsed, cache) + table_rows(ts.last(), collapsed, cache)
    }
}

/// The rows of the sidebar, where the manifest's tables can be read.
pub open spec fn sidebar_rows_spec(a: AppView) -> Option<Seq<SidebarRowView>> {
    match manifest_tables(a.manifest.nodes, a.manifest.order) {
        Some(ts) => Some(rows_of(ts, a.collapsed, a.cache)),
        None => None,
    }
}

/// The position of the first row that `f` names.
pub open spec fn selected_index_spec(rows: Seq<SidebarRowView>, f: SidebarFocusView) -> Option<int> {
    first_where(rows, |r: SidebarRowView| r.focus() == f)
}

/// The row above the selected one; the last row where none is selected.
pub open spec fn up_target(rows: Seq<SidebarRowView>, f: SidebarFocusView) -> Option<SidebarFocusView> {
    let k = match selected_index_spec(rows, f) {
        Some(k) => k,
        None => rows.len() as int,
    };
    if k > 0 {
        Some(rows[k - 1].focus())
    } else {
        None
    }
}

/// The row below the selected one.
pub open spec fn down_target(rows: Seq<SidebarRowView>, f: SidebarFocusView) -> Option<SidebarFocusView> {
    match selected_index_spec(rows, f) {
        Some(k) => if k + 1 < rows.len() {
            Some(rows[k + 1].focus())
        } else {
            None
        },
        None => None,
    }
}

pub open spec fn moved_to(a: AppView, target: Option<SidebarFocusView>) -> AppView {
    match target {
        Some(f) => AppView { sidebar: f, ..a },
        None => a,
    }
}

/// The state once Enter was pressed in the sidebar: a table header is collapsed or
/// expanded; a dependency opens in the main area, which takes the focus.
pub open spec fn focus_selected_spec(a: AppView) -> AppView {
    match a.sidebar {
        SidebarFocusView::DependencyTable(c) => AppView {
            collapsed: a.collapsed.insert(c, !is_collapsed_in(a.collapsed, c)),
            ..a
        },
        SidebarFocusView::Dependency(c) => AppView {
            main: Some(MainFocusView { cursor: c, versions: None, features: None, focused_area: DependencyArea::Main }),
            stack: a.stack.push(FocusedAreaView::Main),
            ..a
        },
    }
}

pub open spec fn focus_selected_effects(a: AppView) -> Seq<EffectView> {
    match a.sidebar {
        SidebarFocusView::DependencyTable(_) => Seq::empty(),
        SidebarFocusView::Dependency(c) => seq![
            EffectView::Send(AppEventView::LoadDependencyVersions(c)),
            EffectView::Send(AppEventView::LoadDependencyFeatures(c)),
        ],
    }
}

pub open spec fn error_window(e: DependencyUpdateError, cause: Option<CheckForUpdateError>) -> FocusedAreaView {
    FocusedAreaView::Modal(ModalView::DependencyUpdateError(e, cause))
}

/// The state once `u` was pressed in the sidebar on a dependency: the update window where
/// its check found an update; else a window that says why there is none, and where the
/// check failed, its status is forgotten so that it is checked again.
pub open spec fn update_spec(a: AppView) -> AppView {
    match a.sidebar {
        SidebarFocusView::DependencyTable(_) => a,
        SidebarFocusView::Dependency(c) => if !a.cache.contains_key(c) {
            AppView { stack: a.stack.push(error_window(DependencyUpdateError::NoUpdate, None)), ..a }
        } else {
            match a.cache[c] {
                UpdateStatusView::UpdateAvailable(r) => AppView {
                    stack: a.stack.push(
                        FocusedAreaView::Modal(
                            ModalView::UpdateDependency(
                                UpdateModalView { dependency: c, selected: SelectionType::Cancel, result: r },
                            ),
                        ),
                    ),
                    ..a
                },
                UpdateStatusView::Pending => AppView {
                    stack: a.stack.push(error_window(DependencyUpdateError::Pending, None)),
                    ..a
                },
                UpdateStatusView::UpToDate => AppView {
                    stack: a.stack.push(error_window(DependencyUpdateError::NoUpdate, None)),
                    ..a
                },
                UpdateStatusView::Error(cause) => AppView {
                    cache: a.cache.remove(c),
                    stack: a.stack.push(error_window(DependencyUpdateError::UpdateCheckError, Some(cause))),
                    ..a
                },
            }
        },
    }
}

pub open spec fn update_effect(a: AppView) -> Option<EffectView> {
    match a.sidebar {
        SidebarFocusView::Dependency(c) => if a.cache.contains_key(c) && a.cache[c] is Error {
            Some(EffectView::Send(AppEventView::UpdateCheck { cursor: c }))
        } else {
            None
        },
        _ => None,
    }
}

/// Pressing Enter twice on a table header leaves every table as collapsed as it was.
pub proof fn law_double_toggle_restores(a: AppView, t: TableCursorView)
    requires
        a.sidebar is DependencyTable,
    ensures
        is_collapsed_in(focus_selected_spec(focus_selected_spec(a)).collapsed, t) == is_collapsed_in(a.collapsed, t),
        focus_selected_spec(focus_selected_spec(a)).sidebar == a.sidebar,
        focus_selected_spec(focus_selected_spec(a)).stack == a.stack,
{
}

/// Opening a dependency from the sidebar, then closing the main area, gives the focus
/// back to the sidebar.
pub proof fn law_close_returns_to_sidebar(a: AppView)
    requires
        a.sidebar is Dependency,
    ensures
        crate::keybinds::close_spec(focus_selected_spec(a)).stack == a.stack,
{
    assert(focus_selected_spec(a).stack.drop_last() =~= a.stack);
}

/// Where every row is named by a selection of its own, moving down then up comes back to
/// the row the selection started on, unless it is the last row.
pub proof fn law_up_undoes_down(rows: Seq<SidebarRowView>, f: SidebarFocusView)
    requires
        forall|i: int, j: int| 0 <= i < j < rows.len() ==> #[trigger] rows[i].focus() != #[trigger] rows[j].focus(),
        selected_index_spec(rows, f) matches Some(k) && k + 1 < rows.len(),
    ensures
        up_target(rows, down_target(rows, f)->0) == Some(f),
{
    let p = |r: SidebarRowView| r.focus() == f;
    assert(selected_index_spec(rows, f) == first_where(rows, p));
    lemma_first_where_some(rows, p);
    let k = selected_index_spec(rows, f)->0;
    let g = rows[k + 1].focus();
    let q = |r: SidebarRowView| r.focus() == g;
    assert forall|j: int| 0 <= j < k + 1 implies !q(#[trigger] rows[j]) by {
        assert(rows[j].focus() != rows[k + 1].focus());
    }
    lemma_first_where(rows, q, k + 1);
    assert(selected_index_spec(rows, g) == first_where(rows, q));
}

/// The table that a selection lies in.
pub open spec fn focus_table(f: SidebarFocusView) -> TableCursorView {
    match f {
        SidebarFocusView::DependencyTable(c) => c,
        SidebarFocusView::Dependency(c) => c.table,
    }
}

/// No two rows are named by the same selection.
pub open spec fn rows_distinct(rows: Seq<SidebarRowView>) -> bool {
    forall|i: int, j: int| 0 <= i < j < rows.len() ==> #[trigger] rows[i].focus() != #[trigger] rows[j].focus()
}

proof fn lemma_rows_distinct(
    ts: Seq<DependencyTableView>,
    collapsed: Map<TableCursorView, bool>,
    cache: Map<DependencyCursorView, UpdateStatusView>,
)
    requires
        tables_distinct(ts),
    ensures
        rows_distinct(rows_of(ts, collapsed, cache)),
        forall|i: int|
            0 <= i < rows_of(ts, collapsed, cache).len() ==> exists|k: int|
                0 <= k < ts.len() && ts[k].cursor == focus_table((#[trigger] rows_of(ts, collapsed, cache)[i]).focus()),
    decreases ts.len(),
{
    if ts.len() > 0 {
        let prev = ts.drop_last();
        let last = ts.last();
        assert forall|i: int| 0 <= i < prev.len() implies #[trigger] prev[i] == ts[i] by {}
        assert(tables_distinct(prev)) by {
            assert forall|i: int, j: int| 0 <= i < j < prev.len() implies #[trigger] prev[i].cursor
                != #[trigger] prev[j].cursor by {
                assert(prev[i] == ts[i] && prev[j] == ts[j]);
            }
            assert forall|i: int, a: int, b: int|
                0 <= i < prev.len() && 0 <= a < b < prev[i].deps.len() implies #[trigger] prev[i].deps[a].name
                != #[trigger] prev[i].deps[b].name by {
                assert(prev[i] == ts[i]);
            }
        }
        lemma_rows_distinct(prev, collapsed, cache);
        let r = rows_of(prev, collapsed, cache);
        let t = table_rows(last, collapsed, cache);
        let rows = rows_of(ts, collapsed, cache);
        assert(rows == r + t);
        let n = ts.len() - 1;
        assert(ts[n] == last);
        assert forall|x: int| 0 <= x < t.len() implies focus_table((#[trigger] t[x]).focus()) == last.cursor by {}
        assert forall|i: int| 0 <= i < r.len() implies focus_table((#[trigger] r[i]).focus()) != last.cursor by {
            let k = choose|k: int| 0 <= k < prev.len() && prev[k].cursor == focus_table(r[i].focus());
            assert(prev[k] == ts[k]);
            assert(ts[k].cursor != ts[n].cursor);
        }
        assert forall|i: int| 0 <= i < rows.len() implies exists|k: int|
            0 <= k < ts.len() && ts[k].cursor == focus_table((#[trigger] rows[i]).focus()) by {
            if i < r.len() {
                assert(rows[i] == r[i]);
                let k = choose|k: int| 0 <= k < prev.len() && prev[k].cursor == focus_table(r[i].focus());
                assert(prev[k] == ts[k]);
            } else {
                assert(rows[i] == t[i - r.len()]);
            }
        }
        assert forall|i: int, j: int| 0 <= i < j < rows.len() implies #[trigger] rows[i].focus()
            != #[trigger] rows[j].focus() by {
            if j < r.len() {
                assert(rows[i] == r[i] && rows[j] == r[j]);
            } else if i < r.len() {
                assert(rows[i] == r[i] && rows[j] == t[j - r.len()]);
            } else {
                let a = i - r.len();
                let b = j - r.len();
                assert(rows[i] == t[a] && rows[j] == t[b]);
                if a > 0 {
                    assert(t[a] == dependency_row(last.cursor, last.deps[a - 1], cache));
                    assert(t[b] == dependency_row(last.cursor, last.deps[b - 1], cache));
                    assert(ts[n].deps[a - 1].name != ts[n].deps[b - 1].name);
                } else {
                    assert(t[b] == dependency_row(last.cursor, last.deps[b - 1], cache));
                }
            }
        }
    }
}

/// Where each table that reading the dependency tables looks at lists each key once, as
/// the tables of a TOML document do, no two rows of the sidebar are named by the same
/// selection.
pub proof fn law_sidebar_rows_are_distinct(a: AppView)
    requires
        keys_read_distinct(a.manifest.nodes, a.manifest.order),
        sidebar_rows_spec(a) is Some,
    ensures
        rows_distinct(sidebar_rows_spec(a)->0),
{
    law_dependency_tables_are_distinct(a.manifest.nodes, a.manifest.order);
    lemma_rows_distinct(manifest_tables(a.manifest.nodes, a.manifest.order)->0, a.collapsed, a.cache);
}

/// In the sidebar of a manifest whose tables list each key once, moving down then up
/// comes back to the selected row, unless it is the last row.
pub proof fn law_sidebar_up_undoes_down(a: AppView)
    requires
        keys_read_distinct(a.manifest.nodes, a.manifest.order),
        sidebar_rows_spec(a) is Some,
        selected_index_spec(sidebar_rows_spec(a)->0, a.sidebar) matches Some(k) && k + 1 < sidebar_rows_spec(
            a,
        )->0.len(),
    ensures
        moved_to(
            moved_to(a, down_target(sidebar_rows_spec(a)->0, a.sidebar)),
            up_target(
                sidebar_rows_spec(a)->0,
                moved_to(a, down_target(sidebar_rows_spec(a)->0, a.sidebar)).sidebar,
            ),
        ) == a,
{
    let rows = sidebar_rows_spec(a)->0;
    law_sidebar_rows_are_distinct(a);
    law_up_undoes_down(rows, a.sidebar);
}

/// The keybinds of the sidebar.
pub struct SidebarKeybinds;

impl SidebarKeybinds {
    /// Previous Item
    pub fn up(app: &mut App)
        requires
            sidebar_rows_spec(old(app)@) is Some,
        ensures
            final(app)@ == moved_to(old(app)@, up_target(sidebar_rows_spec(old(app)@)->0, old(app)@.sidebar)),
    {
        let rows = app.sidebar_rows();
        let selected = app.sidebar_selected_index();
        proof {
            let rv = rows@.map_values(|x: SidebarRow| x@);
            if selected is Some {
                lemma_first_where_some(rv, |r: SidebarRowView| r.focus() == old(app)@.sidebar);
            }
        }
        let k = match selected {
            Some(k) => k,
            None => rows.len(),
        };
        if k > 0 {
            app.sidebar_focus_state = rows[k - 1].focus();
        }
    }

    /// Next item
    pub fn down(app: &mut App)
        requires
            sidebar_rows_spec(old(app)@) is Some,
        ensures
            final(app)@ == moved_to(old(app)@, down_target(sidebar_rows_spec(old(app)@)->0, old(app)@.sidebar)),
    {
        let rows = app.sidebar_rows();
        let selected = app.sidebar_selected_index();
        proof {
            let rv = rows@.map_values(|x: SidebarRow| x@);
            if selected is Some {
                lemma_first_where_some(rv, |r: SidebarRowView| r.focus() == old(app)@.sidebar);
            }
        }
        match selected {
            Some(k) => {
                if k + 1 < rows.len() {
                    app.sidebar_focus_state = rows[k + 1].focus();
                }
            },
            None => {},
        }
    }

    /// Toggle tree / focus selected item
    pub fn focus_selected(app: &mut App) -> (r: Vec<Effect>)
        ensures
            final(app)@ == focus_selected_spec(old(app)@),
            r@.map_values(|e: Effect| e@) == focus_selected_effects(old(app)@),
    {
        let focus = app.sidebar_focus_state.duplicate();
        let mut effects: Vec<Effect> = Vec::new();
        match focus {
            SidebarFocusState::DependencyTable(c) => {
                app.toggle_collapsed(&c);
            },
            SidebarFocusState::Dependency(c) => {
                app.main_focus_state = Some(
                    MainFocusState::Dependency {
                        cursor: c.duplicate(),
                        versions: None,
                        features: None,
                        focused_area: DependencyArea::Main,
                    },
                );
                effects.push(Effect::Send(AppEvent::LoadDependencyVersions(c.duplicate())));
                effects.push(Effect::Send(AppEvent::LoadDependencyFeatures(c)));
                let ghost before = app.focus_stack@;
                app.focus_stack.push(FocusedArea::Main);
                proof {
                    assert(crate::app::stack_view(app.focus_stack@) =~= crate::app::stack_view(before).push(
                        FocusedAreaView::Main,
                    ));
                }
            },
        }
        proof {
            assert(effects@.map_values(|e: Effect| e@) =~= focus_selected_effects(old(app)@));
        }
        effects
    }

    /// Update the selected item
    pub fn update(app: &mut App) -> (r: Option<Effect>)
        ensures
            final(app)@ == update_spec(old(app)@),
            match r {
                Some(e) => update_effect(old(app)@) == Some(e@),
                None => update_effect(old(app)@) is None,
            },
    {
        let focus = app.sidebar_focus_state.duplicate();
        let cursor = match focus {
            SidebarFocusState::DependencyTable(_) => {
                return None;
            },
            SidebarFocusState::Dependency(c) => c,
        };
        let window = match app.update_status(&cursor) {
            None => Err((DependencyUpdateError::NoUpdate, None)),
            Some(UpdateStatus::UpdateAvailable(result)) => Ok(
                UpdateDependencyModal::new(cursor.duplicate(), result.duplicate()),
            ),
            Some(UpdateStatus::Pending) => Err((DependencyUpdateError::Pending, None)),
            Some(UpdateStatus::UpToDate) => Err((DependencyUpdateError::NoUpdate, None)),
            Some(UpdateStatus::Error(cause)) => Err((DependencyUpdateError::UpdateCheckError, Some(*cause))),
        };
        let effect = match window {
            Err((DependencyUpdateError::UpdateCheckError, _)) => {
                app.forget_status(&cursor);
                Some(Effect::Send(AppEvent::UpdateCheck { cursor }))
            },
            _ => None,
        };
        let area = match window {
            Ok(modal) => FocusedArea::Modal(ModalState::UpdateDependency(modal)),
            Err((e, cause)) => FocusedArea::Modal(ModalState::DependencyUpdateError(e, cause)),
        };
        let ghost before = app.focus_stack@;
        app.focus_stack.push(area);
        proof {
            assert(crate::app::stack_view(app.focus_stack@) =~= crate::app::stack_view(before).push(
                app.focus_stack@.last()@,
            ));
        }
        effect
    }
}

impl App {
    /// The rows of the sidebar: each table's header, then its dependencies unless collapsed.
    pub fn sidebar_rows(&self) -> (r: Vec<SidebarRow>)
        requires
            sidebar_rows_spec(self@) is Some,
        ensures
            r@.map_values(|x: SidebarRow| x@) == sidebar_rows_spec(self@)->0,
            keys_read_distinct(self@.manifest.nodes, self@.manifest.order),
            rows_distinct(r@.map_values(|x: SidebarRow| x@)),
    {
        let tables = match self.manifest.dependencies() {
            Ok(t) => t,
            Err(_) => {
                return Vec::new();
            },
        };
        let ghost ts = tables@.map_values(|t: DependencyTable| t@);
        let ghost a = self@;
        let mut rows: Vec<SidebarRow> = Vec::new();
        let mut i: usize = 0;
        while i < tables.len()
            invariant
                i <= tables.len(),
                a == self@,
                ts == tables@.map_values(|t: DependencyTable| t@),
                rows@.map_values(|x: SidebarRow| x@) == rows_of(ts.subrange(0, i as int), a.collapsed, a.cache),
            decreases tables.len() - i,
        {
            let table = &tables[i];
            let ghost tv = ts[i as int];
            let ghost before = rows@.map_values(|x: SidebarRow| x@);
            let collapsed = self.is_collapsed(&table.cursor);
            rows.push(SidebarRow::DependencyTableHeader { cursor: table.cursor.duplicate(), collapsed });
            proof {
                assert(rows@.map_values(|x: SidebarRow| x@) =~= before.push(rows@.last()@));
            }
            if !collapsed {
                let mut j: usize = 0;
                while j < table.deps.len()
                    invariant
                        j <= table.deps.len(),
                        a == self@,
                        tv == table@,
                        rows@.map_values(|x: SidebarRow| x@) == before + seq![
                            SidebarRowView::DependencyTableHeader { cursor: tv.cursor, collapsed: false },
                        ] + tv.deps.subrange(0, j as int).map_values(
                            |d: DependencyView| dependency_row(tv.cursor, d, a.cache),
                        ),
                    decreases table.deps.len() - j,
                {
                    let dep = &table.deps[j];
                    let cursor = DependencyCursor { table: table.cursor.duplicate(), name: String::from_str(dep.name()) };
                    let update_status = match self.update_status(&cursor) {
                        Some(s) => s.duplicate(),
                        None => UpdateStatus::Pending,
                    };
                    let ghost prev = rows@;
                    rows.push(SidebarRow::Dependency { cursor, version: dep.source().to_text(), update_status });
                    proof {
                        assert(tv.deps[j as int] == table.deps@[j as int]@);
                        assert(rows@.map_values(|x: SidebarRow| x@) =~= prev.map_values(|x: SidebarRow| x@).push(
                            rows@.last()@,
                        ));
                        assert(tv.deps.subrange(0, j + 1).map_values(
                            |d: DependencyView| dependency_row(tv.cursor, d, a.cache),
                        ) =~= tv.deps.subrange(0, j as int).map_values(
                            |d: DependencyView| dependency_row(tv.cursor, d, a.cache),
                        ).push(rows@.last()@));
                    }
                    j = j + 1;
                }
                proof {
                    assert(tv.deps.subrange(0, tv.deps.len() as int) =~= tv.deps);
                }
            }
            proof {
                assert(ts.subrange(0, i + 1).drop_last() =~= ts.subrange(0, i as int));
                assert(ts.subrange(0, i + 1).last() == tv);
                assert(rows@.map_values(|x: SidebarRow| x@) =~= before + table_rows(tv, a.collapsed, a.cache));
            }
            i = i + 1;
        }
        proof {
            assert(ts.subrange(0, tables@.len() as int) =~= ts);
            law_sidebar_rows_are_distinct(a);
        }
        rows
    }

    /// Returns the index of the selected item in the sidebar, if any.
    pub fn sidebar_selected_index(&self) -> (r: Option<usize>)
        requires
            sidebar_rows_spec(self@) is Some,
        ensures
            match r {
                Some(i) => selected_index_spec(sidebar_rows_spec(self@)->0, self@.sidebar) == Some(i as int),
                None => selected_index_spec(sidebar_rows_spec(self@)->0, self@.sidebar) is None,
            },
    {
        let rows = self.sidebar_rows();
        let ghost rv = rows@.map_values(|x: SidebarRow| x@);
        let ghost f = self@.sidebar;
        let mut i: usize = 0;
        while i < rows.len()
            invariant
                i <= rows.len(),
                rv == rows@.map_values(|x: SidebarRow| x@),
                rv == sidebar_rows_spec(self@)->0,
                f == self@.sidebar,
                forall|j: int| 0 <= j < i ==> (#[trigger] rv[j]).focus() != f,
            decreases rows.len() - i,
        {
            let m = rows[i].matches(&self.sidebar_focus_state);
            assert(rv[i as int] == rows@[i as int]@);
            if m {
                proof {
                    let p = |r: SidebarRowView| r.focus() == f;
                    assert(p(rv[i as int]));
                    lemma_first_where(rv, p, i as int);
                    assert(selected_index_spec(rv, f) == first_where(rv, p));
                }
                return Some(i);
            }
            i = i + 1;
        }
        proof {
            let p = |r: SidebarRowView| r.focus() == f;
            lemma_first_where(rv, p, i as int);
            assert(selected_index_spec(rv, f) == first_where(rv, p));
        }
        None
    }
}

} // verus!
