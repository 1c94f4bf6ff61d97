//! The window that updates a dependency to one of the versions its check found.

use vstd::prelude::*;

use crate::app::{stack_view, App, AppEventView, AppView, Effect, EffectView, FocusedArea, FocusedAreaView};
use crate::event::AppEvent;
use crate::keybinds::close_spec;
use crate::manifest::dependency::{DependencyCursor, DependencyCursorView};
use crate::manifest::version_type_text;
use crate::text::concat;
use crate::ui::modals::{ModalState, ModalView, SelectionType};
use crate::updater::{opt_view_of, UpdateResult, UpdateResultView, VersionType, VersionTypeView};

verus! {

/// The update window: the dependency, the versions its check found, and the selected button.
#[derive(Debug)]
pub struct UpdateDependencyModal {
    pub dependency: DependencyCursor,
    pub selected: SelectionType,
    pub result: UpdateResult<VersionType>,
}

pub struct UpdateModalView {
    pub dependency: DependencyCursorView,
    pub selected: SelectionType,
    pub result: UpdateResultView<VersionTypeView>,
}

impl View for UpdateDependencyModal {
    type V = UpdateModalView;

    open spec fn view(&self) -> UpdateModalView {
        UpdateModalView { dependency: self.dependency@, selected: self.selected, result: self.result@ }
    }
}

impl UpdateDependencyModal {
    /// A window for the dependency at `dependency`, with Cancel selected.
    pub fn new(dependency: DependencyCursor, result: UpdateResult<VersionType>) -> (r: UpdateDependencyModal)
        ensures
            r.dependency == dependency,
            r.selected == SelectionType::Cancel,
            r.result == result,
    {
        UpdateDependencyModal { dependency, selected: SelectionType::Cancel, result }
    }

    /// The version of the selected button: none for Cancel.
    pub fn selected_version(&self) -> (r: Option<&VersionType>)
        ensures
            opt_view_of(r) == selected_version_spec(self@),
    {
        match self.selected {
            SelectionType::Cancel => None,
            SelectionType::SemverCompatible => self.result.semantic_latest_version.as_ref(),
            SelectionType::Latest => self.result.latest_version.as_ref(),
        }
    }

    /// The text of the version that the selected button updates to.
    pub fn selected_version_text(&self) -> (r: String)
        requires
            is_offered(self.selected, self@.result),
        ensures
            r@ == match selected_version_spec(self@) {
                Some(v) => version_type_text(v),
                None => "[N/A]"@,
            },
    {
        proof {
            reveal_strlit("[N/A]");
        }
        match self.selected_version() {
            Some(v) => v.to_text(),
            None => String::from_str("[N/A]"),
        }
    }

    /// The buttons of the window, left to right, each with its label.
    pub fn buttons(&self) -> (r: Vec<(String, SelectionType)>)
        ensures
            r@.map_values(|b: (String, SelectionType)| (b.0@, b.1)) == buttons_spec(self@.result),
    {
        proof {
            reveal_strlit("Cancel");
            reveal_strlit("Compatible (");
            reveal_strlit("Latest (");
            reveal_strlit(")");
        }
        let mut r: Vec<(String, SelectionType)> = Vec::new();
        r.push((String::from_str("Cancel"), SelectionType::Cancel));
        let ghost b0 = r@;
        match &self.result.semantic_latest_version {
            Some(v) => {
                let text = v.to_text();
                let mut label = concat("Compatible (", text.as_str());
                label.append(")");
                r.push((label, SelectionType::SemverCompatible));
            },
            None => {},
        }
        let ghost b1 = r@;
        match &self.result.latest_version {
            Some(v) => {
                let text = v.to_text();
                let mut label = concat("Latest (", text.as_str());
                label.append(")");
                r.push((label, SelectionType::Latest));
            },
            None => {},
        }
        proof {
            assert(r@.map_values(|b: (String, SelectionType)| (b.0@, b.1)) =~= buttons_spec(self@.result));
        }
        r
    }
}

/// Whether the window shows a button for `s`.
pub open spec fn is_offered(s: SelectionType, r: UpdateResultView<VersionTypeView>) -> bool {
    match s {
        SelectionType::Cancel => true,
        SelectionType::SemverCompatible => r.semantic_latest_version is Some,
        SelectionType::Latest => r.latest_version is Some,
    }
}

pub open spec fn selected_version_spec(w: UpdateModalView) -> Option<VersionTypeView> {
    match w.selected {
        SelectionType::Cancel => None,
        SelectionType::SemverCompatible => w.result.semantic_latest_version,
        SelectionType::Latest => w.result.latest_version,
    }
}

pub open spec fn labelled(prefix: Seq<char>, v: Option<VersionTypeView>, s: SelectionType) -> Seq<(Seq<char>, SelectionType)> {
    match v {
        Some(v) => seq![(prefix + version_type_text(v) + ")"@, s)],
        None => Seq::empty(),
    }
}

/// The buttons: Cancel, then one per version found, the compatible one first.
pub open spec fn buttons_spec(r: UpdateResultView<VersionTypeView>) -> Seq<(Seq<char>, SelectionType)> {
    seq![("Cancel"@, SelectionType::Cancel)] + labelled(
        "Compatible ("@,
        r.semantic_latest_version,
        SelectionType::SemverCompatible,
    ) + labelled("Latest ("@, r.latest_version, SelectionType::Latest)
}

/// The button left of `s`, the buttons being Cancel, the compatible version and the latest
/// version, those shown, in a ring.
pub open spec fn select_left(s: SelectionType, semver: bool, latest: bool) -> SelectionType {
    match s {
        SelectionType::Cancel => if latest {
            SelectionType::Latest
        } else {
            SelectionType::Cancel
        },
        SelectionType::SemverCompatible => SelectionType::Cancel,
        SelectionType::Latest => if semver {
            SelectionType::SemverCompatible
        } else {
            SelectionType::Cancel
        },
    }
}

/// The button right of `s`.
pub open spec fn select_right(s: SelectionType, semver: bool, latest: bool) -> SelectionType {
    match s {
        SelectionType::Cancel => if semver {
            SelectionType::SemverCompatible
        } else if latest {
            SelectionType::Latest
        } else {
            SelectionType::Cancel
        },
        SelectionType::SemverCompatible => if latest {
            SelectionType::Latest
        } else {
            SelectionType::Cancel
        },
        SelectionType::Latest => SelectionType::Cancel,
    }
}

/// Each button asks for its own version: Cancel for none, the compatible button for the
/// semantic latest version, the latest button for the latest version, whatever the other
/// version is.
pub proof fn law_selected_button_gives_its_version(w: UpdateModalView)
    ensures
        w.selected == SelectionType::Cancel ==> selected_version_spec(w) is None,
        w.selected == SelectionType::SemverCompatible ==> selected_version_spec(w)
            == w.result.semantic_latest_version,
        w.selected == SelectionType::Latest ==> selected_version_spec(w) == w.result.latest_version,
        is_offered(w.selected, w.result) && w.selected != SelectionType::Cancel ==> selected_version_spec(w) is Some,
{
}

/// Moving left or right always lands on a button that the window shows.
pub proof fn law_moves_land_on_buttons(s: SelectionType, r: UpdateResultView<VersionTypeView>)
    ensures
        is_offered(
            select_left(s, r.semantic_latest_version is Some, r.latest_version is Some),
            r,
        ),
        is_offered(
            select_right(s, r.semantic_latest_version is Some, r.latest_version is Some),
            r,
        ),
{
}

/// Moving right, then left, comes back to a shown button, except from the compatible
/// version where no latest version is shown (the ring is then Cancel and the compatible
/// version, and left of Cancel stays on Cancel).
pub proof fn law_left_undoes_right(s: SelectionType, r: UpdateResultView<VersionTypeView>)
    requires
        is_offered(s, r),
        !(s == SelectionType::SemverCompatible && r.latest_version is None),
    ensures
        select_left(
            select_right(s, r.semantic_latest_version is Some, r.latest_version is Some),
            r.semantic_latest_version is Some,
            r.latest_version is Some,
        ) == s,
{
}

/// The position of the topmost update window in the focus stack.
pub open spec fn last_update_window(stack: Seq<FocusedAreaView>) -> Option<int>
    decreases stack.len(),
{
    if stack.len() == 0 {
        None
    } else if stack.last() matches FocusedAreaView::Modal(ModalView::UpdateDependency(_)) {
        Some(stack.len() - 1)
    } else {
        last_update_window(stack.drop_last())
    }
}

pub open spec fn window_at(a: AppView, i: int) -> UpdateModalView {
    a.stack[i]->Modal_0->UpdateDependency_0
}

/// The state with the topmost update window's selection moved by `step`.
pub open spec fn with_selection(a: AppView, step: spec_fn(SelectionType, bool, bool) -> SelectionType) -> AppView {
    match last_update_window(a.stack) {
        Some(i) => {
            let w = window_at(a, i);
            let s = step(w.selected, w.result.semantic_latest_version is Some, w.result.latest_version is Some);
            AppView {
                stack: a.stack.update(
                    i,
                    FocusedAreaView::Modal(ModalView::UpdateDependency(UpdateModalView { selected: s, ..w })),
                ),
                ..a
            }
        },
        None => a,
    }
}

proof fn lemma_last_update_window(stack: Seq<FocusedAreaView>)
    ensures
        last_update_window(stack) matches Some(i) ==> 0 <= i < stack.len() && stack[i] matches FocusedAreaView::Modal(
            ModalView::UpdateDependency(_),
        ),
    decreases stack.len(),
{
    if stack.len() > 0 {
        lemma_last_update_window(stack.drop_last());
    }
}

fn find_update_window(stack: &Vec<FocusedArea>) -> (r: Option<usize>)
    ensures
        match r {
            Some(i) => last_update_window(stack_view(stack@)) == Some(i as int),
            None => last_update_window(stack_view(stack@)) is None,
        },
{
    let ghost sv = stack_view(stack@);
    let mut i: usize = stack.len();
    proof {
        assert(sv.subrange(0, i as int) =~= sv);
    }
    while i > 0
        invariant
            i <= stack.len(),
            sv == stack_view(stack@),
            last_update_window(sv) == last_update_window(sv.subrange(0, i as int)),
        decreases i,
    {
        proof {
            assert(sv.subrange(0, i as int).drop_last() =~= sv.subrange(0, i - 1));
            assert(sv.subrange(0, i as int).last() == stack@[i - 1]@);
        }
        match &stack[i - 1] {
            FocusedArea::Modal(ModalState::UpdateDependency(_)) => {
                return Some(i - 1);
            },
            _ => {},
        }
        i = i - 1;
    }
    None
}

/// Moves the selection of the topmost update window by `left` or right.
fn move_selection(app: &mut App, left: bool)
    ensures
        left ==> final(app)@ == with_selection(
            old(app)@,
            |s: SelectionType, semver: bool, latest: bool| select_left(s, semver, latest),
        ),
        !left ==> final(app)@ == with_selection(
            old(app)@,
            |s: SelectionType, semver: bool, latest: bool| select_right(s, semver, latest),
        ),
{
    let i = match find_update_window(&app.focus_stack) {
        Some(i) => i,
        None => {
            return;
        },
    };
    proof {
        lemma_last_update_window(stack_view(app.focus_stack@));
    }
    let ghost before = app.focus_stack@;
    let area = app.focus_stack.remove(i);
    let area = match area {
        FocusedArea::Modal(ModalState::UpdateDependency(w)) => {
            let semver = w.result.semantic_latest_version.is_some();
            let latest = w.result.latest_version.is_some();
            let selected = match (w.selected, left) {
                (SelectionType::Cancel, true) => if latest {
                    SelectionType::Latest
                } else {
                    SelectionType::Cancel
                },
                (SelectionType::SemverCompatible, true) => SelectionType::Cancel,
                (SelectionType::Latest, true) => if semver {
                    SelectionType::SemverCompatible
                } else {
                    SelectionType::Cancel
                },
                (SelectionType::Cancel, false) => if semver {
                    SelectionType::SemverCompatible
                } else if latest {
                    SelectionType::Latest
                } else {
                    SelectionType::Cancel
                },
                (SelectionType::SemverCompatible, false) => if latest {
                    SelectionType::Latest
                } else {
                    SelectionType::Cancel
                },
                (SelectionType::Latest, false) => SelectionType::Cancel,
            };
            FocusedArea::Modal(
                ModalState::UpdateDependency(
                    UpdateDependencyModal { dependency: w.dependency, selected, result: w.result },
                ),
            )
        },
        other => other,
    };
    app.focus_stack.insert(i, area);
    proof {
        assert(stack_view(app.focus_stack@) =~= stack_view(before).update(i as int, app.focus_stack@[i as int]@));
    }
}

/// The keybinds of the update window.
pub struct UpdateDependencyModalKeybinds;

impl UpdateDependencyModalKeybinds {
    /// Move the cursor left
    pub fn left(app: &mut App)
        ensures
            final(app)@ == with_selection(
                old(app)@,
                |s: SelectionType, semver: bool, latest: bool| select_left(s, semver, latest),
            ),
    {
        move_selection(app, true);
    }

    /// Move the cursor right
    pub fn right(app: &mut App)
        ensures
            final(app)@ == with_selection(
                old(app)@,
                |s: SelectionType, semver: bool, latest: bool| select_right(s, semver, latest),
            ),
    {
        move_selection(app, false);
    }

    /// Update/Cancel update: Cancel closes the window; a version button asks for the
    /// dependency to be updated to that version.
    pub fn enter(app: &mut App) -> (r: Option<Effect>)
        requires
            last_update_window(old(app)@.stack) is Some,
            is_offered(
                window_at(old(app)@, last_update_window(old(app)@.stack)->0).selected,
                window_at(old(app)@, last_update_window(old(app)@.stack)->0).result,
            ),
        ensures
            ({
                let w = window_at(old(app)@, last_update_window(old(app)@.stack)->0);
                match selected_version_spec(w) {
                    None => final(app)@ == close_spec(old(app)@) && r is None,
                    Some(v) => final(app)@ == old(app)@ && (r matches Some(e) && e@ == EffectView::Send(
                        AppEventView::UpdateDependency { cursor: w.dependency, version: v },
                    )),
                }
            }),
    {
        let i = match find_update_window(&app.focus_stack) {
            Some(i) => i,
            None => {
                return None;
            },
        };
        proof {
            lemma_last_update_window(stack_view(app.focus_stack@));
            assert(stack_view(app.focus_stack@)[i as int] == app.focus_stack@[i as int]@);
        }
        let effect = match &app.focus_stack[i] {
            FocusedArea::Modal(ModalState::UpdateDependency(w)) => match w.selected_version() {
                Some(v) => Some(
                    Effect::Send(AppEvent::UpdateDependency { cursor: w.dependency.duplicate(), version: v.duplicate() }),
                ),
                None => None,
            },
            _ => None,
        };
        if effect.is_none() {
            app.close();
        }
        effect
    }
}

} // verus!
