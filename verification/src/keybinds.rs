//! The global keybinds, and which keymap the focused area answers to.

use vstd::prelude::*;

use crate::app::{App, AppView, FocusedArea, FocusedAreaView, MainFocusView};
use crate::ui::main::dependency::FocusedArea as DependencyArea;
use crate::ui::modals::help::HelpModal;
use crate::ui::modals::{ModalState, ModalView};

verus! {

/// The keymaps of the areas of the interface.
#[derive(Debug, Clone, Copy, PartialEq, Eq, Structural)]
pub enum Keymap {
    /// No keybinds of its own.
    Empty,
    Sidebar,
    Dependency,
    VersionList,
    FeaturesList,
    UpdateDependencyModal,
}

/// The keymap that an area answers to, given what the main area shows.
pub open spec fn area_keymap(area: FocusedAreaView, main: Option<MainFocusView>) -> Keymap {
    match area {
        FocusedAreaView::Sidebar => Keymap::Sidebar,
        FocusedAreaView::Modal(m) => m.keymap_spec(),
        FocusedAreaView::Main => match main {
            None => Keymap::Empty,
            Some(m) => match m.focused_area {
                DependencyArea::Main => Keymap::Dependency,
                DependencyArea::Features { .. } => Keymap::FeaturesList,
                DependencyArea::Versions { .. } => Keymap::VersionList,
            },
        },
    }
}

/// The state once the help window opened over the focused area.
pub open spec fn help_spec(a: AppView) -> AppView {
    AppView {
        stack: a.stack.push(
            FocusedAreaView::Modal(ModalView::Help(HelpModal { area_binds: area_keymap(a.stack.last(), a.main) })),
        ),
        ..a
    }
}

/// The state once the focused area closed: the one below it takes the focus, and the
/// application stops where none is left.
pub open spec fn close_spec(a: AppView) -> AppView {
    let stack = if a.stack.len() > 0 {
        a.stack.drop_last()
    } else {
        a.stack
    };
    AppView { stack, running: if stack.len() == 0 { false } else { a.running }, ..a }
}

/// Closing the help window gives back the state it was opened in.
pub proof fn law_close_undoes_help(a: AppView)
    requires
        a.stack.len() > 0,
    ensures
        close_spec(help_spec(a)) == a,
{
    assert(help_spec(a).stack.drop_last() =~= a.stack);
}

/// The application runs only while some area holds the focus.
pub proof fn law_close_keeps_focus_while_running(a: AppView)
    requires
        a.running ==> a.stack.len() > 0,
    ensures
        close_spec(a).running ==> close_spec(a).stack.len() > 0,
{
}

impl App {
    /// The keymap of the focused area.
    pub fn get_area_subkeybinds(&self) -> (r: Keymap)
        requires
            self.focus_stack@.len() > 0,
        ensures
            r == area_keymap(self@.stack.last(), self@.main),
    {
        match self.focused_area() {
            FocusedArea::Sidebar => Keymap::Sidebar,
            FocusedArea::Modal(modal) => modal.get_area_subkeybinds(),
            FocusedArea::Main => match &self.main_focus_state {
                None => Keymap::Empty,
                Some(crate::app::MainFocusState::Dependency { focused_area, .. }) => match focused_area {
                    DependencyArea::Main => Keymap::Dependency,
                    DependencyArea::Features { .. } => Keymap::FeaturesList,
                    DependencyArea::Versions { .. } => Keymap::VersionList,
                },
            },
        }
    }

    /// Open the help menu
    pub fn help(&mut self)
        requires
            old(self).focus_stack@.len() > 0,
        ensures
            final(self)@ == help_spec(old(self)@),
    {
        let keymap = self.get_area_subkeybinds();
        let ghost before = self.focus_stack@;
        self.focus_stack.push(FocusedArea::Modal(ModalState::Help(HelpModal::new(keymap))));
        proof {
            assert(crate::app::stack_view(self.focus_stack@) =~= crate::app::stack_view(before).push(
                self.focus_stack@.last()@,
            ));
        }
    }

    /// Close the current menu or application
    pub fn close(&mut self)
        ensures
            final(self)@ == close_spec(old(self)@),
    {
        let ghost before = self.focus_stack@;
        self.focus_stack.pop();
        if self.focus_stack.len() == 0 {
            self.running = false;
        }
        proof {
            if before.len() > 0 {
                assert(crate::app::stack_view(self.focus_stack@) =~= crate::app::stack_view(before).drop_last());
            }
        }
    }

    /// Quit the application.
    pub fn quit(&mut self)
        ensures
            final(self)@ == (AppView { running: false, ..old(self)@ }),
    {
        self.running = false;
    }
}

} // verus!
