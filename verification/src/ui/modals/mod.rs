//! Windows drawn over the rest of the interface.

pub mod help;
pub mod update_dependency;

use vstd::prelude::*;

use crate::keybinds::Keymap;
use crate::ui::modals::help::HelpModal;
use crate::ui::modals::update_dependency::{UpdateDependencyModal, UpdateModalView};
use crate::updater::{CheckForUpdateError, DependencyUpdateError};

verus! {

/// The buttons of the update window, left to right.
#[derive(Debug, Clone, Copy, PartialEq, Eq, Structural)]
pub enum SelectionType {
    Cancel,
    SemverCompatible,
    Latest,
}

impl Default for SelectionType {
    fn default() -> (r: SelectionType)
        ensures
            r == SelectionType::Cancel,
    {
        SelectionType::Cancel
    }
}

/// The state of an open window.
#[derive(Debug)]
pub enum ModalState {
    Help(HelpModal),
    /// Why no update can be offered, with the error of the failed check behind it, if any.
    DependencyUpdateError(DependencyUpdateError, Option<CheckForUpdateError>),
    UpdateDependency(UpdateDependencyModal),
}

pub enum ModalView {
    Help(HelpModal),
    DependencyUpdateError(DependencyUpdateError, Option<CheckForUpdateError>),
    UpdateDependency(UpdateModalView),
}

impl View for ModalState {
    type V = ModalView;

    open spec fn view(&self) -> ModalView {
        match self {
            ModalState::Help(h) => ModalView::Help(*h),
            ModalState::DependencyUpdateError(e, c) => ModalView::DependencyUpdateError(*e, *c),
            ModalState::UpdateDependency(m) => ModalView::UpdateDependency(m@),
        }
    }
}

impl ModalView {
    pub open spec fn keymap_spec(self) -> Keymap {
        match self {
            ModalView::UpdateDependency(_) => Keymap::UpdateDependencyModal,
            _ => Keymap::Empty,
        }
    }
}

impl ModalState {
    /// The keybinds of the window: only the update window has its own.
    pub fn get_area_subkeybinds(&self) -> (r: Keymap)
        ensures
            r == self@.keymap_spec(),
    {
        match self {
            ModalState::Help(_) | ModalState::DependencyUpdateError(_, _) => Keymap::Empty,
            ModalState::UpdateDependency(_) => Keymap::UpdateDependencyModal,
        }
    }
}

} // verus!
