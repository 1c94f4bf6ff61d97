//! The events that the application's loop handles.

use vstd::prelude::*;

use crate::features::{FeaturesList, FetchFeaturesError};
use crate::manifest::dependency::DependencyCursor;
use crate::updater::{CheckForUpdateError, UpdateStatus, VersionType};

verus! {

/// Application events.
#[derive(Debug)]
pub enum AppEvent {
    /// Queue an check for a dependency.
    UpdateCheck { cursor: DependencyCursor },
    /// Result of an update check for a dependency.
    UpdateCheckResult { cursor: DependencyCursor, result: UpdateStatus },
    /// Queue an update for a dependency.
    UpdateDependency { cursor: DependencyCursor, version: VersionType },
    /// Load the versions of a dependency in the main view.
    LoadDependencyVersions(DependencyCursor),
    /// Load the features of a dependency in the main view.
    LoadDependencyFeatures(DependencyCursor),
    /// Update the versions of a dependency in the main view.
    UpdateDependencyVersions { versions: Result<Vec<VersionType>, CheckForUpdateError> },
    /// Update the features of a dependency in the main view.
    UpdateDependencyFeatures { features: Result<FeaturesList, FetchFeaturesError> },
}

/// Errors of the event channel.
#[derive(Debug, Clone, Copy, PartialEq, Eq, Structural)]
pub enum Error {
    /// Failed to receive an event from the sender.
    RecvFail,
}

} // verus!
