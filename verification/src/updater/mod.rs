//! Update checks: their outcomes and the errors of updating a dependency.

pub mod registry;

use vstd::prelude::*;

use crate::manifest::dependency::{RegistrySource, RegistrySourceView, Source, SourceView};
use crate::ui::icons::{Color, Icons};
use crate::version::{spec_version_cmp, CmpResult, SemVersion, VersionView};

verus! {

/// Errors of checking a dependency for updates.
#[derive(Debug, Clone, Copy, PartialEq, Eq, Structural)]
pub enum CheckForUpdateError {
    /// Failed to send the request to the update server.
    RequestFailed,
    /// Failed to deserialize the response from the update server.
    DeserializationFailed,
    /// The dependency does not support update checking.
    UnsupportedDependency,
}

/// Errors that can occur during dependency updates.
#[derive(Debug, Clone, Copy)]
pub enum DependencyUpdateError {
    /// Expected to update an `{expected}` version, but got `{actual}`
    InvalidVersionType { expected: &'static str, actual: &'static str },
    /// Could not save the updated manifest
    SaveManifestError,
    /// Unsupported version type. This is a bug, since this should never happen.
    Unsupported,
    /// There is no update available for this dependency.
    NoUpdate,
    /// We are still waiting for the update to be checked.
    Pending,
    /// There was an error while checking for updates.
    UpdateCheckError,
}

/// A version that a dependency can be set to.
#[derive(Debug)]
pub enum VersionType {
    Registry(SemVersion),
}

pub enum VersionTypeView {
    Registry(VersionView),
}

impl View for VersionType {
    type V = VersionTypeView;

    open spec fn view(&self) -> VersionTypeView {
        match self {
            VersionType::Registry(v) => VersionTypeView::Registry(v@),
        }
    }
}

impl VersionType {
    /// The name of the kind of version.
    pub fn name(&self) -> (r: &'static str)
        ensures
            r@ == "registry"@,
    {
        match self {
            VersionType::Registry(_) => "registry",
        }
    }

    pub fn from_version(v: SemVersion) -> (r: VersionType)
        ensures
            r@ == VersionTypeView::Registry(v@),
    {
        VersionType::Registry(v)
    }

    pub fn duplicate(&self) -> (r: VersionType)
        ensures
            r@ == self@,
    {
        match self {
            VersionType::Registry(v) => VersionType::Registry(v.duplicate()),
        }
    }

    /// Whether this is the given registry version (`PartialEq<semver::Version>`).
    pub fn eq_version(&self, other: &SemVersion) -> (r: bool)
        ensures
            r == (self@ == VersionTypeView::Registry(other@)),
    {
        match self {
            VersionType::Registry(v) => v.same_as(other),
        }
    }

    /// Whether this version is the one that a source names (`PartialEq<Source>`): only a
    /// source that is an exact registry version can be equal to it.
    pub fn eq_source(&self, other: &Source) -> (r: bool)
        ensures
            r == match other@ {
                SourceView::Registry(RegistrySourceView::Version(b)) => self@ == VersionTypeView::Registry(b),
                _ => false,
            },
    {
        match (self, other) {
            (VersionType::Registry(a), Source::Registry(RegistrySource::Version(b))) => a.same_as(b),
            _ => false,
        }
    }

    /// The text that `Display` writes: that of the version.
    pub fn to_text(&self) -> (r: String)
        ensures
            r@ == match self@ {
                VersionTypeView::Registry(v) => crate::version::version_text(v),
            },
    {
        match self {
            VersionType::Registry(v) => v.to_text(),
        }
    }
}

/// The result of checking for updates.
#[derive(Debug)]
pub struct UpdateResult<VerType> {
    /// The absolute latest version available.
    pub latest_version: Option<VerType>,
    /// The semantic latest version available.
    pub semantic_latest_version: Option<VerType>,
}

pub struct UpdateResultView<V> {
    pub latest_version: Option<V>,
    pub semantic_latest_version: Option<V>,
}

pub open spec fn opt_view_of<T: View>(o: Option<T>) -> Option<T::V> {
    match o {
        Some(t) => Some(t@),
        None => None,
    }
}

impl<T: View> View for UpdateResult<T> {
    type V = UpdateResultView<T::V>;

    open spec fn view(&self) -> UpdateResultView<T::V> {
        UpdateResultView {
            latest_version: opt_view_of(self.latest_version),
            semantic_latest_version: opt_view_of(self.semantic_latest_version),
        }
    }
}

pub open spec fn registry_view(v: Option<VersionView>) -> Option<VersionTypeView> {
    match v {
        Some(v) => Some(VersionTypeView::Registry(v)),
        None => None,
    }
}

fn into_version_type(v: Option<SemVersion>) -> (r: Option<VersionType>)
    ensures
        opt_view_of(r) == registry_view(opt_view_of(v)),
{
    match v {
        Some(v) => Some(VersionType::Registry(v)),
        None => None,
    }
}

fn duplicate_version_type(v: &Option<VersionType>) -> (r: Option<VersionType>)
    ensures
        opt_view_of(r) == opt_view_of(*v),
{
    match v {
        Some(v) => Some(v.duplicate()),
        None => None,
    }
}

impl UpdateResult<SemVersion> {
    /// The same result with its versions as registry versions.
    pub fn into(self) -> (r: UpdateResult<VersionType>)
        ensures
            r@.latest_version == registry_view(self@.latest_version),
            r@.semantic_latest_version == registry_view(self@.semantic_latest_version),
    {
        UpdateResult {
            latest_version: into_version_type(self.latest_version),
            semantic_latest_version: into_version_type(self.semantic_latest_version),
        }
    }
}

impl UpdateResult<VersionType> {
    pub fn duplicate(&self) -> (r: UpdateResult<VersionType>)
        ensures
            r@ == self@,
    {
        UpdateResult {
            latest_version: duplicate_version_type(&self.latest_version),
            semantic_latest_version: duplicate_version_type(&self.semantic_latest_version),
        }
    }
}

/// The state of the update check of one dependency.
#[derive(Debug)]
pub enum UpdateStatus {
    Pending,
    UpToDate,
    UpdateAvailable(UpdateResult<VersionType>),
    Error(CheckForUpdateError),
}

pub enum UpdateStatusView {
    Pending,
    UpToDate,
    UpdateAvailable(UpdateResultView<VersionTypeView>),
    Error(CheckForUpdateError),
}

impl View for UpdateStatus {
    type V = UpdateStatusView;

    open spec fn view(&self) -> UpdateStatusView {
        match self {
            UpdateStatus::Pending => UpdateStatusView::Pending,
            UpdateStatus::UpToDate => UpdateStatusView::UpToDate,
            UpdateStatus::UpdateAvailable(r) => UpdateStatusView::UpdateAvailable(r@),
            UpdateStatus::Error(e) => UpdateStatusView::Error(*e),
        }
    }
}

impl UpdateStatusView {
    /// The icon of a status: done where nothing newer exists, a warning where only an
    /// incompatible newer version exists, an update mark where a compatible one does.
    pub open spec fn icon_spec(self) -> Icons {
        match self {
            UpdateStatusView::Pending => Icons::Loading,
            UpdateStatusView::UpToDate => Icons::Done,
            UpdateStatusView::UpdateAvailable(r) => if r.semantic_latest_version is Some {
                Icons::Update
            } else if r.latest_version is Some {
                Icons::Warning
            } else {
                Icons::Done
            },
            UpdateStatusView::Error(_) => Icons::Error,
        }
    }

    pub open spec fn color_spec(self) -> Color {
        match self {
            UpdateStatusView::Pending => Color::Gray,
            UpdateStatusView::UpToDate => Color::Green,
            UpdateStatusView::UpdateAvailable(_) => Color::Yellow,
            UpdateStatusView::Error(_) => Color::Red,
        }
    }
}

impl UpdateStatus {
    pub fn icon(&self) -> (r: Icons)
        ensures
            r == self@.icon_spec(),
    {
        match self {
            UpdateStatus::Pending => Icons::Loading,
            UpdateStatus::UpToDate => Icons::Done,
            UpdateStatus::UpdateAvailable(r) => {
                if r.semantic_latest_version.is_some() {
                    Icons::Update
                } else if r.latest_version.is_some() {
                    Icons::Warning
                } else {
                    Icons::Done
                }
            },
            UpdateStatus::Error(_) => Icons::Error,
        }
    }

    pub fn color(&self) -> (r: Color)
        ensures
            r == self@.color_spec(),
    {
        match self {
            UpdateStatus::Pending => Color::Gray,
            UpdateStatus::UpToDate => Color::Green,
            UpdateStatus::UpdateAvailable(_) => Color::Yellow,
            UpdateStatus::Error(_) => Color::Red,
        }
    }

    pub fn duplicate(&self) -> (r: UpdateStatus)
        ensures
            r@ == self@,
    {
        match self {
            UpdateStatus::Pending => UpdateStatus::Pending,
            UpdateStatus::UpToDate => UpdateStatus::UpToDate,
            UpdateStatus::UpdateAvailable(res) => UpdateStatus::UpdateAvailable(res.duplicate()),
            UpdateStatus::Error(e) => UpdateStatus::Error(*e),
        }
    }

    pub fn is_pending(&self) -> (r: bool)
        ensures
            r == (self@ is Pending),
    {
        match self {
            UpdateStatus::Pending => true,
            _ => false,
        }
    }
}

/// The status that the outcome of an update check gives: up to date where nothing newer
/// was found, or where both versions found satisfy the current source; an available update
/// otherwise; the error where the check failed.
pub open spec fn update_status_spec(
    source: RegistrySourceView,
    result: Result<UpdateResultView<VersionView>, CheckForUpdateError>,
) -> UpdateStatusView {
    match result {
        Ok(r) => if r.latest_version is None && r.semantic_latest_version is None {
            UpdateStatusView::UpToDate
        } else if r.latest_version is Some && r.semantic_latest_version is Some && source.matches(
            r.latest_version->0,
        ) && source.matches(r.semantic_latest_version->0) {
            UpdateStatusView::UpToDate
        } else {
            UpdateStatusView::UpdateAvailable(
                UpdateResultView {
                    latest_version: registry_view(r.latest_version),
                    semantic_latest_version: registry_view(r.semantic_latest_version),
                },
            )
        },
        Err(e) => UpdateStatusView::Error(e),
    }
}

/// A dependency is up to date only where its check found no newer version, or where its
/// source accepts every version found, the latest and the semantic latest: a latest or a
/// semantic latest version that the source does not accept, or a single one of them found,
/// makes an update available, which offers exactly the versions found. A failed check
/// gives its error.
pub proof fn law_up_to_date_only_when_the_source_accepts_the_targets(
    source: RegistrySourceView,
    r: UpdateResultView<VersionView>,
    e: CheckForUpdateError,
)
    ensures
        update_status_spec(source, Ok(r)) is UpToDate ==> (r.latest_version is None && r.semantic_latest_version is None)
            || (r.latest_version is Some && r.semantic_latest_version is Some && source.matches(r.latest_version->0)
            && source.matches(r.semantic_latest_version->0)),
        r.latest_version matches Some(l) && !source.matches(l) ==> update_status_spec(source, Ok(r))
            is UpdateAvailable,
        r.semantic_latest_version matches Some(s) && !source.matches(s) ==> update_status_spec(source, Ok(r))
            is UpdateAvailable,
        r.latest_version is Some != r.semantic_latest_version is Some ==> update_status_spec(source, Ok(r))
            is UpdateAvailable,
        r.latest_version is None && r.semantic_latest_version is None ==> update_status_spec(source, Ok(r))
            is UpToDate,
        r.latest_version matches Some(l) && r.semantic_latest_version matches Some(s) && source.matches(l)
            && source.matches(s) ==> update_status_spec(source, Ok(r)) is UpToDate,
        update_status_spec(source, Ok(r)) matches UpdateStatusView::UpdateAvailable(u) ==> {
            &&& r.latest_version matches Some(l) ==> u.latest_version == Some(VersionTypeView::Registry(l))
            &&& r.latest_version is None ==> u.latest_version is None
            &&& r.semantic_latest_version matches Some(s) ==> u.semantic_latest_version == Some(
                VersionTypeView::Registry(s),
            )
            &&& r.semantic_latest_version is None ==> u.semantic_latest_version is None
        },
        update_status_spec(source, Err(e)) == UpdateStatusView::Error(e),
{
}

pub open spec fn result_view(r: Result<UpdateResult<SemVersion>, CheckForUpdateError>) -> Result<
    UpdateResultView<VersionView>,
    CheckForUpdateError,
> {
    match r {
        Ok(r) => Ok(r@),
        Err(e) => Err(e),
    }
}

/// The status of a dependency with the given source once its update check gave `result`.
pub fn update_status(source: &RegistrySource, result: Result<UpdateResult<SemVersion>, CheckForUpdateError>) -> (r: UpdateStatus)
    ensures
        r@ == update_status_spec(source@, result_view(result)),
{
    match result {
        Ok(res) => {
            let up_to_date = match (&res.latest_version, &res.semantic_latest_version) {
                (None, None) => true,
                (Some(latest), Some(semantic)) => source.matches(latest) && source.matches(semantic),
                _ => false,
            };
            if up_to_date {
                UpdateStatus::UpToDate
            } else {
                UpdateStatus::UpdateAvailable(res.into())
            }
        },
        Err(e) => UpdateStatus::Error(e),
    }
}

} // verus!
