//! The main area: the dependency that the sidebar opened.

pub mod dependency;

use vstd::prelude::*;

use crate::app::{App, MainFocusState};
use crate::features::{
    create_implied_graph, entries_map, entry_view, implied_graph, FeatureEntries, FeaturesGraph, FetchFeaturesError,
};
use crate::manifest::dependency::{contains_string, DependencyView, RegistrySourceView, SourceView};
use crate::toml::path_view;
use crate::ui::main::dependency::{shown_dependency, shows_resolved_dependency};
use crate::updater::{UpdateStatus, UpdateStatusView, VersionType, VersionTypeView};

verus! {

/// The features that a dependency enables in its `features` array.
pub open spec fn enabled_features(d: DependencyView) -> Seq<Seq<char>> {
    match d.features {
        Some(fs) => fs,
        None => Seq::empty(),
    }
}

/// Whether `v` is the version that the dependency's source names exactly.
pub open spec fn is_current_version(d: DependencyView, v: VersionTypeView) -> bool {
    match d.source {
        SourceView::Registry(RegistrySourceView::Version(b)) => v == VersionTypeView::Registry(b),
        _ => false,
    }
}

/// Whether `v` is one of the versions that the dependency's update check offers.
pub open spec fn is_update_target(status: Option<UpdateStatusView>, v: VersionTypeView) -> bool {
    match status {
        Some(UpdateStatusView::UpdateAvailable(r)) => r.latest_version == Some(v) || r.semantic_latest_version == Some(
            v,
        ),
        _ => false,
    }
}

fn same_version(a: &VersionType, b: &VersionType) -> (r: bool)
    ensures
        r == (a@ == b@),
{
    match b {
        VersionType::Registry(v) => a.eq_version(v),
    }
}

impl App {
    /// The features of the shown dependency as the main area lists them, each with the
    /// chain of enabled features that implies it.
    pub fn shown_features_graph(&self) -> (r: Option<Result<FeaturesGraph, FetchFeaturesError>>)
        requires
            shows_resolved_dependency(self@),
        ensures
            match self@.main->0.features {
                Some(Ok(es)) => r matches Some(Ok(g)) && entries_map(g@) == implied_graph(
                    es,
                    enabled_features(shown_dependency(self@)),
                    shown_dependency(self@).default_features,
                ),
                Some(Err(e)) => r matches Some(Err(e2)) && e2 == e,
                None => r is None,
            },
    {
        let (cursor, features) = match &self.main_focus_state {
            Some(MainFocusState::Dependency { cursor, features, .. }) => (cursor, features),
            None => {
                return None;
            },
        };
        let features = match features {
            Some(Ok(fs)) => fs,
            Some(Err(e)) => {
                return Some(Err(*e));
            },
            None => {
                return None;
            },
        };
        match self.manifest.resolve_dependency(cursor) {
            Ok(Some(d)) => {
                let none: Vec<String> = Vec::new();
                let enabled = match d.features() {
                    Some(fs) => fs,
                    None => &none,
                };
                proof {
                    assert(path_view(none@) =~= Seq::<Seq<char>>::empty());
                }
                Some(Ok(create_implied_graph(features, enabled, d.default_features())))
            },
            _ => None,
        }
    }

    /// Whether `version` is the current version of the shown dependency, and whether it is
    /// one of the versions that its update check offers.
    pub fn version_marks(&self, version: &VersionType) -> (r: (bool, bool))
        requires
            shows_resolved_dependency(self@),
        ensures
            r.0 == is_current_version(shown_dependency(self@), version@),
            r.1 == is_update_target(
                if self@.cache.contains_key(self@.main->0.cursor) {
                    Some(self@.cache[self@.main->0.cursor])
                } else {
                    None
                },
                version@,
            ),
    {
        let cursor = match &self.main_focus_state {
            Some(MainFocusState::Dependency { cursor, .. }) => cursor,
            None => {
                return (false, false);
            },
        };
        let current = match self.manifest.resolve_dependency(cursor) {
            Ok(Some(d)) => version.eq_source(d.source()),
            _ => false,
        };
        let update = match self.update_status(cursor) {
            Some(UpdateStatus::UpdateAvailable(r)) => {
                let latest = match &r.latest_version {
                    Some(v) => same_version(v, version),
                    None => false,
                };
                let semantic = match &r.semantic_latest_version {
                    Some(v) => same_version(v, version),
                    None => false,
                };
                latest || semantic
            },
            _ => false,
        };
        (current, update)
    }
}


/// How the features list marks a feature.
#[derive(Debug, Clone, Copy, PartialEq, Eq, Structural)]
pub enum FeatureMark {
    /// The dependency enables it itself.
    Enabled,
    /// An enabled feature implies it.
    Implied,
    /// Nothing enables it.
    Off,
}

/// One row of the features list: the feature, its mark, and the chain of features that
/// implies it, joined by arrows.
#[derive(Debug)]
pub struct FeatureRow {
    pub name: String,
    pub mark: FeatureMark,
    pub chain: String,
}

pub struct FeatureRowView {
    pub name: Seq<char>,
    pub mark: FeatureMark,
    pub chain: Seq<char>,
}

impl View for FeatureRow {
    type V = FeatureRowView;

    open spec fn view(&self) -> FeatureRowView {
        FeatureRowView { name: self.name@, mark: self.mark, chain: self.chain@ }
    }
}

/// The parts joined by `sep`, as `join` on a slice of strings writes them.
pub open spec fn joined(parts: Seq<Seq<char>>, sep: Seq<char>) -> Seq<char>
    decreases parts.len(),
{
    if parts.len() == 0 {
        Seq::empty()
    } else if parts.len() == 1 {
        parts[0]
    } else {
        joined(parts.drop_last(), sep) + sep + parts.last()
    }
}

/// The mark of the feature `name`, whose implying chain is `chain`: enabled where the
/// dependency lists it, implied where the chain is not empty, off otherwise.
pub open spec fn feature_mark(enabled: Seq<Seq<char>>, name: Seq<char>, chain: Seq<Seq<char>>) -> FeatureMark {
    if enabled.contains(name) {
        FeatureMark::Enabled
    } else if chain.len() > 0 {
        FeatureMark::Implied
    } else {
        FeatureMark::Off
    }
}

/// The rows of the features list: one for each entry of the graph but `default`, in order.
pub open spec fn feature_rows_spec(g: FeatureEntries, enabled: Seq<Seq<char>>) -> Seq<FeatureRowView>
    decreases g.len(),
{
    if g.len() == 0 {
        Seq::empty()
    } else {
        let rest = feature_rows_spec(g.drop_last(), enabled);
        let (name, chain) = g.last();
        if name == "default"@ {
            rest
        } else {
            rest.push(FeatureRowView { name, mark: feature_mark(enabled, name, chain), chain: joined(chain, " -> "@) })
        }
    }
}

/// Each row shows a feature of the graph other than `default`, with its chain joined by
/// arrows, marked enabled where the dependency lists the feature itself (whatever implies
/// it), implied where it does not but the chain is not empty, and off otherwise; and each
/// feature of the graph other than `default` has such a row.
pub proof fn law_feature_rows_show_the_graph(g: FeatureEntries, enabled: Seq<Seq<char>>)
    ensures
        forall|i: int|
            #![trigger feature_rows_spec(g, enabled)[i]]
            0 <= i < feature_rows_spec(g, enabled).len() ==> exists|j: int|
                #![trigger g[j]]
                0 <= j < g.len() && {
                    let row = feature_rows_spec(g, enabled)[i];
                    &&& row.name == g[j].0
                    &&& g[j].0 != "default"@
                    &&& row.chain == joined(g[j].1, " -> "@)
                    &&& enabled.contains(g[j].0) ==> row.mark == FeatureMark::Enabled
                    &&& !enabled.contains(g[j].0) && g[j].1.len() > 0 ==> row.mark == FeatureMark::Implied
                    &&& !enabled.contains(g[j].0) && g[j].1.len() == 0 ==> row.mark == FeatureMark::Off
                },
        forall|j: int|
            0 <= j < g.len() && g[j].0 != "default"@ ==> exists|i: int|
                0 <= i < feature_rows_spec(g, enabled).len() && (#[trigger] feature_rows_spec(g, enabled)[i]).name
                    == g[j].0 && (enabled.contains(g[j].0) ==> feature_rows_spec(g, enabled)[i].mark
                    == FeatureMark::Enabled),
    decreases g.len(),
{
    if g.len() > 0 {
        let prev = g.drop_last();
        law_feature_rows_show_the_graph(prev, enabled);
        let rp = feature_rows_spec(prev, enabled);
        let rows = feature_rows_spec(g, enabled);
        let n = g.len() - 1;
        assert forall|j: int| 0 <= j < prev.len() implies #[trigger] prev[j] == g[j] by {}
        assert forall|i: int| #![trigger rows[i]] 0 <= i < rows.len() implies exists|j: int|
            #![trigger g[j]]
            0 <= j < g.len() && {
                let row = rows[i];
                &&& row.name == g[j].0
                &&& g[j].0 != "default"@
                &&& row.chain == joined(g[j].1, " -> "@)
                &&& enabled.contains(g[j].0) ==> row.mark == FeatureMark::Enabled
                &&& !enabled.contains(g[j].0) && g[j].1.len() > 0 ==> row.mark == FeatureMark::Implied
                &&& !enabled.contains(g[j].0) && g[j].1.len() == 0 ==> row.mark == FeatureMark::Off
            } by {
            if i < rp.len() {
                assert(rows[i] == rp[i]);
                let j = choose|j: int|
                    #![trigger prev[j]]
                    0 <= j < prev.len() && {
                        let row = rp[i];
                        &&& row.name == prev[j].0
                        &&& prev[j].0 != "default"@
                        &&& row.chain == joined(prev[j].1, " -> "@)
                        &&& enabled.contains(prev[j].0) ==> row.mark == FeatureMark::Enabled
                        &&& !enabled.contains(prev[j].0) && prev[j].1.len() > 0 ==> row.mark == FeatureMark::Implied
                        &&& !enabled.contains(prev[j].0) && prev[j].1.len() == 0 ==> row.mark == FeatureMark::Off
                    };
                assert(prev[j] == g[j]);
            } else {
                assert(g[n] == g.last());
            }
        }
        assert forall|j: int| 0 <= j < g.len() && g[j].0 != "default"@ implies exists|i: int|
            0 <= i < rows.len() && (#[trigger] rows[i]).name == g[j].0 && (enabled.contains(g[j].0) ==> rows[i].mark
                == FeatureMark::Enabled) by {
            if j < prev.len() {
                assert(prev[j] == g[j]);
                let i = choose|i: int|
                    0 <= i < rp.len() && (#[trigger] rp[i]).name == prev[j].0 && (enabled.contains(prev[j].0)
                        ==> rp[i].mark == FeatureMark::Enabled);
                assert(rows[i] == rp[i]);
            } else {
                assert(rows[rp.len() as int].name == g[j].0);
            }
        }
    }
}

/// The strings joined by arrows.
pub fn join_arrows(parts: &Vec<String>) -> (r: String)
    ensures
        r@ == joined(path_view(parts@), " -> "@),
{
    let ghost ps = path_view(parts@);
    if parts.len() == 0 {
        return String::new();
    }
    let mut s = parts[0].clone();
    let mut i: usize = 1;
    proof {
        assert(ps.subrange(0, 1).len() == 1);
    }
    while i < parts.len()
        invariant
            1 <= i <= parts.len(),
            ps == path_view(parts@),
            s@ == joined(ps.subrange(0, i as int), " -> "@),
        decreases parts.len() - i,
    {
        proof {
            assert(ps.subrange(0, i + 1).drop_last() =~= ps.subrange(0, i as int));
            assert(ps.subrange(0, i + 1).last() == parts@[i as int]@);
        }
        s.append(" -> ");
        s.append(parts[i].as_str());
        i = i + 1;
    }
    proof {
        assert(ps.subrange(0, parts@.len() as int) =~= ps);
    }
    s
}

/// The rows of the features list of a dependency that enables `enabled`, for its graph of
/// implied features.
pub fn feature_rows(graph: &FeaturesGraph, enabled: &Vec<String>) -> (r: Vec<FeatureRow>)
    ensures
        r@.map_values(|x: FeatureRow| x@) == feature_rows_spec(graph@, path_view(enabled@)),
{
    let entries = graph.entries();
    let ghost es = graph@;
    let mut rows: Vec<FeatureRow> = Vec::new();
    let mut i: usize = 0;
    while i < entries.len()
        invariant
            i <= entries.len(),
            es == entries@.map_values(|e: (String, Vec<String>)| entry_view(e)),
            rows@.map_values(|x: FeatureRow| x@) == feature_rows_spec(es.subrange(0, i as int), path_view(enabled@)),
        decreases entries.len() - i,
    {
        proof {
            assert(es.subrange(0, i + 1).drop_last() =~= es.subrange(0, i as int));
            assert(es.subrange(0, i + 1).last() == entry_view(entries@[i as int]));
            reveal_strlit("default");
        }
        let (name, chain) = &entries[i];
        if !crate::text::str_eq(name.as_str(), "default") {
            let mark = if contains_string(enabled, name.as_str()) {
                FeatureMark::Enabled
            } else if chain.len() > 0 {
                FeatureMark::Implied
            } else {
                FeatureMark::Off
            };
            let ghost before = rows@;
            rows.push(FeatureRow { name: name.clone(), mark, chain: join_arrows(chain) });
            proof {
                assert(rows@.map_values(|x: FeatureRow| x@) =~= before.map_values(|x: FeatureRow| x@).push(
                    rows@.last()@,
                ));
            }
        }
        i = i + 1;
    }
    proof {
        assert(es.subrange(0, entries@.len() as int) =~= es);
    }
    rows
}

} // verus!
