//! Choosing update targets among the versions that a registry publishes.

use vstd::prelude::*;

use crate::manifest::dependency::{RegistrySource, RegistrySourceView};
use crate::updater::{
    opt_view_of, update_status, update_status_spec, CheckForUpdateError, UpdateResult, UpdateResultView, UpdateStatus,
    UpdateStatusView, VersionType, VersionTypeView,
};
use crate::version::{is_version, spec_req_matches, spec_version_cmp, CmpResult, SemVersion, VersionView};

verus! {

/// One version of a crate as the registry lists it.
#[derive(Debug)]
pub struct CrateVersion {
    pub num: SemVersion,
    pub yanked: bool,
}

pub struct CrateVersionView {
    pub num: VersionView,
    pub yanked: bool,
}

impl View for CrateVersion {
    type V = CrateVersionView;

    open spec fn view(&self) -> CrateVersionView {
        CrateVersionView { num: self.num@, yanked: self.yanked }
    }
}

pub open spec fn crate_versions_view(vs: Seq<CrateVersion>) -> Seq<CrateVersionView> {
    vs.map_values(|v: CrateVersion| v@)
}

pub type Targets = (Option<VersionView>, Option<VersionView>);

/// Whether `v` is not newer than the version `cur`, where there is one.
pub open spec fn not_newer(v: VersionView, cur: Option<VersionView>) -> bool {
    match cur {
        Some(c) => spec_version_cmp(v, c) != CmpResult::Greater,
        None => false,
    }
}

/// Whether `a` is newer than `b` (`>`).
pub open spec fn newer(a: VersionView, b: VersionView) -> bool {
    spec_version_cmp(a, b) == CmpResult::Greater
}

/// One version taken in: a yanked version is passed over; any other becomes the latest where
/// it is newer than the latest so far, and the semantic latest where the requirement accepts
/// it and it is newer than the semantic latest so far.
pub open spec fn filter_step(t: Targets, v: CrateVersionView, req: Seq<char>) -> Targets {
    if v.yanked {
        t
    } else {
        (
            if not_newer(v.num, t.0) {
                t.0
            } else {
                Some(v.num)
            },
            if spec_req_matches(req, v.num) && !not_newer(v.num, t.1) {
                Some(v.num)
            } else {
                t.1
            },
        )
    }
}

/// The latest and the semantic latest version among `vs`, taken one version after another
/// with `filter_step`.
pub open spec fn filter_versions(vs: Seq<CrateVersionView>, req: Seq<char>) -> Targets
    decreases vs.len(),
{
    if vs.len() == 0 {
        (None, None)
    } else {
        filter_step(filter_versions(vs.drop_last(), req), vs.last(), req)
    }
}

/// `m` is a greatest version among the versions of `vs` that are not yanked: none of them
/// is newer.
pub open spec fn greatest_unyanked(vs: Seq<CrateVersionView>, m: VersionView) -> bool {
    forall|j: int| 0 <= j < vs.len() && !vs[j].yanked ==> vs[j].num == m || !newer(#[trigger] vs[j].num, m)
}

/// `m` is a greatest version among the versions of `vs` that are not yanked and that `req`
/// accepts.
pub open spec fn greatest_compatible(vs: Seq<CrateVersionView>, req: Seq<char>, m: VersionView) -> bool {
    forall|j: int|
        0 <= j < vs.len() && !vs[j].yanked && spec_req_matches(req, vs[j].num) ==> vs[j].num == m || !newer(
            #[trigger] vs[j].num,
            m,
        )
}

/// The targets are greatest: the latest among the versions not yanked, the semantic latest
/// among those that the requirement also accepts; and each is missing only where there is
/// no such version.
pub open spec fn greatest_targets(vs: Seq<CrateVersionView>, req: Seq<char>, t: Targets) -> bool {
    &&& match t.0 {
        Some(l) => greatest_unyanked(vs, l),
        None => forall|j: int| 0 <= j < vs.len() ==> (#[trigger] vs[j]).yanked,
    }
    &&& match t.1 {
        Some(s) => greatest_compatible(vs, req, s),
        None => forall|j: int| 0 <= j < vs.len() && !(#[trigger] vs[j]).yanked ==> !spec_req_matches(req, vs[j].num),
    }
}

/// Every version of `vs` that is not yanked is one that `semver` parsed.
pub open spec fn all_parsed(vs: Seq<CrateVersionView>) -> bool {
    forall|j: int| 0 <= j < vs.len() && !vs[j].yanked ==> is_version(#[trigger] vs[j].num)
}

/// What is known of `v` against the target `cur` it is compared with: where `v` is newer,
/// `cur` is not newer than `v`, and neither is any version that is not newer than `cur`.
pub open spec fn step_facts(cur: Option<VersionView>, v: VersionView) -> bool {
    match cur {
        Some(c) => newer(v, c) ==> !newer(c, v) && forall|x: VersionView|
            is_version(x) && !newer(x, c) ==> !#[trigger] newer(x, v),
        None => true,
    }
}

/// Whether `v` becomes the new target over `cur`: where there is none yet, or `v` is newer.
fn is_new_target(v: &SemVersion, cur: &Option<SemVersion>) -> (r: bool)
    ensures
        r == !not_newer(v@, opt_view_of(*cur)),
        is_version(v@),
        step_facts(opt_view_of(*cur), v@),
{
    match cur {
        Some(c) => !v.not_newer_than(c),
        None => {
            let _ = v.duplicate();
            true
        },
    }
}

proof fn lemma_targets_step(p: Seq<CrateVersionView>, v: CrateVersionView, req: Seq<char>)
    requires
        all_parsed(p),
        greatest_targets(p, req, filter_versions(p, req)),
        !v.yanked ==> is_version(v.num) && step_facts(filter_versions(p, req).0, v.num),
        !v.yanked && spec_req_matches(req, v.num) ==> step_facts(filter_versions(p, req).1, v.num),
    ensures
        all_parsed(p.push(v)),
        greatest_targets(p.push(v), req, filter_versions(p.push(v), req)),
{
    let q = p.push(v);
    assert(q.drop_last() =~= p);
    let t = filter_versions(p, req);
    let u = filter_versions(q, req);
    assert forall|j: int| 0 <= j < p.len() implies #[trigger] q[j] == p[j] by {}
    assert(q[p.len() as int] == v);
    assert(all_parsed(q)) by {
        assert forall|j: int| 0 <= j < q.len() && !q[j].yanked implies is_version(#[trigger] q[j].num) by {
            if j < p.len() {
                assert(q[j] == p[j]);
            }
        }
    }
    match u.0 {
        Some(l) => {
            assert forall|j: int| 0 <= j < q.len() && !q[j].yanked implies q[j].num == l || !newer(
                #[trigger] q[j].num,
                l,
            ) by {
                if j < p.len() {
                    assert(q[j] == p[j]);
                    if u.0 != t.0 {
                        let w = p[j].num;
                        if let Some(c) = t.0 {
                            assert(w == c || !newer(w, c));
                            assert(is_version(w));
                        }
                    }
                }
            }
        },
        None => {
            assert forall|j: int| 0 <= j < q.len() implies (#[trigger] q[j]).yanked by {
                if j < p.len() {
                    assert(q[j] == p[j]);
                }
            }
        },
    }
    match u.1 {
        Some(s) => {
            assert forall|j: int| 0 <= j < q.len() && !q[j].yanked && spec_req_matches(req, q[j].num) implies q[j].num
                == s || !newer(#[trigger] q[j].num, s) by {
                if j < p.len() {
                    assert(q[j] == p[j]);
                    if u.1 != t.1 {
                        let w = p[j].num;
                        if let Some(c) = t.1 {
                            assert(w == c || !newer(w, c));
                            assert(is_version(w));
                        }
                    }
                }
            }
        },
        None => {
            assert forall|j: int| 0 <= j < q.len() && !(#[trigger] q[j]).yanked implies !spec_req_matches(
                req,
                q[j].num,
            ) by {
                if j < p.len() {
                    assert(q[j] == p[j]);
                }
            }
        },
    }
}

fn duplicate_opt(v: &Option<SemVersion>) -> (r: Option<SemVersion>)
    ensures
        opt_view_of(r) == opt_view_of(*v),
{
    match v {
        Some(v) => Some(v.duplicate()),
        None => None,
    }
}

/// The update targets among the versions of a crate: the newest version that is not
/// yanked, and the newest of those that the source's compatible requirement accepts,
/// whatever the order in which the versions come.
pub fn filter_update_results(version: &RegistrySource, versions: &Vec<CrateVersion>) -> (r: Result<UpdateResult<SemVersion>, CheckForUpdateError>)
    requires
        version@.compatible_req() is Some,
    ensures
        r matches Ok(res) && (res@.latest_version, res@.semantic_latest_version) == filter_versions(
            crate_versions_view(versions@),
            version@.compatible_req()->0,
        ),
        greatest_targets(
            crate_versions_view(versions@),
            version@.compatible_req()->0,
            filter_versions(crate_versions_view(versions@), version@.compatible_req()->0),
        ),
{
    let req = match version.compatible_req() {
        Some(req) => req,
        None => {
            return Ok(UpdateResult { latest_version: None, semantic_latest_version: None });
        },
    };
    let ghost vs = crate_versions_view(versions@);
    let mut latest: Option<SemVersion> = None;
    let mut semantic: Option<SemVersion> = None;
    let mut i: usize = 0;
    proof {
        assert(vs.subrange(0, 0) =~= Seq::<CrateVersionView>::empty());
    }
    while i < versions.len()
        invariant
            i <= versions.len(),
            vs == crate_versions_view(versions@),
            version@.compatible_req() == Some(req@),
            (opt_view_of(latest), opt_view_of(semantic)) == filter_versions(vs.subrange(0, i as int), req@),
            all_parsed(vs.subrange(0, i as int)),
            greatest_targets(vs.subrange(0, i as int), req@, filter_versions(vs.subrange(0, i as int), req@)),
        decreases versions.len() - i,
    {
        proof {
            assert(vs.subrange(0, i + 1) =~= vs.subrange(0, i as int).push(vs[i as int]));
            assert(vs.subrange(0, i + 1).drop_last() =~= vs.subrange(0, i as int));
            assert(vs[i as int] == versions@[i as int]@);
        }
        let v = &versions[i];
        if !v.yanked {
            let new_latest = is_new_target(&v.num, &latest);
            let compatible = req.matches(&v.num);
            let new_semantic = compatible && is_new_target(&v.num, &semantic);
            if new_latest {
                latest = Some(v.num.duplicate());
            }
            if new_semantic {
                semantic = Some(v.num.duplicate());
            }
        }
        proof {
            lemma_targets_step(vs.subrange(0, i as int), vs[i as int], req@);
        }
        i = i + 1;
    }
    proof {
        assert(vs.subrange(0, versions@.len() as int) =~= vs);
    }
    Ok(UpdateResult { latest_version: latest, semantic_latest_version: semantic })
}

/// The targets come from the versions listed: the latest is a version that is not
/// yanked, and there is one exactly where some version is not yanked; the semantic latest is
/// a version that is not yanked and that the requirement accepts, and there is one exactly
/// where some such version is listed; so there is a semantic latest only where there is a
/// latest.
pub proof fn law_update_targets(vs: Seq<CrateVersionView>, req: Seq<char>)
    ensures
        filter_versions(vs, req).0 is Some <==> exists|i: int| 0 <= i < vs.len() && !vs[i].yanked,
        filter_versions(vs, req).0 matches Some(l) ==> exists|i: int| 0 <= i < vs.len() && !vs[i].yanked && vs[i].num == l,
        filter_versions(vs, req).1 is Some <==> exists|i: int|
            0 <= i < vs.len() && !vs[i].yanked && spec_req_matches(req, vs[i].num),
        filter_versions(vs, req).1 matches Some(s) ==> exists|i: int|
            0 <= i < vs.len() && !vs[i].yanked && vs[i].num == s && spec_req_matches(req, s),
        filter_versions(vs, req).1 is Some ==> filter_versions(vs, req).0 is Some,
    decreases vs.len(),
{
    if vs.len() > 0 {
        let prev = vs.drop_last();
        law_update_targets(prev, req);
        let n = vs.len() - 1;
        assert forall|i: int| 0 <= i < prev.len() implies #[trigger] prev[i] == vs[i] by {}
        if filter_versions(prev, req).0 is Some {
            let j = choose|j: int| 0 <= j < prev.len() && !prev[j].yanked;
            assert(!vs[j].yanked);
        }
        if filter_versions(prev, req).1 is Some {
            let j = choose|j: int| 0 <= j < prev.len() && !prev[j].yanked && spec_req_matches(req, prev[j].num);
            assert(!vs[j].yanked && spec_req_matches(req, vs[j].num));
        }
        if let Some(l) = filter_versions(vs, req).0 {
            if filter_versions(vs, req).0 == filter_versions(prev, req).0 {
                let j = choose|j: int| 0 <= j < prev.len() && !prev[j].yanked && prev[j].num == l;
                assert(vs[j] == prev[j]);
            } else {
                assert(!vs[n].yanked && vs[n].num == l);
            }
        }
        if let Some(s) = filter_versions(vs, req).1 {
            if filter_versions(vs, req).1 == filter_versions(prev, req).1 {
                let j = choose|j: int|
                    0 <= j < prev.len() && !prev[j].yanked && prev[j].num == s && spec_req_matches(req, s);
                assert(vs[j] == prev[j]);
            } else {
                assert(!vs[n].yanked && vs[n].num == s);
            }
        }
        if exists|i: int| 0 <= i < vs.len() && !vs[i].yanked {
            let i = choose|i: int| 0 <= i < vs.len() && !vs[i].yanked;
            if i < n {
                assert(prev[i] == vs[i]);
            }
        }
        if exists|i: int| 0 <= i < vs.len() && !vs[i].yanked && spec_req_matches(req, vs[i].num) {
            let i = choose|i: int| 0 <= i < vs.len() && !vs[i].yanked && spec_req_matches(req, vs[i].num);
            if i < n {
                assert(prev[i] == vs[i]);
            }
        }
    }
}

/// The latest version does not depend on the requirement: only the semantic latest does.
pub proof fn law_latest_ignores_the_requirement(vs: Seq<CrateVersionView>, a: Seq<char>, b: Seq<char>)
    ensures
        filter_versions(vs, a).0 == filter_versions(vs, b).0,
    decreases vs.len(),
{
    if vs.len() > 0 {
        law_latest_ignores_the_requirement(vs.drop_last(), a, b);
    }
}

pub open spec fn installable_spec(vs: Seq<CrateVersionView>) -> Seq<VersionTypeView>
    decreases vs.len(),
{
    if vs.len() == 0 {
        Seq::empty()
    } else if vs.last().yanked {
        installable_spec(vs.drop_last())
    } else {
        installable_spec(vs.drop_last()).push(VersionTypeView::Registry(vs.last().num))
    }
}

/// The installable versions are exactly the listed versions that are not yanked, in the
/// order of the listing, each as a registry version.
pub proof fn law_installable_are_the_unyanked(vs: Seq<CrateVersionView>)
    ensures
        installable_spec(vs) == vs.filter(|v: CrateVersionView| !v.yanked).map_values(
            |v: CrateVersionView| VersionTypeView::Registry(v.num),
        ),
    decreases vs.len(),
{
    reveal_with_fuel(Seq::filter, 1);
    if vs.len() > 0 {
        let prev = vs.drop_last();
        law_installable_are_the_unyanked(prev);
        let f = |v: CrateVersionView| !v.yanked;
        let g = |v: CrateVersionView| VersionTypeView::Registry(v.num);
        if !vs.last().yanked {
            assert(vs.filter(f) == prev.filter(f).push(vs.last()));
            assert(vs.filter(f).map_values(g) =~= prev.filter(f).map_values(g).push(g(vs.last())));
        } else {
            assert(vs.filter(f) == prev.filter(f));
        }
    }
}

/// Every version that the registry lists and that is not yanked can be installed, and
/// every installable version is one that it lists and that is not yanked.
pub proof fn law_installable_versions_are_listed(vs: Seq<CrateVersionView>)
    ensures
        forall|i: int| 0 <= i < vs.len() && !vs[i].yanked ==> installable_spec(vs).contains(
            VersionTypeView::Registry(#[trigger] vs[i].num),
        ),
        forall|k: int| 0 <= k < installable_spec(vs).len() ==> exists|i: int|
            0 <= i < vs.len() && !vs[i].yanked && #[trigger] installable_spec(vs)[k] == VersionTypeView::Registry(
                vs[i].num,
            ),
{
    law_installable_are_the_unyanked(vs);
    let f = |v: CrateVersionView| !v.yanked;
    let g = |v: CrateVersionView| VersionTypeView::Registry(v.num);
    let kept = vs.filter(f);
    assert forall|i: int| 0 <= i < vs.len() && !vs[i].yanked implies installable_spec(vs).contains(
        VersionTypeView::Registry(#[trigger] vs[i].num),
    ) by {
        vs.lemma_filter_contains(f, i);
        assert(kept.contains(vs[i]));
        let j = choose|j: int| 0 <= j < kept.len() && kept[j] == vs[i];
        assert(installable_spec(vs)[j] == g(kept[j]));
    }
    assert forall|k: int| 0 <= k < installable_spec(vs).len() implies exists|i: int|
        0 <= i < vs.len() && !vs[i].yanked && #[trigger] installable_spec(vs)[k] == VersionTypeView::Registry(
            vs[i].num,
        ) by {
        vs.lemma_filter_pred(f, k);
        assert(kept.contains(kept[k]));
        vs.lemma_filter_contains_rev(f, kept[k]);
        assert(installable_spec(vs)[k] == g(kept[k]));
        assert(vs.contains(kept[k]));
        let i = choose|i: int| 0 <= i < vs.len() && vs[i] == kept[k];
    }
}

/// The versions that a dependency can be set to: those that are not yanked, in order.
pub fn installable_versions(versions: Vec<CrateVersion>) -> (r: Vec<VersionType>)
    ensures
        r@.map_values(|v: VersionType| v@) == installable_spec(crate_versions_view(versions@)),
{
    let ghost vs = crate_versions_view(versions@);
    let mut r: Vec<VersionType> = Vec::new();
    let mut i: usize = 0;
    while i < versions.len()
        invariant
            i <= versions.len(),
            vs == crate_versions_view(versions@),
            r@.map_values(|v: VersionType| v@) == installable_spec(vs.subrange(0, i as int)),
        decreases versions.len() - i,
    {
        proof {
            assert(vs.subrange(0, i + 1).drop_last() =~= vs.subrange(0, i as int));
            assert(vs.subrange(0, i + 1).last() == versions@[i as int]@);
        }
        if !versions[i].yanked {
            let ghost before = r@;
            r.push(VersionType::Registry(versions[i].num.duplicate()));
            proof {
                assert(r@.map_values(|v: VersionType| v@) =~= before.map_values(|v: VersionType| v@).push(
                    r@.last()@,
                ));
            }
        }
        i = i + 1;
    }
    proof {
        assert(vs.subrange(0, versions@.len() as int) =~= vs);
    }
    r
}

/// The status that a registry check of a dependency with source `source` ends in, given
/// the versions that the registry listed, or the error of fetching them; none where the
/// versions were listed but the source's compatible requirement cannot be read.
pub open spec fn checked_status_spec(
    source: RegistrySourceView,
    fetched: Result<Seq<CrateVersionView>, CheckForUpdateError>,
) -> Option<UpdateStatusView> {
    match fetched {
        Ok(vs) => match source.compatible_req() {
            Some(req) => {
                let t = filter_versions(vs, req);
                Some(
                    update_status_spec(
                        source,
                        Ok(UpdateResultView { latest_version: t.0, semantic_latest_version: t.1 }),
                    ),
                )
            },
            None => None,
        },
        Err(e) => Some(update_status_spec(source, Err(e))),
    }
}

pub open spec fn fetched_view(f: Result<Vec<CrateVersion>, CheckForUpdateError>) -> Result<
    Seq<CrateVersionView>,
    CheckForUpdateError,
> {
    match f {
        Ok(v) => Ok(crate_versions_view(v@)),
        Err(e) => Err(e),
    }
}

/// What an update check of a registry dependency reports, once the registry answered.
pub fn checked_status(source: &RegistrySource, fetched: Result<Vec<CrateVersion>, CheckForUpdateError>) -> (r: Option<UpdateStatus>)
    ensures
        opt_view_of(r) == checked_status_spec(source@, fetched_view(fetched)),
{
    let result = match fetched {
        Ok(versions) => {
            if source.compatible_req().is_none() {
                return None;
            }
            filter_update_results(source, &versions)
        },
        Err(e) => Err(e),
    };
    Some(update_status(source, result))
}

} // verus!
