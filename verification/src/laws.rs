//! What holds of the store whatever reports and requests arrive.
use crate::api::ci::{built_from, lemma_rows_keep_wf, pkg_name, Report};
use crate::catalog::lemma_with_pkg_wf;
use crate::db::{
    build_outside, lemma_filter_positions, lemma_same_repos, pkg_outside, PkgView, Tables,
};
use crate::ledger::lemma_with_build_wf;
use vstd::prelude::*;

verus! {

/// A report leaves the constraints of the tables in place, whether it is
/// applied or turned down.
pub proof fn law_report_keeps_constraints(t: Tables, rep: Report, epoch: int)
    requires
        t.wf(),
    ensures
        rep.applied(t, epoch).wf(),
{
    if rep.refusal(t).is_none() {
        if rep.succ {
            let mid = t.with_pkg(rep.package());
            let row = rep.row(rep.name, epoch);
            lemma_with_pkg_wf(t, rep.package());
            lemma_same_repos(t, mid);
            if mid.has_build_row(row.id, row.pname) {
                let i = choose|i: int|
                    0 <= i < mid.builds.len() && #[trigger] mid.builds[i].key() == (
                        row.id,
                        row.pname,
                    );
                assert(t.builds[i].id == rep.id);
            }
            lemma_with_build_wf(mid, row);
            assert(mid.with_build(row).builds =~= t.builds + rep.rows(t, epoch));
            assert(rep.applied(t, epoch) == mid.with_build(row));
        } else {
            lemma_rows_keep_wf(t, rep, epoch);
        }
    }
}

/// Two successful builds of one package, reported one after the other under
/// different run identifiers, leave one catalogue row for the package, which
/// holds what the second report said, and two more rows in the ledger.
pub proof fn law_second_success_overwrites(
    t: Tables,
    first: Report,
    second: Report,
    epoch1: int,
    epoch2: int,
)
    requires
        t.wf(),
        first.succ,
        second.succ,
        first.key() == second.key(),
        first.id != second.id,
        first.refusal(t).is_none(),
        second.refusal(t).is_none(),
    ensures
        ({
            let end = second.applied(first.applied(t, epoch1), epoch2);
            &&& second.refusal(first.applied(t, epoch1)).is_none()
            &&& end.builds == t.builds.push(first.row(first.name, epoch1)).push(
                second.row(second.name, epoch2),
            )
            &&& end.pkgs.len() == if t.has_pkg(first.key()) {
                t.pkgs.len()
            } else {
                t.pkgs.len() + 1
            }
            &&& exists|i: int|
                0 <= i < end.pkgs.len() && #[trigger] end.pkgs[i] == second.package()
            &&& forall|i: int|
                0 <= i < end.pkgs.len() && (#[trigger] end.pkgs[i]).key() == second.key()
                    ==> end.pkgs[i] == second.package()
            &&& forall|i: int, j: int|
                0 <= i < end.pkgs.len() && 0 <= j < end.pkgs.len() && (#[trigger] end.pkgs[i]).key()
                    == second.key() && (#[trigger] end.pkgs[j]).key() == second.key() ==> i == j
        }),
{
    let mid = first.applied(t, epoch1);
    let end = second.applied(mid, epoch2);
    law_report_keeps_constraints(t, first, epoch1);
    lemma_same_repos(t, t.with_pkg(first.package()));
    lemma_same_repos(t, mid);
    lemma_with_pkg_wf(t, first.package());
    assert(mid.pkgs == t.with_pkg(first.package()).pkgs);
    assert(mid.has_pkg(first.key())) by {
        let i = t.with_pkg(first.package()).pkg_index(first.key());
        assert(mid.pkgs[i].key() == first.key());
    }
    if mid.has_build(second.id) {
        let i = choose|i: int| 0 <= i < mid.builds.len() && #[trigger] mid.builds[i].id == second.id;
        if i < t.builds.len() {
            assert(t.builds[i].id == second.id);
        }
    }
    assert(second.refusal(mid).is_none());
    law_report_keeps_constraints(mid, second, epoch2);
    assert(end.builds =~= t.builds.push(first.row(first.name, epoch1)).push(
        second.row(second.name, epoch2),
    ));
    let at = mid.pkg_index(second.key());
    assert(end.pkgs == mid.pkgs.update(at, second.package()));
    assert(end.pkgs[at] == second.package());
    assert forall|i: int|
        0 <= i < end.pkgs.len() && (#[trigger] end.pkgs[i]).key() == second.key() implies end.pkgs[i]
        == second.package() by {
        if i < at {
            assert(end.pkgs[i].key() != end.pkgs[at].key());
        } else if i > at {
            assert(end.pkgs[at].key() != end.pkgs[i].key());
        }
    }
    assert forall|i: int, j: int|
        0 <= i < end.pkgs.len() && 0 <= j < end.pkgs.len() && (#[trigger] end.pkgs[i]).key()
            == second.key() && (#[trigger] end.pkgs[j]).key() == second.key() implies i == j by {
        if i < j {
            assert(end.pkgs[i].key() != end.pkgs[j].key());
        } else if j < i {
            assert(end.pkgs[j].key() != end.pkgs[i].key());
        }
    }
}

/// A report of a failed build changes no catalogue row and no repository,
/// whether it is applied or turned down.
pub proof fn law_failure_keeps_catalogue(t: Tables, rep: Report, epoch: int)
    requires
        !rep.succ,
    ensures
        rep.applied(t, epoch).pkgs == t.pkgs,
        rep.applied(t, epoch).repos == t.repos,
{
}

/// A failed build that is applied is recorded once for each package of the
/// repository that is built from the reported directory: every added row is a
/// failed build under the run's identifier, no two are under one package
/// name, and each such package has its row.
pub proof fn law_failure_marks_directory(t: Tables, rep: Report, epoch: int, p: PkgView)
    requires
        !rep.succ,
        rep.refusal(t).is_none(),
    ensures
        rep.applied(t, epoch).builds == t.builds + rep.rows(t, epoch),
        rep.rows(t, epoch).len() >= 1,
        forall|k: int|
            0 <= k < rep.rows(t, epoch).len() ==> (#[trigger] rep.rows(t, epoch)[k]).id == rep.id
                && !rep.rows(t, epoch)[k].succ && rep.rows(t, epoch)[k].epoch == epoch,
        forall|k: int, l: int|
            0 <= k < l < rep.rows(t, epoch).len() ==> (#[trigger] rep.rows(t, epoch)[k]).pname != (
            #[trigger] rep.rows(t, epoch)[l]).pname,
        t.pkgs.contains(p) && p.repo == rep.repo && rep.dirs == Some(p.dirs) ==> exists|k: int|
            0 <= k < rep.rows(t, epoch).len() && (#[trigger] rep.rows(t, epoch)[k]).pname == p.name,
{
    let rows = rep.rows(t, epoch);
    let names = rep.affected(t);
    match rep.dirs {
        Some(d) => {
            let hit = t.pkgs.filter(built_from(rep.repo, d)).map_values(pkg_name());
            crate::text::lemma_remove_duplicates_distinct(hit, Seq::empty());
            hit.lemma_remove_duplicates_properties(Seq::empty());
            if t.pkgs.contains(p) && p.repo == rep.repo && d == p.dirs {
                let i = choose|i: int| 0 <= i < t.pkgs.len() && t.pkgs[i] == p;
                let at = lemma_filter_positions(t.pkgs, built_from(rep.repo, d));
                assert(built_from(rep.repo, d)(t.pkgs[i]));
                let k = choose|k: int| 0 <= k < at.len() && #[trigger] at[k] == i;
                assert(hit[k] == p.name);
                assert((hit + Seq::<Seq<char>>::empty()).contains(p.name)) by {
                    assert((hit + Seq::<Seq<char>>::empty())[k] == p.name);
                }
                assert(rep.sharing(t).contains(p.name));
                let m = choose|m: int| 0 <= m < names.len() && names[m] == p.name;
                assert(rows[m].pname == p.name);
            }
        },
        None => {},
    }
    assert(names.no_duplicates());
    assert forall|k: int, l: int| 0 <= k < l < rows.len() implies (#[trigger] rows[k]).pname != (
    #[trigger] rows[l]).pname by {
        assert(rows[k].pname == names[k]);
        assert(rows[l].pname == names[l]);
    }
}

/// A failed build reaches what a successful one stored: after a success for a
/// package was applied, a failure that is applied for the same repository and
/// reports the same directory is recorded under that package.
pub proof fn law_failure_reaches_stored_package(
    t: Tables,
    success: Report,
    failure: Report,
    epoch1: int,
    epoch2: int,
)
    requires
        t.wf(),
        success.succ,
        !failure.succ,
        success.refusal(t).is_none(),
        failure.refusal(success.applied(t, epoch1)).is_none(),
        failure.repo == success.repo,
        success.dirs.is_some(),
        failure.dirs == success.dirs,
    ensures
        exists|k: int|
            0 <= k < failure.rows(success.applied(t, epoch1), epoch2).len() && (
            #[trigger] failure.rows(success.applied(t, epoch1), epoch2)[k]).pname == success.name,
{
    let mid = success.applied(t, epoch1);
    let p = success.package();
    lemma_with_pkg_wf(t, p);
    if t.has_pkg(p.key()) {
        assert(mid.pkgs[t.pkg_index(p.key())] == p);
    } else {
        assert(mid.pkgs[t.pkgs.len() as int] == p);
    }
    assert(mid.pkgs.contains(p));
    law_failure_marks_directory(mid, failure, epoch2, p);
}

/// Deleting a repository leaves no package and no build that belongs to it,
/// and keeps every other row.
pub proof fn law_repo_deletion_cascades(t: Tables, name: Seq<char>)
    requires
        t.wf(),
    ensures
        t.without_repo(name).wf(),
        !t.without_repo(name).has_repo(name),
        forall|i: int|
            0 <= i < t.without_repo(name).pkgs.len() ==> (#[trigger] t.without_repo(
                name,
            ).pkgs[i]).repo != name,
        forall|i: int|
            0 <= i < t.without_repo(name).builds.len() ==> (#[trigger] t.without_repo(
                name,
            ).builds[i]).repo != name,
        forall|i: int|
            0 <= i < t.pkgs.len() && (#[trigger] t.pkgs[i]).repo != name ==> t.without_repo(
                name,
            ).pkgs.contains(t.pkgs[i]),
        forall|i: int|
            0 <= i < t.builds.len() && (#[trigger] t.builds[i]).repo != name ==> t.without_repo(
                name,
            ).builds.contains(t.builds[i]),
{
    let n = t.without_repo(name);
    crate::registry::lemma_without_repo_wf(t, name);
    let pa = lemma_filter_positions(t.pkgs, pkg_outside(name));
    let ba = lemma_filter_positions(t.builds, build_outside(name));
    assert forall|i: int| 0 <= i < n.pkgs.len() implies (#[trigger] n.pkgs[i]).repo != name by {
        assert(pkg_outside(name)(t.pkgs[pa[i]]));
    }
    assert forall|i: int| 0 <= i < n.builds.len() implies (#[trigger] n.builds[i]).repo
        != name by {
        assert(build_outside(name)(t.builds[ba[i]]));
    }
    assert forall|i: int| 0 <= i < t.pkgs.len() && (#[trigger] t.pkgs[i]).repo
        != name implies n.pkgs.contains(t.pkgs[i]) by {
        assert(pkg_outside(name)(t.pkgs[i]));
        let k = choose|k: int| 0 <= k < pa.len() && #[trigger] pa[k] == i;
        assert(n.pkgs[k] == t.pkgs[i]);
    }
    assert forall|i: int| 0 <= i < t.builds.len() && (#[trigger] t.builds[i]).repo
        != name implies n.builds.contains(t.builds[i]) by {
        assert(build_outside(name)(t.builds[i]));
        let k = choose|k: int| 0 <= k < ba.len() && #[trigger] ba[k] == i;
        assert(n.builds[k] == t.builds[i]);
    }
}

} // verus!
