//! Build reports from the build system.
//!
//! A report of a successful build stores the package in the catalogue and
//! records one build. A report of a failed build leaves the catalogue as it
//! is, records one failed build for each package that is built from the
//! reported directory, and asks for a notice to be sent.
use crate::api::{route, route_views, Method, Route, RouteView};
use crate::clock::now_micros;
use crate::db::{
    build_views, lemma_filter_push, lemma_same_repos, Build, BuildView, Madoguchi, Pkg, PkgKey,
    PkgView, Tables, UpsertOutcome,
};
use crate::error::{Error, Status};
use crate::text::{contains, lemma_remove_duplicates_distinct, views};
use vstd::prelude::*;
use vstd::string::StringExecFns;

verus! {

/// The routes of this module: the one that takes build reports.
pub fn routes() -> (r: Vec<Route>)
    ensures
        route_views(r@) == seq![
            RouteView {
                method: Method::Put,
                uri: "/<repo>/builds/<name>"@,
                name: "add_build"@,
            },
        ],
{
    let mut r: Vec<Route> = Vec::new();
    r.push(route(Method::Put, "/<repo>/builds/<name>", "add_build"));
    assert(route_views(r@) =~= seq![
        RouteView { method: Method::Put, uri: "/<repo>/builds/<name>"@, name: "add_build"@ },
    ]);
    r
}

/// What the build system says of one run.
#[derive(Debug, PartialEq, Eq)]
pub struct AddBuildBody {
    /// Identifier of the run.
    pub id: String,
    pub ver: String,
    pub rel: String,
    pub arch: String,
    /// Directory of the package's sources, where the run knows it.
    pub dirs: Option<String>,
    /// Whether the build succeeded.
    pub succ: bool,
}

/// A build report: the repository and the package it is about, and what the
/// build system says of the run.
pub ghost struct Report {
    pub repo: Seq<char>,
    pub name: Seq<char>,
    pub id: Seq<char>,
    pub ver: Seq<char>,
    pub rel: Seq<char>,
    pub arch: Seq<char>,
    pub dirs: Option<Seq<char>>,
    pub succ: bool,
}

/// The report that `body` makes of the package `name` of `repo`.
pub open spec fn report(repo: Seq<char>, name: Seq<char>, body: AddBuildBody) -> Report {
    Report {
        repo,
        name,
        id: body.id@,
        ver: body.ver@,
        rel: body.rel@,
        arch: body.arch@,
        dirs: match body.dirs {
            Some(d) => Some(d@),
            None => None,
        },
        succ: body.succ,
    }
}

/// Holds of the packages of `repo` whose sources are in `dirs`.
pub open spec fn built_from(repo: Seq<char>, dirs: Seq<char>) -> spec_fn(PkgView) -> bool {
    |p: PkgView| p.repo == repo && p.dirs == dirs
}

/// The name of a package.
pub open spec fn pkg_name() -> spec_fn(PkgView) -> Seq<char> {
    |p: PkgView| p.name
}

/// The text of the notice that a failed build of run `id` asks for.
pub open spec fn notice_text(
    repo: Seq<char>,
    dirs: Seq<char>,
    arch: Seq<char>,
    id: Seq<char>,
) -> Seq<char> {
    "\n<:incorrect:1176633989864362094> Build Failing on **"@ + repo + "**: **"@ + dirs + "** (*"@
        + arch + "*)\n\u{21d2} [gha](https://github.com/terrapkg/packages/actions/runs/"@ + id
        + "/)"@
}

impl Report {
    /// The same report, of a failed build.
    pub open spec fn failed(self) -> Report {
        Report { succ: false, ..self }
    }

    /// The ledger row that records the report under the package `pname`.
    pub open spec fn row(self, pname: Seq<char>, epoch: int) -> BuildView {
        BuildView {
            id: self.id,
            epoch,
            pname,
            pver: self.ver,
            prel: self.rel,
            parch: self.arch,
            repo: self.repo,
            succ: self.succ,
            commit: None,
        }
    }

    /// The directory as the catalogue stores it: as it was reported, and
    /// empty where the report has none.
    pub open spec fn stored_dirs(self) -> Seq<char> {
        match self.dirs {
            Some(d) => d,
            None => Seq::empty(),
        }
    }

    /// The catalogue row that a successful build stores.
    pub open spec fn package(self) -> PkgView {
        PkgView {
            name: self.name,
            repo: self.repo,
            ver: self.ver,
            rel: self.rel,
            arch: self.arch,
            dirs: self.stored_dirs(),
        }
    }

    /// The key of the catalogue row that the report is about.
    pub open spec fn key(self) -> PkgKey {
        PkgKey { repo: self.repo, name: self.name, arch: self.arch }
    }

    /// Why the report is turned down, if it is: the store cannot be reached,
    /// the repository is not registered, or the run was reported before.
    pub open spec fn refusal(self, t: Tables) -> Option<Error> {
        if !t.up {
            Some(Error::StoreUnavailable)
        } else if !t.has_repo(self.repo) {
            Some(Error::NotFound)
        } else if t.has_build(self.id) {
            Some(Error::Conflict)
        } else {
            None
        }
    }

    /// The names of the packages of the repository that are built from the
    /// reported directory, compared as it was reported, each once, in the
    /// order of the catalogue.
    pub open spec fn sharing(self, t: Tables) -> Seq<Seq<char>> {
        match self.dirs {
            Some(d) => t.pkgs.filter(built_from(self.repo, d)).map_values(
                pkg_name(),
            ).remove_duplicates(Seq::empty()),
            None => Seq::empty(),
        }
    }

    /// The packages that a failed build is recorded under: those that share
    /// the directory, or the reported package where there are none.
    pub open spec fn affected(self, t: Tables) -> Seq<Seq<char>> {
        if self.sharing(t).len() == 0 {
            seq![self.name]
        } else {
            self.sharing(t)
        }
    }

    /// The ledger rows that the report adds, in order.
    pub open spec fn rows(self, t: Tables, epoch: int) -> Seq<BuildView> {
        if self.succ {
            seq![self.row(self.name, epoch)]
        } else {
            self.affected(t).map_values(|n: Seq<char>| self.row(n, epoch))
        }
    }

    /// The tables after the report: unchanged where it is turned down; else
    /// with its rows at the end of the ledger and, for a successful build,
    /// with its package in the catalogue.
    pub open spec fn applied(self, t: Tables, epoch: int) -> Tables {
        if self.refusal(t).is_some() {
            t
        } else if self.succ {
            Tables { builds: t.builds + self.rows(t, epoch), ..t.with_pkg(self.package()) }
        } else {
            Tables { builds: t.builds + self.rows(t, epoch), ..t }
        }
    }

    /// What is handed back for a report that is not turned down.
    pub open spec fn receipt(self, t: Tables, epoch: int) -> SubmissionView {
        SubmissionView {
            status: if self.succ {
                Status::Created
            } else {
                Status::NoContent
            },
            records: self.rows(t, epoch),
            stored: if self.succ {
                Some(self.package())
            } else {
                None
            },
            outcome: if !self.succ {
                None
            } else if t.has_pkg(self.key()) {
                Some(UpsertOutcome::Updated)
            } else {
                Some(UpsertOutcome::Inserted)
            },
            notice: if self.succ {
                None
            } else {
                Some(
                    notice_text(
                        self.repo,
                        match self.dirs {
                            Some(d) => d,
                            None => Seq::empty(),
                        },
                        self.arch,
                        self.id,
                    ),
                )
            },
        }
    }
}

/// What a report did to the store.
#[derive(Debug, PartialEq, Eq)]
pub struct Submission {
    /// `Created` for a successful build, `NoContent` for a failed one.
    pub status: Status,
    /// The rows added to the ledger, in order; at least one.
    pub records: Vec<Build>,
    /// The row stored in the catalogue, for a successful build.
    pub stored: Option<Pkg>,
    /// Whether that row is new, for a successful build.
    pub outcome: Option<UpsertOutcome>,
    /// The notice to send, for a failed build.
    pub notice: Option<String>,
}

/// What a [`Submission`] holds.
pub ghost struct SubmissionView {
    pub status: Status,
    pub records: Seq<BuildView>,
    pub stored: Option<PkgView>,
    pub outcome: Option<UpsertOutcome>,
    pub notice: Option<Seq<char>>,
}

impl View for Submission {
    type V = SubmissionView;

    open spec fn view(&self) -> SubmissionView {
        SubmissionView {
            status: self.status,
            records: build_views(self.records@),
            stored: match self.stored {
                Some(p) => Some(p@),
                None => None,
            },
            outcome: self.outcome,
            notice: match self.notice {
                Some(n) => Some(n@),
                None => None,
            },
        }
    }
}

/// The notice that a failed build of run `id` asks for.
pub fn failure_notice(repo: &str, dirs: &str, arch: &str, id: &str) -> (r: String)
    ensures
        r@ == notice_text(repo@, dirs@, arch@, id@),
{
    let mut m = String::from_str("\n<:incorrect:1176633989864362094> Build Failing on **");
    m.append(repo);
    m.append("**: **");
    m.append(dirs);
    m.append("** (*");
    m.append(arch);
    m.append("*)\n\u{21d2} [gha](https://github.com/terrapkg/packages/actions/runs/");
    m.append(id);
    m.append("/)");
    m
}

/// The ledger row that records `body` under the package `pname`.
fn build_row(repo: &str, pname: &str, body: &AddBuildBody, epoch: i64, succ: bool) -> (r: Build)
    ensures
        r@ == (Report { succ, ..report(repo@, pname@, *body) }).row(pname@, epoch as int),
{
    Build {
        id: body.id.clone(),
        epoch,
        pname: String::from_str(pname),
        pver: body.ver.clone(),
        prel: body.rel.clone(),
        parch: body.arch.clone(),
        repo: String::from_str(repo),
        succ,
        commit: None,
    }
}

/// The names of the packages of `repo` that are built from `dirs`, each once.
fn names_sharing(db: &Madoguchi, repo: &str, dirs: &str) -> (out: Vec<String>)
    ensures
        views(out@) == db@.pkgs.filter(built_from(repo@, dirs@)).map_values(
            pkg_name(),
        ).remove_duplicates(Seq::empty()),
        views(out@).no_duplicates(),
{
    let want_repo = String::from_str(repo);
    let want_dirs = String::from_str(dirs);
    let ghost keep = built_from(repo@, dirs@);
    let ghost pkgs = db@.pkgs;
    let mut names: Vec<String> = Vec::new();
    let mut i: usize = 0;
    while i < db.pkgs.len()
        invariant
            i <= db.pkgs.len(),
            pkgs == db@.pkgs,
            want_repo@ == repo@,
            want_dirs@ == dirs@,
            keep == built_from(repo@, dirs@),
            views(names@) == pkgs.take(i as int).filter(keep).map_values(pkg_name()),
        decreases db.pkgs.len() - i,
    {
        proof {
            lemma_filter_push(pkgs.take(i as int), pkgs[i as int], keep);
            assert(pkgs.take(i + 1) =~= pkgs.take(i as int).push(pkgs[i as int]));
        }
        let row = &db.pkgs[i];
        if row.repo == want_repo && row.dirs == want_dirs {
            let ghost had = names@;
            let name = row.name.clone();
            names.push(name);
            assert(views(names@) =~= views(had).push(name@));
            assert(pkgs.take(i as int).filter(keep).push(pkgs[i as int]).map_values(pkg_name())
                =~= pkgs.take(i as int).filter(keep).map_values(pkg_name()).push(
                pkgs[i as int].name,
            ));
        }
        i += 1;
    }
    assert(pkgs.take(pkgs.len() as int) =~= pkgs);
    let ghost all = views(names@);
    let mut out: Vec<String> = Vec::new();
    let mut k: usize = 0;
    assert(all.skip(0) =~= all);
    assert(views(out@) =~= Seq::<Seq<char>>::empty());
    while k < names.len()
        invariant
            k <= names.len(),
            all == views(names@),
            all.skip(k as int).remove_duplicates(views(out@)) == all.remove_duplicates(
                Seq::empty(),
            ),
        decreases names.len() - k,
    {
        let ghost seen = views(out@);
        let ghost rest = all.skip(k as int);
        proof {
            assert(rest[0] == all[k as int]);
            assert(rest.skip(1) =~= all.skip(k + 1));
        }
        if !contains(&out, &names[k]) {
            let name = names[k].clone();
            out.push(name);
            assert(views(out@) =~= seen + seq![all[k as int]]);
        }
        k += 1;
    }
    proof {
        assert(all.skip(all.len() as int).len() == 0);
        lemma_remove_duplicates_distinct(all, Seq::empty());
    }
    out
}

/// Why a report of the package `name` of `repo` is turned down, if it is: the
/// store cannot be reached (`StoreUnavailable`), the repository is not
/// registered (`NotFound`), or a build with the run's identifier is recorded
/// already (`Conflict`); the first of these that holds.
pub fn refusal(db: &Madoguchi, repo: &str, name: &str, body: &AddBuildBody) -> (r: Option<Error>)
    ensures
        r == report(repo@, name@, *body).refusal(db@),
        r == report(repo@, name@, *body).failed().refusal(db@),
{
    if !db.up {
        Some(Error::StoreUnavailable)
    } else if db.find_repo(repo).is_none() {
        Some(Error::NotFound)
    } else if db.has_build(body.id.as_str()) {
        Some(Error::Conflict)
    } else {
        None
    }
}

/// Applies a report of a failed build, taken at the time `epoch`: one failed
/// build is recorded for each package that shares the reported directory, or
/// for the reported package where none does. The catalogue is not touched,
/// whatever `body.succ` says.
pub fn add_failed_build(
    db: &mut Madoguchi,
    repo: &str,
    name: &str,
    body: &AddBuildBody,
    epoch: i64,
) -> (r: Result<Submission, Error>)
    requires
        old(db).wf(),
    ensures
        final(db).wf(),
        final(db)@ == report(repo@, name@, *body).failed().applied(old(db)@, epoch as int),
        final(db)@.pkgs == old(db)@.pkgs,
        final(db)@.repos == old(db)@.repos,
        match r {
            Ok(s) => report(repo@, name@, *body).failed().refusal(old(db)@).is_none() && s@
                == report(repo@, name@, *body).failed().receipt(old(db)@, epoch as int),
            Err(e) => report(repo@, name@, *body).failed().refusal(old(db)@) == Some(e),
        },
{
    let ghost rep = report(repo@, name@, *body).failed();
    let ghost before = db@;
    match refusal(db, repo, name, body) {
        Some(e) => {
            return Err(e);
        },
        None => {},
    }
    let mut names = match &body.dirs {
        Some(d) => names_sharing(db, repo, d.as_str()),
        None => Vec::new(),
    };
    proof {
        if body.dirs.is_none() {
            assert(views(names@) =~= Seq::<Seq<char>>::empty());
        }
        assert(views(names@) == rep.sharing(before));
    }
    if names.len() == 0 {
        let own = String::from_str(name);
        names.push(own);
        assert(views(names@) =~= seq![name@]);
    }
    let ghost affected = views(names@);
    let ghost rows = rep.rows(before, epoch as int);
    assert(affected == rep.affected(before));
    assert(affected.no_duplicates());
    let mut records: Vec<Build> = Vec::new();
    let mut i: usize = 0;
    while i < names.len()
        invariant
            i <= names.len(),
            affected == views(names@),
            rep == report(repo@, name@, *body).failed(),
            rows == affected.map_values(|n: Seq<char>| rep.row(n, epoch as int)),
            build_views(records@) == rows.take(i as int),
            db@ == (Tables { builds: before.builds + rows.take(i as int), ..before }),
        decreases names.len() - i,
    {
        let row = build_row(repo, names[i].as_str(), body, epoch, false);
        let copy = row.clone();
        let ghost had = records@;
        let ghost stored = db.builds@;
        proof {
            assert(affected[i as int] == names@[i as int]@);
            assert(row@ == rows[i as int]);
            assert(rows.take(i + 1) =~= rows.take(i as int).push(rows[i as int]));
        }
        records.push(copy);
        db.builds.push(row);
        proof {
            assert(build_views(records@) =~= build_views(had).push(copy@));
            assert(build_views(db.builds@) =~= build_views(stored).push(row@));
            assert(db@.builds =~= before.builds + rows.take(i + 1));
        }
        i += 1;
    }
    proof {
        assert(rows.take(rows.len() as int) =~= rows);
        lemma_rows_keep_wf(before, rep, epoch as int);
    }
    let dirs = match &body.dirs {
        Some(d) => d.clone(),
        None => String::new(),
    };
    let notice = failure_notice(repo, dirs.as_str(), body.arch.as_str(), body.id.as_str());
    Ok(
        Submission {
            status: Status::NoContent,
            records,
            stored: None,
            outcome: None,
            notice: Some(notice),
        },
    )
}

/// The rows of a report that is not turned down keep the constraints of the
/// ledger: they carry a new identifier, each under another package name.
pub proof fn lemma_rows_keep_wf(t: Tables, rep: Report, epoch: int)
    requires
        t.wf(),
        rep.refusal(t).is_none(),
        !rep.succ,
    ensures
        rep.applied(t, epoch).wf(),
{
    let n = rep.applied(t, epoch);
    let rows = rep.rows(t, epoch);
    let names = rep.affected(t);
    lemma_same_repos(t, n);
    if rep.sharing(t).len() > 0 {
        match rep.dirs {
            Some(d) => {
                lemma_remove_duplicates_distinct(
                    t.pkgs.filter(built_from(rep.repo, d)).map_values(pkg_name()),
                    Seq::empty(),
                );
            },
            None => {},
        }
    }
    assert(names.no_duplicates());
    assert forall|i: int, j: int| 0 <= i < j < n.builds.len() implies #[trigger] n.builds[i].key()
        != #[trigger] n.builds[j].key() by {
        if j < t.builds.len() {
            assert(t.builds[i].key() != t.builds[j].key());
        } else if i < t.builds.len() {
            assert(n.builds[j].id == rep.id);
            assert(t.builds[i].id != rep.id);
        } else {
            assert(n.builds[i].pname == names[i - t.builds.len()]);
            assert(n.builds[j].pname == names[j - t.builds.len()]);
        }
    }
    assert forall|i: int| 0 <= i < n.pkgs.len() implies n.has_repo(#[trigger] n.pkgs[i].repo) by {
        assert(t.has_repo(t.pkgs[i].repo));
    }
    assert forall|i: int| 0 <= i < n.builds.len() implies n.has_repo(
        #[trigger] n.builds[i].repo,
    ) by {
        if i < t.builds.len() {
            assert(t.has_repo(t.builds[i].repo));
        } else {
            assert(n.builds[i].repo == rep.repo);
        }
    }
}

/// Whether `after` and `r` are what the report `rep`, taken at the time
/// `epoch`, makes of `before`.
pub open spec fn submitted(
    rep: Report,
    before: Tables,
    after: Tables,
    r: Result<Submission, Error>,
    epoch: int,
) -> bool {
    &&& after == rep.applied(before, epoch)
    &&& match r {
        Ok(s) => rep.refusal(before).is_none() && s@ == rep.receipt(before, epoch),
        Err(e) => rep.refusal(before) == Some(e),
    }
}

/// Applies a build report taken at the time `epoch`.
///
/// A successful build stores its package in the catalogue, as a new row or
/// over the row of the same repository, name and architecture, and then
/// records one build. A failed build is applied by [`add_failed_build`].
/// The report is turned down, and nothing changes, where the store cannot be
/// reached (`StoreUnavailable`), the repository is not registered
/// (`NotFound`) or a build with the run's identifier is recorded already
/// (`Conflict`).
pub fn submit_build(
    db: &mut Madoguchi,
    repo: &str,
    name: &str,
    body: &AddBuildBody,
    epoch: i64,
) -> (r: Result<Submission, Error>)
    requires
        old(db).wf(),
    ensures
        final(db).wf(),
        submitted(report(repo@, name@, *body), old(db)@, final(db)@, r, epoch as int),
        r.is_ok() ==> r.unwrap()@.records.len() >= 1,
{
    let ghost rep = report(repo@, name@, *body);
    let ghost before = db@;
    if !body.succ {
        assert(rep.failed() == rep);
        return add_failed_build(db, repo, name, body, epoch);
    }
    match refusal(db, repo, name, body) {
        Some(e) => {
            return Err(e);
        },
        None => {},
    }
    let dirs = match &body.dirs {
        Some(d) => d.clone(),
        None => String::new(),
    };
    let stored = Pkg {
        name: String::from_str(name),
        repo: String::from_str(repo),
        ver: body.ver.clone(),
        rel: body.rel.clone(),
        arch: body.arch.clone(),
        dirs: dirs.clone(),
    };
    assert(stored@ == rep.package());
    let upserted = db.upsert(
        repo,
        name,
        body.arch.as_str(),
        body.ver.as_str(),
        body.rel.as_str(),
        dirs.as_str(),
    );
    let ghost mid = db@;
    let row = build_row(repo, name, body, epoch, true);
    let copy = row.clone();
    proof {
        assert(mid == before.with_pkg(rep.package()));
        lemma_same_repos(before, mid);
        assert(row@ == rep.row(name@, epoch as int));
        if mid.has_build_row(row@.id, row@.pname) {
            let i = choose|i: int|
                0 <= i < mid.builds.len() && #[trigger] mid.builds[i].key() == (
                    row@.id,
                    row@.pname,
                );
            assert(before.builds[i].id == rep.id);
        }
        assert(mid.append_result(row@).is_ok());
    }
    let appended = db.append(row);
    proof {
        assert(db@.builds =~= before.builds + rep.rows(before, epoch as int));
    }
    let mut records: Vec<Build> = Vec::new();
    records.push(copy);
    assert(build_views(records@) =~= rep.rows(before, epoch as int));
    match (upserted, appended) {
        (Ok(outcome), Ok(())) => Ok(
            Submission {
                status: Status::Created,
                records,
                stored: Some(stored),
                outcome: Some(outcome),
                notice: None,
            },
        ),
        (Err(e), _) => Err(e),
        (_, Err(e)) => Err(e),
    }
}

/// Applies a build report at the time the system clock shows. See
/// [`submit_build`] for what the report does at a given time.
///
/// The report is judged before the clock is read: one that is turned down is
/// turned down whatever the clock shows. Where the report stands and the
/// clock gives no time to record the build under, it is turned down with
/// `ClockUnavailable`. Nothing changes where a report is turned down.
pub fn add_build(db: &mut Madoguchi, repo: &str, name: &str, body: &AddBuildBody) -> (r: Result<
    Submission,
    Error,
>)
    requires
        old(db).wf(),
    ensures
        final(db).wf(),
        match report(repo@, name@, *body).refusal(old(db)@) {
            Some(e) => r == Err::<Submission, Error>(e) && final(db)@ == old(db)@,
            None => (r == Err::<Submission, Error>(Error::ClockUnavailable) && final(db)@ == old(db)@) || (r.is_ok() && exists|epoch: int|
                i64::MIN <= epoch <= i64::MAX && #[trigger] submitted(
                    report(repo@, name@, *body),
                    old(db)@,
                    final(db)@,
                    r,
                    epoch,
                )),
        },
{
    match refusal(db, repo, name, body) {
        Some(e) => {
            return Err(e);
        },
        None => {},
    }
    match now_micros() {
        Some(epoch) => {
            let r = submit_build(db, repo, name, body, epoch);
            assert(submitted(report(repo@, name@, *body), old(db)@, db@, r, epoch as int));
            r
        },
        None => Err(Error::ClockUnavailable),
    }
}

/// What ends a request when a row that a submission asks for cannot be
/// written: for a successful build every row must be written, so the failure
/// ends it; the rows of a failed build are written one by one, and one that
/// cannot be written is passed over.
pub open spec fn write_failure(status: Status) -> Option<Error> {
    if status == Status::Created {
        Some(Error::StoreUnavailable)
    } else {
        None
    }
}

/// The error that ends the request after a row of `done` could not be
/// written, or `None` where the remaining rows are to be written still.
pub fn on_failed_write(done: &Submission) -> (r: Option<Error>)
    ensures
        r == write_failure(done.status),
{
    match done.status {
        Status::Created => Some(Error::StoreUnavailable),
        _ => None,
    }
}

/// The answer to a report after its rows were written, `written` of the
/// ledger rows with success: the status of the submission where at least one
/// build is on record, and `StoreUnavailable` where none is. Only an answer
/// with a status is followed by the notice.
pub open spec fn conclusion(status: Status, written: nat) -> Result<Status, Error> {
    if written == 0 {
        Err(Error::StoreUnavailable)
    } else {
        Ok(status)
    }
}

/// The answer to a report after its rows were written; see [`conclusion`].
pub fn concluded(done: &Submission, written: usize) -> (r: Result<Status, Error>)
    ensures
        r == conclusion(done.status, written as nat),
{
    if written == 0 {
        Err(Error::StoreUnavailable)
    } else {
        Ok(done.status)
    }
}

/// The status that answers a report.
pub fn reply(r: &Result<Submission, Error>) -> (s: Status)
    ensures
        s == match *r {
            Ok(done) => done.status,
            Err(e) => e.spec_status(),
        },
{
    match r {
        Ok(done) => done.status,
        Err(e) => e.status(),
    }
}

} // verus!
