//! The endpoints that register repositories and packages and that answer
//! questions about them.
use crate::api::{route, route_views, Method, Route, RouteView};
use crate::catalog::{is_named, pkg_is_not, query};
use crate::db::{
    build_views, pkg_views, repo_views, Build, Madoguchi, Pkg, PkgKey, PkgView, Repo,
    UpsertOutcome,
};
use crate::error::{Error, Status};
use crate::ledger::build_of;
use crate::registry::stored_repo;
use crate::text::{strip_trailing_slash, without_trailing_slash};
use vstd::prelude::*;

verus! {

/// The routes of this module.
pub fn routes() -> (r: Vec<Route>)
    ensures
        route_views(r@) == seq![
            RouteView {
                method: Method::Put,
                uri: "/<repo>/packages/<name>"@,
                name: "add_pkg"@,
            },
            RouteView {
                method: Method::Delete,
                uri: "/<repo>/packages/<name>?<ver>&<arch>&<rel>"@,
                name: "del_pkg"@,
            },
            RouteView { method: Method::Put, uri: "/repos/<name>"@, name: "add_repo"@ },
            RouteView { method: Method::Delete, uri: "/repos/<name>"@, name: "del_repo"@ },
            RouteView { method: Method::Get, uri: "/repos"@, name: "list_repos"@ },
            RouteView {
                method: Method::Get,
                uri: "/<repo>/packages?<n>&<order>&<offset>"@,
                name: "search_pkgs"@,
            },
            RouteView {
                method: Method::Get,
                uri: "/<repo>/packages/<name>"@,
                name: "pkg_info"@,
            },
            RouteView { method: Method::Get, uri: "/<repo>/builds/<pkg>"@, name: "list_builds"@ },
        ],
{
    let mut r: Vec<Route> = Vec::new();
    r.push(route(Method::Put, "/<repo>/packages/<name>", "add_pkg"));
    r.push(route(Method::Delete, "/<repo>/packages/<name>?<ver>&<arch>&<rel>", "del_pkg"));
    r.push(route(Method::Put, "/repos/<name>", "add_repo"));
    r.push(route(Method::Delete, "/repos/<name>", "del_repo"));
    r.push(route(Method::Get, "/repos", "list_repos"));
    r.push(route(Method::Get, "/<repo>/packages?<n>&<order>&<offset>", "search_pkgs"));
    r.push(route(Method::Get, "/<repo>/packages/<name>", "pkg_info"));
    r.push(route(Method::Get, "/<repo>/builds/<pkg>", "list_builds"));
    assert(route_views(r@) =~= seq![
        RouteView { method: Method::Put, uri: "/<repo>/packages/<name>"@, name: "add_pkg"@ },
        RouteView {
            method: Method::Delete,
            uri: "/<repo>/packages/<name>?<ver>&<arch>&<rel>"@,
            name: "del_pkg"@,
        },
        RouteView { method: Method::Put, uri: "/repos/<name>"@, name: "add_repo"@ },
        RouteView { method: Method::Delete, uri: "/repos/<name>"@, name: "del_repo"@ },
        RouteView { method: Method::Get, uri: "/repos"@, name: "list_repos"@ },
        RouteView {
            method: Method::Get,
            uri: "/<repo>/packages?<n>&<order>&<offset>"@,
            name: "search_pkgs"@,
        },
        RouteView { method: Method::Get, uri: "/<repo>/packages/<name>"@, name: "pkg_info"@ },
        RouteView { method: Method::Get, uri: "/<repo>/builds/<pkg>"@, name: "list_builds"@ },
    ]);
    r
}

/// What a request that registers a package says of it.
#[derive(Debug, PartialEq, Eq)]
pub struct AddPkgBody {
    pub ver: String,
    pub rel: String,
    pub arch: String,
    pub dirs: String,
}

/// What a request that registers a repository says of it.
#[derive(Debug, PartialEq, Eq)]
pub struct AddRepoBody {
    pub link: String,
    pub gh: String,
}

/// The row that registering the package `name` of `repo` stores: the
/// directory without one trailing `/`.
pub open spec fn registered(repo: Seq<char>, name: Seq<char>, p: AddPkgBody) -> PkgView {
    PkgView {
        name,
        repo,
        ver: p.ver@,
        rel: p.rel@,
        arch: p.arch@,
        dirs: without_trailing_slash(p.dirs@),
    }
}

/// Registers the package `name` of `repo`, or overwrites version, release and
/// directory of the row of its repository, name and architecture.
///
/// Answers `Created` for a new row and `NoContent` for an overwritten one;
/// `NotFound` where the repository is not registered and
/// `InternalServerError` where the store cannot be reached, with nothing
/// changed.
pub fn add_pkg(db: &mut Madoguchi, repo: &str, name: &str, p: &AddPkgBody) -> (s: Status)
    requires
        old(db).wf(),
    ensures
        final(db).wf(),
        !old(db)@.up ==> s == Status::InternalServerError && final(db)@ == old(db)@,
        old(db)@.up && !old(db)@.has_repo(repo@) ==> s == Status::NotFound && final(db)@ == old(db)@,
        old(db)@.up && old(db)@.has_repo(repo@) ==> final(db)@ == old(db)@.with_pkg(
            registered(repo@, name@, *p),
        ) && s == if old(db)@.has_pkg(PkgKey { repo: repo@, name: name@, arch: p.arch@ }) {
            Status::NoContent
        } else {
            Status::Created
        },
{
    let dirs = strip_trailing_slash(p.dirs.as_str());
    match db.upsert(
        repo,
        name,
        p.arch.as_str(),
        p.ver.as_str(),
        p.rel.as_str(),
        dirs.as_str(),
    ) {
        Ok(UpsertOutcome::Inserted) => Status::Created,
        Ok(UpsertOutcome::Updated) => Status::NoContent,
        Err(e) => e.status(),
    }
}

/// Deletes the package row of `repo` with that name, version, architecture
/// and release, if there is one. Answers `NoContent` whether there was one or
/// not, and `InternalServerError` where the store cannot be reached.
pub fn del_pkg(db: &mut Madoguchi, repo: &str, name: &str, ver: &str, arch: &str, rel: &str) -> (s:
    Status)
    requires
        old(db).wf(),
    ensures
        final(db).wf(),
        !old(db)@.up ==> s == Status::InternalServerError && final(db)@ == old(db)@,
        old(db)@.up ==> s == Status::NoContent && final(db)@ == old(db)@.with_pkgs_kept(
            pkg_is_not(repo@, name@, ver@, arch@, rel@),
        ),
{
    match db.remove_pkg(repo, name, ver, arch, rel) {
        Ok(_) => Status::NoContent,
        Err(e) => e.status(),
    }
}

/// Registers the repository `name`, or overwrites its links. The links are
/// stored without one trailing `/`. Answers `Created` for a new repository
/// and `NoContent` for an overwritten one.
pub fn add_repo(db: &mut Madoguchi, name: &str, repo: &AddRepoBody) -> (s: Status)
    requires
        old(db).wf(),
    ensures
        final(db).wf(),
        !old(db)@.up ==> s == Status::InternalServerError && final(db)@ == old(db)@,
        old(db)@.up ==> final(db)@ == old(db)@.with_repo(stored_repo(name@, repo.link@, repo.gh@))
            && s == if old(db)@.has_repo(name@) {
            Status::NoContent
        } else {
            Status::Created
        },
{
    match db.put_repo(name, repo.link.as_str(), repo.gh.as_str()) {
        Ok(UpsertOutcome::Inserted) => Status::Created,
        Ok(UpsertOutcome::Updated) => Status::NoContent,
        Err(e) => e.status(),
    }
}

/// Deletes the repository `name` with its packages and builds. Answers
/// `NoContent`; `NotFound` where no repository of that name is registered.
pub fn del_repo(db: &mut Madoguchi, name: &str) -> (s: Status)
    requires
        old(db).wf(),
    ensures
        final(db).wf(),
        !old(db)@.up ==> s == Status::InternalServerError && final(db)@ == old(db)@,
        old(db)@.up && !old(db)@.has_repo(name@) ==> s == Status::NotFound && final(db)@ == old(db)@,
        old(db)@.up && old(db)@.has_repo(name@) ==> s == Status::NoContent && final(db)@
            == old(db)@.without_repo(name@),
{
    match db.drop_repo(name) {
        Ok(()) => Status::NoContent,
        Err(e) => e.status(),
    }
}

/// The registered repositories.
pub fn list_repos(db: &Madoguchi) -> (r: Result<Vec<Repo>, Status>)
    ensures
        match r {
            Ok(v) => db@.up && repo_views(v@) == db@.repos,
            Err(s) => !db@.up && s == Status::InternalServerError,
        },
{
    match db.list_repos() {
        Ok(v) => Ok(v),
        Err(e) => Err(e.status()),
    }
}

/// Lists packages of `repo`: `n` rows at most, in the order `order`, from row
/// `offset` on. Answers the status of the error where the listing is refused.
pub fn search_pkgs(
    db: &Madoguchi,
    repo: &str,
    n: Option<i64>,
    order: Option<&str>,
    offset: Option<i64>,
) -> (r: Result<Vec<Pkg>, Status>)
    ensures
        match r {
            Ok(v) => query(repo, n, order, offset).refusal(db@).is_none() && pkg_views(v@) == query(
                repo,
                n,
                order,
                offset,
            ).answer(db@),
            Err(s) => query(repo, n, order, offset).refusal(db@).is_some() && s == query(
                repo,
                n,
                order,
                offset,
            ).refusal(db@).unwrap().spec_status(),
        },
{
    match db.list(repo, n, order, offset) {
        Ok(v) => Ok(v),
        Err(e) => Err(e.status()),
    }
}

/// The first package row of `repo` with the name `name`. Answers `NotFound`
/// where there is none, and `InternalServerError` where the store cannot be
/// reached.
pub fn pkg_info(db: &Madoguchi, repo: &str, name: &str) -> (r: Result<Pkg, Status>)
    ensures
        match r {
            Ok(p) => db@.up && exists|i: int|
                db@.is_first_named(i, repo@, name@) && db@.pkgs[i] == p@,
            Err(s) => if db@.up {
                s == Status::NotFound && forall|j: int|
                    0 <= j < db@.pkgs.len() ==> !is_named(#[trigger] db@.pkgs[j], repo@, name@)
            } else {
                s == Status::InternalServerError
            },
        },
{
    if !db.up {
        return Err(Error::StoreUnavailable.status());
    }
    match db.get(repo, name) {
        Some(p) => Ok(p),
        None => Err(Error::NotFound.status()),
    }
}

/// The builds recorded for the package `pkg` of `repo`, or
/// `InternalServerError` where the store cannot be reached.
pub fn list_builds(db: &Madoguchi, repo: &str, pkg: &str) -> (r: Result<Vec<Build>, Status>)
    ensures
        match r {
            Ok(v) => db@.up && build_views(v@) == db@.builds.filter(build_of(repo@, pkg@)),
            Err(s) => !db@.up && s == Status::InternalServerError,
        },
{
    match db.builds_of(repo, pkg) {
        Ok(v) => Ok(v),
        Err(e) => Err(e.status()),
    }
}

} // verus!
