//! The endpoint that package trackers read: the discovery view of a
//! repository.
use crate::api::repopkgs::RemoteIndex;
use crate::api::{route, route_views, Method, Route, RouteView};
use crate::db::Madoguchi;
use crate::discovery::{discovered, entry_views, DiscoveryEntry};
use crate::error::{Error, Status};
use vstd::prelude::*;

verus! {

/// The routes of this module.
pub fn routes() -> (r: Vec<Route>)
    ensures
        route_views(r@) == seq![
            RouteView { method: Method::Get, uri: "/<repo>/packages"@, name: "pkg_info"@ },
        ],
{
    let mut r: Vec<Route> = Vec::new();
    r.push(route(Method::Get, "/<repo>/packages", "pkg_info"));
    assert(route_views(r@) =~= seq![
        RouteView { method: Method::Get, uri: "/<repo>/packages"@, name: "pkg_info"@ },
    ]);
    r
}

/// The discovery view of `repo`, given how reading the package index of its
/// host ended; or the status of what went wrong: that of the index's error
/// where the index could not be had, else `InternalServerError` where the
/// store cannot be reached and `NotFound` where the repository is not
/// registered.
pub fn pkg_info(db: &Madoguchi, repo: &str, feed: &Result<RemoteIndex, Error>) -> (r: Result<
    Vec<DiscoveryEntry>,
    Status,
>)
    ensures
        match *feed {
            Err(e) => r == Err::<Vec<DiscoveryEntry>, Status>(e.spec_status()),
            Ok(remote) => {
                &&& !db@.up ==> r == Err::<Vec<DiscoveryEntry>, Status>(
                    Status::InternalServerError,
                )
                &&& db@.up && !db@.has_repo(repo@) ==> r == Err::<Vec<DiscoveryEntry>, Status>(
                    Status::NotFound,
                )
                &&& db@.up && db@.has_repo(repo@) ==> r.is_ok() && exists|i: int|
                    #[trigger] db@.is_repo_at(i, repo@) && entry_views(r.unwrap()@) == discovered(
                        db@,
                        db@.repos[i],
                        remote@,
                    )
            },
        },
{
    match db.reconcile(repo, feed) {
        Ok(v) => Ok(v),
        Err(e) => Err(e.status()),
    }
}

} // verus!
