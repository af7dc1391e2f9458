//! The endpoints of the service, as functions on the store.
use vstd::prelude::*;

pub mod api;
pub mod auth;
pub mod ci;
pub mod repology;
pub mod repopkgs;
pub mod v4;

verus! {

/// The request method of a route.
#[derive(Clone, Copy, Debug, PartialEq, Eq, Structural)]
pub enum Method {
    Get,
    Put,
    Delete,
}

/// One entry of a routing table: which requests an endpoint answers.
#[derive(Debug, PartialEq, Eq)]
pub struct Route {
    pub method: Method,
    /// The path below the mount point; `<x>` stands for one segment, and
    /// `?<x>` for a query parameter.
    pub uri: String,
    /// The name of the endpoint.
    pub name: String,
}

/// What a [`Route`] holds.
pub ghost struct RouteView {
    pub method: Method,
    pub uri: Seq<char>,
    pub name: Seq<char>,
}

impl View for Route {
    type V = RouteView;

    open spec fn view(&self) -> RouteView {
        RouteView { method: self.method, uri: self.uri@, name: self.name@ }
    }
}

/// The views of the routes in `v`, in order.
pub open spec fn route_views(v: Seq<Route>) -> Seq<RouteView> {
    v.map_values(|r: Route| r@)
}

/// The route of `method` and `uri` to the endpoint `name`.
pub fn route(method: Method, uri: &str, name: &str) -> (r: Route)
    ensures
        r@ == (RouteView { method, uri: uri@, name: name@ }),
{
    Route { method, uri: uri.to_owned(), name: name.to_owned() }
}

} // verus!
