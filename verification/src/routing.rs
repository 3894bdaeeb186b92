//! The starting points of a route: one function for each HTTP method.
use vstd::prelude::*;

use crate::api::{HTTPMethod, Method, MethodView, Route, RouteView};
use crate::api_router::{ApiMethodRouter, RouteComponentType};

verus! {

/// The route on which one method answers with a handler of the given slots.
pub open spec fn single_method(http_method: HTTPMethod, content: Seq<RouteComponentType>) -> RouteView {
    RouteView { methods: seq![(http_method, MethodView { content, name: None })] }
}

/// Starts a route with one method.
pub fn create_method_router(content: Vec<RouteComponentType>, http_method: HTTPMethod) -> (router:
    ApiMethodRouter)
    ensures
        router.route@ == single_method(http_method, content@),
        router.header@.len() == 0,
        router.rename_map@.len() == 0,
        router.wf(),
{
    let method = Method { content, name: None };
    let mut route = Route::new();
    route.insert(http_method, method);
    assert(route@.methods =~= single_method(http_method, content@).methods);
    assert(route@.wf());
    ApiMethodRouter { route, rename_map: Vec::new(), header: Vec::new() }
}

/// Starts a route that answers GET.
pub fn get(content: Vec<RouteComponentType>) -> (router: ApiMethodRouter)
    ensures
        router.route@ == single_method(HTTPMethod::GET, content@),
        router.header@.len() == 0,
        router.rename_map@.len() == 0,
        router.wf(),
{
    create_method_router(content, HTTPMethod::GET)
}

/// Starts a route that answers POST.
pub fn post(content: Vec<RouteComponentType>) -> (router: ApiMethodRouter)
    ensures
        router.route@ == single_method(HTTPMethod::POST, content@),
        router.header@.len() == 0,
        router.rename_map@.len() == 0,
        router.wf(),
{
    create_method_router(content, HTTPMethod::POST)
}

/// Starts a route that answers PUT.
pub fn put(content: Vec<RouteComponentType>) -> (router: ApiMethodRouter)
    ensures
        router.route@ == single_method(HTTPMethod::PUT, content@),
        router.header@.len() == 0,
        router.rename_map@.len() == 0,
        router.wf(),
{
    create_method_router(content, HTTPMethod::PUT)
}

/// Starts a route that answers DELETE.
pub fn delete(content: Vec<RouteComponentType>) -> (router: ApiMethodRouter)
    ensures
        router.route@ == single_method(HTTPMethod::DELETE, content@),
        router.header@.len() == 0,
        router.rename_map@.len() == 0,
        router.wf(),
{
    create_method_router(content, HTTPMethod::DELETE)
}

} // verus!
