//! Model of the underlying HTTP router.
//!
//! The routing and dispatch engine itself is an external collaborator: the
//! shell only creates an empty router and hands it to the registered
//! extensions. Its routing table is modelled as a ghost map from a route key
//! (HTTP method and path) to an abstract handler identifier, so that
//! contracts can speak about which routes a router holds and which handler
//! answers on each of them.

use vstd::prelude::*;

verus! {

/// A route key: the HTTP method and the path of a route, as character
/// sequences.
pub type RouteKey = (Seq<char>, Seq<char>);

/// A routing table: each registered route key is mapped to an abstract
/// identifier standing for the handler that answers on it. A key absent from
/// the map yields the router's not-found response.
pub type RouteTable = Map<RouteKey, nat>;

/// Declares axum's router type, so that routers can stand in signatures and
/// fields. A router value is opaque here: everything the contracts say about
/// one goes through `router_routes`.
#[verifier::external_type_specification]
#[verifier::external_body]
#[verifier::reject_recursive_types(S)]
pub struct ExRouter<S>(axum::Router<S>);

/// The routing table a router holds.
pub uninterp spec fn router_routes(r: axum::Router) -> RouteTable;

/// Relies on axum::Router::new: a fresh router has no routes registered and
/// answers every request with its not-found fallback.
#[verifier::external_body]
pub(crate) fn new_router() -> (r: axum::Router)
    ensures
        router_routes(r) == RouteTable::empty(),
{
    axum::Router::new()
}

} // verus!
