//! The extension capability: a named unit of behaviour that adds routes to a
//! router, together with the semantics of applying a sequence of extensions
//! in order.

use vstd::prelude::*;

use crate::routing::{router_routes, RouteKey, RouteTable};

verus! {

/// A named unit of behaviour that can extend a router with its own routes.
///
/// The shell never uses `name` for equality, deduplication or ordering: it
/// is an identifier for diagnostics only. `extend` must be purely additive:
/// it layers the extension's own routes on top of the router it is given,
/// overwriting an existing route only where the extension defines the same
/// method and path itself, and leaving every other route in place.
pub trait ExtensionTrait: Send + Sync {
    /// The routes this extension contributes: for each route key it defines,
    /// the handler that is to answer on it. An implementation that is
    /// verified against the `extend` contract overrides this; left at its
    /// default, the extension is modelled as contributing no routes.
    open spec fn routes(&self) -> RouteTable {
        RouteTable::empty()
    }

    /// A stable identifier for diagnostics and logging.
    fn name(&self) -> &'static str;

    /// Layers this extension's routes on top of `router`.
    fn extend(&self, router: axum::Router) -> (r: axum::Router)
        ensures
            router_routes(r) == router_routes(router).union_prefer_right(self.routes()),
    ;
}

/// The routing table that results from applying each extension of `exts`, in
/// order, to a router whose table is `init`: a left fold of `extend` over
/// the sequence.
pub open spec fn apply_all<E: ExtensionTrait>(exts: Seq<E>, init: RouteTable) -> RouteTable
    decreases exts.len(),
{
    if exts.len() == 0 {
        init
    } else {
        apply_all(exts.drop_last(), init).union_prefer_right(exts.last().routes())
    }
}

/// Applying no extensions leaves a router without any route: every route
/// key, whatever its method and path, is absent from the resulting table, so
/// every request is answered by the router's not-found fallback.
pub proof fn lemma_empty_build<E: ExtensionTrait>(exts: Seq<E>, init: RouteTable)
    requires
        exts.len() == 0,
        init == RouteTable::empty(),
    ensures
        forall|k: RouteKey| !apply_all(exts, init).dom().contains(k),
{
}

/// Registering two extensions in the order [a, b] preserves both: the built
/// table holds every route a defines and every route b defines and no other,
/// each route a alone defines is answered by a's handler, each route b
/// defines is answered by b's handler; where both define the same method and
/// path, the later registration wins.
pub proof fn lemma_order_preservation<E: ExtensionTrait>(a: E, b: E, init: RouteTable)
    requires
        init == RouteTable::empty(),
    ensures
        forall|k: RouteKey|
            apply_all(seq![a, b], init).dom().contains(k) <==> (a.routes().dom().contains(k)
                || b.routes().dom().contains(k)),
        forall|k: RouteKey|
            b.routes().dom().contains(k) ==> apply_all(seq![a, b], init)[k] == b.routes()[k],
        forall|k: RouteKey|
            a.routes().dom().contains(k) && !b.routes().dom().contains(k) ==> apply_all(
                seq![a, b],
                init,
            )[k] == a.routes()[k],
{
    let s = seq![a, b];
    assert(s.drop_last() =~= seq![a]);
    assert(s.last() == b);
    assert(seq![a].drop_last() =~= Seq::<E>::empty());
    assert(seq![a].last() == a);
    assert(apply_all(Seq::<E>::empty(), init) == init);
    assert(apply_all(seq![a], init) == init.union_prefer_right(a.routes()));
    assert(apply_all(s, init) == init.union_prefer_right(a.routes()).union_prefer_right(
        b.routes(),
    ));
}

/// Building is deterministic: two extension sequences of the same length
/// whose extensions contribute, position by position, the same routes yield
/// the same routing table over the same initial router.
pub proof fn lemma_build_deterministic<E: ExtensionTrait>(
    e1: Seq<E>,
    e2: Seq<E>,
    init: RouteTable,
)
    requires
        e1.len() == e2.len(),
        forall|i: int| 0 <= i < e1.len() ==> #[trigger] e1[i].routes() == e2[i].routes(),
    ensures
        apply_all(e1, init) == apply_all(e2, init),
    decreases e1.len(),
{
    if e1.len() > 0 {
        assert forall|i: int| 0 <= i < e1.drop_last().len() implies #[trigger] e1.drop_last()[i]
            .routes() == e2.drop_last()[i].routes() by {
            assert(e1.drop_last()[i] == e1[i]);
            assert(e2.drop_last()[i] == e2[i]);
        }
        lemma_build_deterministic(e1.drop_last(), e2.drop_last(), init);
        assert(e1.last().routes() == e2.last().routes());
    }
}

} // verus!
