//! The server shell: owns an empty router and the ordered registry of
//! extensions, and folds the extensions into the final router.

use vstd::prelude::*;

use crate::addr::{addr_rep, push_decimal};
use crate::extension::{apply_all, ExtensionTrait};
use crate::routing::{new_router, router_routes, RouteTable};

verus! {

/// The shell. It is constructed with a bind address, accepts extension
/// registrations, and is consumed by `build`, which applies every
/// registered extension exactly once, in registration order. Consuming the
/// shell is what makes it single-use: a built shell can neither register
/// further extensions nor build again, so no extension's routes can be
/// applied twice.
pub struct CoreX<E: ExtensionTrait> {
    router: axum::Router,
    extensions: Vec<E>,
    host: String,
    port: u16,
}

impl<E: ExtensionTrait> CoreX<E> {
    /// The ordered sequence of registered extensions.
    pub closed spec fn exts(&self) -> Seq<E> {
        self.extensions@
    }

    /// The host part of the bind address.
    pub closed spec fn bind_host(&self) -> Seq<char> {
        self.host@
    }

    /// The port part of the bind address.
    pub closed spec fn bind_port(&self) -> u16 {
        self.port
    }

    /// Well-formed: the owned router holds no extension-contributed routes
    /// yet. Construction establishes this and registration preserves it, so
    /// building folds the extensions over an empty routing table.
    pub closed spec fn wf(&self) -> bool {
        router_routes(self.router) == RouteTable::empty()
    }

    /// Creates a shell bound to `host` and `port`, with an empty router and
    /// no registered extensions. Performs no I/O and always succeeds.
    pub fn new(host: String, port: u16) -> (s: Self)
        ensures
            s.wf(),
            s.exts() == Seq::<E>::empty(),
            s.bind_host() == host@,
            s.bind_port() == port,
    {
        let s = CoreX { router: new_router(), extensions: Vec::new(), host, port };
        proof {
            assert(s.exts() =~= Seq::<E>::empty());
        }
        s
    }

    /// Appends `extension` to the registry. No validation is performed:
    /// registering the same extension twice, or two extensions with the
    /// same name, is permitted, and every registration will be applied.
    pub fn register_extension(&mut self, extension: E)
        ensures
            final(self).exts() == old(self).exts().push(extension),
            final(self).wf() == old(self).wf(),
            final(self).bind_host() == old(self).bind_host(),
            final(self).bind_port() == old(self).bind_port(),
    {
        self.extensions.push(extension);
    }

    /// The `host:port` address the server is to listen on.
    pub fn bind_address(&self) -> (r: String)
        ensures
            r@ == addr_rep(self.bind_host(), self.bind_port()),
    {
        let mut s = self.host.clone();
        s.append(":");
        push_decimal(&mut s, self.port);
        proof {
            reveal_strlit(":");
            assert(":"@ =~= seq![':']);
            assert(s@ =~= addr_rep(self.bind_host(), self.bind_port()));
        }
        s
    }

    /// Builds the final router: applies every registered extension to the
    /// owned router, in registration order, by a left fold, and returns the
    /// result. Consumes the shell.
    pub fn build(self) -> (r: axum::Router)
        ensures
            self.wf() ==> router_routes(r) == apply_all(self.exts(), RouteTable::empty()),
    {
        let CoreX { router, extensions, host: _, port: _ } = self;
        let ghost init = router_routes(router);
        let mut router = router;
        let mut i: usize = 0;
        proof {
            assert(extensions@.take(0) =~= Seq::<E>::empty());
        }
        while i < extensions.len()
            invariant
                i <= extensions.len(),
                router_routes(router) == apply_all(extensions@.take(i as int), init),
            decreases extensions.len() - i,
        {
            router = extensions[i].extend(router);
            proof {
                assert(extensions@.take(i as int + 1).drop_last() =~= extensions@.take(i as int));
                assert(extensions@.take(i as int + 1).last() == extensions@[i as int]);
            }
            i = i + 1;
        }
        proof {
            assert(extensions@.take(extensions@.len() as int) =~= extensions@);
        }
        router
    }
}

} // verus!
