//! The router trait connects a finished route tree to whatever component
//! actually dispatches requests.

use vstd::prelude::*;
use crate::RouteSegment;
use crate::method::Method;

verus! {

/// A router is any component that routes can be registered on, such as an
/// HTTP server.  Implementors supply `register_endpoint`; `register` walks a
/// finished route tree and hands every flattened descriptor to it.
pub trait Router<H, M: Copy>: Sized {
    /// Register a single endpoint.  What registration means is the
    /// implementor's affair; the caller hands in a composed path, the method
    /// (or `None` for a catch-all), the full middleware chain in
    /// outer-to-inner order, and the handler.
    fn register_endpoint(
        &mut self,
        path: &str,
        method: Option<Method>,
        middleware: &Vec<M>,
        handler: H,
    );

    /// Register all routes of a finished route tree: one call of
    /// `register_endpoint` per flattened descriptor, in flattening order.
    fn register(&mut self, routes: RouteSegment<H, M>) {
        let mut descriptors = routes.build();
        while descriptors.len() > 0
            decreases descriptors@.len(),
        {
            let d = descriptors.remove(0);
            let path_string = d.path.to_string();
            self.register_endpoint(path_string.as_str(), d.method, &d.middleware, d.handler);
        }
    }
}

} // verus!
