//! The fluent builder for route trees.
//!
//! Every builder operation consumes the value it is called on and returns a
//! new one, so a route tree can be written as one chained expression.  A
//! [`SubRoute`] carries either the tree under construction or the first
//! error met on the way; once an error occurs, every later operation passes
//! it through unchanged, so a conflict anywhere in a subtree aborts
//! construction of the whole tree with the original error intact.

use vstd::prelude::*;
use crate::RouteDescriptor;
use crate::RouteError;
use crate::RouteSegment;
use crate::copy_middleware;
use crate::descriptor_views;
use crate::method::Method;
use crate::path::Path;
use crate::path::join;
use crate::reverse_router::ReverseRouter;
use crate::reverse_router::map_of_pairs;

verus! {

/// A partial routing result, passed around in routing closures: the tree
/// under construction, or the first construction error.
pub struct SubRoute<H, M> {
    /// The segment under construction, or the error that ended construction.
    pub result: Result<RouteSegment<H, M>, RouteError>,
}

/// Start building a route tree.  Returns the builder for the root of the
/// route hierarchy, whose path is `/`.
pub fn root<H, M>() -> (r: SubRoute<H, M>)
    ensures
        r.result is Ok,
        (r.result->Ok_0).path@ =~= seq!['/'],
        (r.result->Ok_0).middleware@ == Seq::<M>::empty(),
        (r.result->Ok_0).name is None,
        (r.result->Ok_0).branches@ == Seq::<RouteSegment<H, M>>::empty(),
        (r.result->Ok_0).endpoints@ == Seq::<(Option<Method>, H)>::empty(),
{
    proof {
        reveal_strlit("/");
    }
    SubRoute {
        result: Ok(
            RouteSegment {
                path: Path::prefix("/"),
                middleware: Vec::new(),
                name: None,
                branches: Vec::new(),
                endpoints: Vec::new(),
            },
        ),
    }
}

/// The endpoint list `s` with `h` registered under `key`: the last
/// registration for a given key on a given node wins, keeping the position
/// of the first one; a new key is appended at the end.
pub open spec fn upsert_endpoint<H>(
    s: Seq<(Option<Method>, H)>,
    key: Option<Method>,
    h: H,
) -> Seq<(Option<Method>, H)>
    decreases s.len(),
{
    if s.len() == 0 {
        seq![(key, h)]
    } else if s[0].0 == key {
        seq![(key, h)] + s.drop_first()
    } else {
        seq![s[0]] + upsert_endpoint(s.drop_first(), key, h)
    }
}

proof fn lemma_upsert_at<H>(s: Seq<(Option<Method>, H)>, key: Option<Method>, h: H, i: int)
    requires
        0 <= i < s.len(),
        s[i].0 == key,
        forall|j: int| 0 <= j < i ==> s[j].0 != key,
    ensures
        upsert_endpoint(s, key, h) == s.update(i, (key, h)),
    decreases s.len(),
{
    if i == 0 {
        assert(seq![(key, h)] + s.drop_first() =~= s.update(0, (key, h)));
    } else {
        assert(s.drop_first()[i - 1].0 == key);
        lemma_upsert_at(s.drop_first(), key, h, i - 1);
        assert(seq![s[0]] + s.drop_first().update(i - 1, (key, h)) =~= s.update(i, (key, h)));
    }
}

proof fn lemma_upsert_absent<H>(s: Seq<(Option<Method>, H)>, key: Option<Method>, h: H)
    requires
        forall|j: int| 0 <= j < s.len() ==> s[j].0 != key,
    ensures
        upsert_endpoint(s, key, h) == s.push((key, h)),
    decreases s.len(),
{
    if s.len() == 0 {
        assert(seq![(key, h)] =~= s.push((key, h)));
    } else {
        lemma_upsert_absent(s.drop_first(), key, h);
        assert(seq![s[0]] + s.drop_first().push((key, h)) =~= s.push((key, h)));
    }
}

/// Whether two endpoint keys are the same method (or both the catch-all).
fn key_eq(a: Option<Method>, b: Option<Method>) -> (r: bool)
    ensures
        r == (a == b),
{
    match (a, b) {
        (None, None) => true,
        (Some(x), Some(y)) => x == y,
        _ => false,
    }
}

/// Register `h` under `key` in `eps`, replacing an earlier handler for the
/// same key in place.
fn set_endpoint<H>(eps: &mut Vec<(Option<Method>, H)>, key: Option<Method>, h: H)
    ensures
        final(eps)@ == upsert_endpoint(old(eps)@, key, h),
{
    let mut i: usize = 0;
    while i < eps.len()
        invariant
            i <= eps@.len(),
            eps@ == old(eps)@,
            forall|j: int| 0 <= j < i ==> eps@[j].0 != key,
        decreases eps@.len() - i,
    {
        let probe: Option<Method> = eps[i].0;
        if key_eq(probe, key) {
            let _ = eps.remove(i);
            eps.insert(i, (key, h));
            proof {
                lemma_upsert_at(old(eps)@, key, h, i as int);
                assert(eps@ =~= old(eps)@.update(i as int, (key, h)));
            }
            return ;
        }
        i = i + 1;
    }
    eps.push((key, h));
    proof {
        lemma_upsert_absent(old(eps)@, key, h);
    }
}

/// What the child node handed to an `at` closure looks like: the parent's
/// path extended by the segment, the parent's middleware chain unchanged, and
/// nothing else set.
pub open spec fn at_child<H, M>(
    parent: RouteSegment<H, M>,
    child: RouteSegment<H, M>,
    segment: Seq<char>,
) -> bool {
    &&& child.path@ == join(parent.path@, segment)
    &&& child.middleware@ == parent.middleware@
    &&& child.name is None
    &&& child.branches@ == Seq::<RouteSegment<H, M>>::empty()
    &&& child.endpoints@ == Seq::<(Option<Method>, H)>::empty()
}

/// What the child node handed to a `with` closure looks like: the parent's
/// path unchanged, the parent's middleware chain extended by the new
/// middleware, and nothing else set.
pub open spec fn with_child<H, M>(
    parent: RouteSegment<H, M>,
    child: RouteSegment<H, M>,
    mw: M,
) -> bool {
    &&& child.path@ == parent.path@
    &&& child.middleware@ == parent.middleware@.push(mw)
    &&& child.name is None
    &&& child.branches@ == Seq::<RouteSegment<H, M>>::empty()
    &&& child.endpoints@ == Seq::<(Option<Method>, H)>::empty()
}

/// The parts of a segment that a builder operation on its branches leaves
/// untouched.
pub open spec fn same_but_branches<H, M>(a: RouteSegment<H, M>, b: RouteSegment<H, M>) -> bool {
    &&& b.path == a.path
    &&& b.middleware == a.middleware
    &&& b.name == a.name
    &&& b.endpoints == a.endpoints
}

impl<H, M: Copy> SubRoute<H, M> {
    /// Add a path segment carrying a set of sub-routes.  The child handed to
    /// `routes` extends this node's path by `path` and inherits its
    /// middleware chain; the populated child is appended to this node's
    /// branches.  An error, here or inside `routes`, is passed through.
    pub fn at<F: FnOnce(SubRoute<H, M>) -> SubRoute<H, M>>(
        self,
        path: &str,
        routes: F,
    ) -> (r: SubRoute<H, M>)
        requires
            forall|sub: SubRoute<H, M>|
                (self.result is Ok && sub.result is Ok && at_child(
                    self.result->Ok_0,
                    sub.result->Ok_0,
                    path@,
                )) ==> #[trigger] call_requires(routes, (sub,)),
        ensures
            self.result is Err ==> r.result == self.result,
            self.result is Ok ==> exists|sub: SubRoute<H, M>, out: SubRoute<H, M>|
                {
                    &&& sub.result is Ok
                    &&& at_child(self.result->Ok_0, sub.result->Ok_0, path@)
                    &&& #[trigger] call_ensures(routes, (sub,), out)
                    &&& match out.result {
                        Err(e) => r.result == Err::<RouteSegment<H, M>, RouteError>(e),
                        Ok(child) => {
                            &&& r.result is Ok
                            &&& same_but_branches(self.result->Ok_0, r.result->Ok_0)
                            &&& (r.result->Ok_0).branches@ == (self.result->Ok_0).branches@.push(
                                child,
                            )
                        },
                    }
                },
    {
        match self.result {
            Err(e) => SubRoute { result: Err(e) },
            Ok(segment) => {
                let child = RouteSegment {
                    path: segment.path.clone().append(path),
                    middleware: copy_middleware(&segment.middleware),
                    name: None,
                    branches: Vec::new(),
                    endpoints: Vec::new(),
                };
                let sub = SubRoute { result: Ok(child) };
                let out = routes(sub);
                match out.result {
                    Err(e) => SubRoute { result: Err(e) },
                    Ok(populated) => {
                        let mut segment = segment;
                        segment.branches.push(populated);
                        SubRoute { result: Ok(segment) }
                    },
                }
            },
        }
    }

    /// Add a middleware scope carrying a set of sub-routes.  The child handed
    /// to `routes` keeps this node's path and gets its middleware chain
    /// extended by `middleware`: everything built inside `routes` inherits
    /// it, nothing outside does.  An error, here or inside `routes`, is
    /// passed through.
    pub fn with<F: FnOnce(SubRoute<H, M>) -> SubRoute<H, M>>(
        self,
        middleware: M,
        routes: F,
    ) -> (r: SubRoute<H, M>)
        requires
            forall|sub: SubRoute<H, M>|
                (self.result is Ok && sub.result is Ok && with_child(
                    self.result->Ok_0,
                    sub.result->Ok_0,
                    middleware,
                )) ==> #[trigger] call_requires(routes, (sub,)),
        ensures
            self.result is Err ==> r.result == self.result,
            self.result is Ok ==> exists|sub: SubRoute<H, M>, out: SubRoute<H, M>|
                {
                    &&& sub.result is Ok
                    &&& with_child(self.result->Ok_0, sub.result->Ok_0, middleware)
                    &&& #[trigger] call_ensures(routes, (sub,), out)
                    &&& match out.result {
                        Err(e) => r.result == Err::<RouteSegment<H, M>, RouteError>(e),
                        Ok(child) => {
                            &&& r.result is Ok
                            &&& same_but_branches(self.result->Ok_0, r.result->Ok_0)
                            &&& (r.result->Ok_0).branches@ == (self.result->Ok_0).branches@.push(
                                child,
                            )
                        },
                    }
                },
    {
        match self.result {
            Err(e) => SubRoute { result: Err(e) },
            Ok(segment) => {
                let mut ware = copy_middleware(&segment.middleware);
                ware.push(middleware);
                let child = RouteSegment {
                    path: segment.path.clone(),
                    middleware: ware,
                    name: None,
                    branches: Vec::new(),
                    endpoints: Vec::new(),
                };
                let sub = SubRoute { result: Ok(child) };
                let out = routes(sub);
                match out.result {
                    Err(e) => SubRoute { result: Err(e) },
                    Ok(populated) => {
                        let mut segment = segment;
                        segment.branches.push(populated);
                        SubRoute { result: Ok(segment) }
                    },
                }
            },
        }
    }

    /// Register an endpoint for an HTTP method on this node.  A handler
    /// already registered here for the same method is replaced: the last
    /// registration wins.  An earlier error is passed through.
    pub fn method(self, method: Method, handler: H) -> (r: SubRoute<H, M>)
        ensures
            self.result is Err ==> r.result == self.result,
            self.result is Ok ==> {
                &&& r.result is Ok
                &&& same_but_endpoints(self.result->Ok_0, r.result->Ok_0)
                &&& (r.result->Ok_0).endpoints@ == upsert_endpoint(
                    (self.result->Ok_0).endpoints@,
                    Some(method),
                    handler,
                )
            },
    {
        match self.result {
            Err(e) => SubRoute { result: Err(e) },
            Ok(segment) => {
                let mut segment = segment;
                set_endpoint(&mut segment.endpoints, Some(method), handler);
                SubRoute { result: Ok(segment) }
            },
        }
    }

    /// Register a catch-all endpoint on this node: it answers any method at
    /// this path.  A catch-all already registered here is replaced.  An
    /// earlier error is passed through.
    pub fn all(self, handler: H) -> (r: SubRoute<H, M>)
        ensures
            self.result is Err ==> r.result == self.result,
            self.result is Ok ==> {
                &&& r.result is Ok
                &&& same_but_endpoints(self.result->Ok_0, r.result->Ok_0)
                &&& (r.result->Ok_0).endpoints@ == upsert_endpoint(
                    (self.result->Ok_0).endpoints@,
                    None,
                    handler,
                )
            },
    {
        match self.result {
            Err(e) => SubRoute { result: Err(e) },
            Ok(segment) => {
                let mut segment = segment;
                set_endpoint(&mut segment.endpoints, None, handler);
                SubRoute { result: Ok(segment) }
            },
        }
    }

    /// Name this node.  Setting a name on a node that already has one is a
    /// conflict: it yields [`RouteError::DuplicateName`] carrying the name
    /// the node already had, and no valid tree is produced.  An earlier
    /// error is passed through.
    pub fn name(self, name: &str) -> (r: SubRoute<H, M>)
        ensures
            self.result is Err ==> r.result == self.result,
            self.result is Ok && (self.result->Ok_0).name is Some ==> r.result
                == Err::<RouteSegment<H, M>, RouteError>(
                RouteError::DuplicateName((self.result->Ok_0).name->0),
            ),
            self.result is Ok && (self.result->Ok_0).name is None ==> {
                &&& r.result is Ok
                &&& same_but_name(self.result->Ok_0, r.result->Ok_0)
                &&& (r.result->Ok_0).name is Some
                &&& ((r.result->Ok_0).name->0)@ == name@
            },
    {
        match self.result {
            Err(e) => SubRoute { result: Err(e) },
            Ok(segment) => {
                match segment.name {
                    Some(existing) => SubRoute { result: Err(RouteError::DuplicateName(existing)) },
                    None => {
                        let mut segment = segment;
                        segment.name = Some(name.to_owned());
                        SubRoute { result: Ok(segment) }
                    },
                }
            },
        }
    }

    /// Register an HTTP GET endpoint on this node: a shortcut for `method`.
    pub fn get(self, handler: H) -> (r: SubRoute<H, M>)
        ensures
            self.result is Err ==> r.result == self.result,
            self.result is Ok ==> {
                &&& r.result is Ok
                &&& same_but_endpoints(self.result->Ok_0, r.result->Ok_0)
                &&& (r.result->Ok_0).endpoints@ == upsert_endpoint(
                    (self.result->Ok_0).endpoints@,
                    Some(Method::Get),
                    handler,
                )
            },
    {
        self.method(Method::Get, handler)
    }

    /// Register an HTTP HEAD endpoint on this node: a shortcut for `method`.
    pub fn head(self, handler: H) -> (r: SubRoute<H, M>)
        ensures
            self.result is Err ==> r.result == self.result,
            self.result is Ok ==> {
                &&& r.result is Ok
                &&& same_but_endpoints(self.result->Ok_0, r.result->Ok_0)
                &&& (r.result->Ok_0).endpoints@ == upsert_endpoint(
                    (self.result->Ok_0).endpoints@,
                    Some(Method::Head),
                    handler,
                )
            },
    {
        self.method(Method::Head, handler)
    }

    /// Register an HTTP PUT endpoint on this node: a shortcut for `method`.
    pub fn put(self, handler: H) -> (r: SubRoute<H, M>)
        ensures
            self.result is Err ==> r.result == self.result,
            self.result is Ok ==> {
                &&& r.result is Ok
                &&& same_but_endpoints(self.result->Ok_0, r.result->Ok_0)
                &&& (r.result->Ok_0).endpoints@ == upsert_endpoint(
                    (self.result->Ok_0).endpoints@,
                    Some(Method::Put),
                    handler,
                )
            },
    {
        self.method(Method::Put, handler)
    }

    /// Register an HTTP POST endpoint on this node: a shortcut for `method`.
    pub fn post(self, handler: H) -> (r: SubRoute<H, M>)
        ensures
            self.result is Err ==> r.result == self.result,
            self.result is Ok ==> {
                &&& r.result is Ok
                &&& same_but_endpoints(self.result->Ok_0, r.result->Ok_0)
                &&& (r.result->Ok_0).endpoints@ == upsert_endpoint(
                    (self.result->Ok_0).endpoints@,
                    Some(Method::Post),
                    handler,
                )
            },
    {
        self.method(Method::Post, handler)
    }

    /// Register an HTTP DELETE endpoint on this node: a shortcut for
    /// `method`.
    pub fn delete(self, handler: H) -> (r: SubRoute<H, M>)
        ensures
            self.result is Err ==> r.result == self.result,
            self.result is Ok ==> {
                &&& r.result is Ok
                &&& same_but_endpoints(self.result->Ok_0, r.result->Ok_0)
                &&& (r.result->Ok_0).endpoints@ == upsert_endpoint(
                    (self.result->Ok_0).endpoints@,
                    Some(Method::Delete),
                    handler,
                )
            },
    {
        self.method(Method::Delete, handler)
    }

    /// Register an HTTP OPTIONS endpoint on this node: a shortcut for
    /// `method`.
    pub fn options(self, handler: H) -> (r: SubRoute<H, M>)
        ensures
            self.result is Err ==> r.result == self.result,
            self.result is Ok ==> {
                &&& r.result is Ok
                &&& same_but_endpoints(self.result->Ok_0, r.result->Ok_0)
                &&& (r.result->Ok_0).endpoints@ == upsert_endpoint(
                    (self.result->Ok_0).endpoints@,
                    Some(Method::Options),
                    handler,
                )
            },
    {
        self.method(Method::Options, handler)
    }

    /// Register an HTTP CONNECT endpoint on this node: a shortcut for
    /// `method`.
    pub fn connect(self, handler: H) -> (r: SubRoute<H, M>)
        ensures
            self.result is Err ==> r.result == self.result,
            self.result is Ok ==> {
                &&& r.result is Ok
                &&& same_but_endpoints(self.result->Ok_0, r.result->Ok_0)
                &&& (r.result->Ok_0).endpoints@ == upsert_endpoint(
                    (self.result->Ok_0).endpoints@,
                    Some(Method::Connect),
                    handler,
                )
            },
    {
        self.method(Method::Connect, handler)
    }

    /// Register an HTTP PATCH endpoint on this node: a shortcut for
    /// `method`.
    pub fn patch(self, handler: H) -> (r: SubRoute<H, M>)
        ensures
            self.result is Err ==> r.result == self.result,
            self.result is Ok ==> {
                &&& r.result is Ok
                &&& same_but_endpoints(self.result->Ok_0, r.result->Ok_0)
                &&& (r.result->Ok_0).endpoints@ == upsert_endpoint(
                    (self.result->Ok_0).endpoints@,
                    Some(Method::Patch),
                    handler,
                )
            },
    {
        self.method(Method::Patch, handler)
    }

    /// Register an HTTP TRACE endpoint on this node: a shortcut for
    /// `method`.
    pub fn trace(self, handler: H) -> (r: SubRoute<H, M>)
        ensures
            self.result is Err ==> r.result == self.result,
            self.result is Ok ==> {
                &&& r.result is Ok
                &&& same_but_endpoints(self.result->Ok_0, r.result->Ok_0)
                &&& (r.result->Ok_0).endpoints@ == upsert_endpoint(
                    (self.result->Ok_0).endpoints@,
                    Some(Method::Trace),
                    handler,
                )
            },
    {
        self.method(Method::Trace, handler)
    }

    /// Flatten the finished tree into descriptors, or report the first error
    /// met while building it.
    pub fn build(self) -> (r: Result<Vec<RouteDescriptor<H, M>>, RouteError>)
        ensures
            self.result is Err ==> r is Err && r->Err_0 == self.result->Err_0,
            self.result is Ok ==> r is Ok && descriptor_views((r->Ok_0)@) == (
            self.result->Ok_0).flatten_model() && (r->Ok_0)@.len() == (
            self.result->Ok_0).endpoint_total(),
    {
        match self.result {
            Err(e) => Err(e),
            Ok(segment) => Ok(segment.build()),
        }
    }

    /// Build the reverse router of the finished tree, or report the first
    /// error met while building the tree.
    pub fn reverse_router(&self) -> (r: Result<ReverseRouter, RouteError>)
        ensures
            self.result is Err ==> r is Err && r->Err_0 == self.result->Err_0,
            self.result is Ok ==> r is Ok && (r->Ok_0)@ == map_of_pairs(
                (self.result->Ok_0).names_model(),
            ),
    {
        match &self.result {
            Err(e) => Err(e.clone()),
            Ok(segment) => Ok(segment.reverse_router()),
        }
    }

    /// Surrender the finished tree, or the first error met while building
    /// it.
    pub fn finish(self) -> (r: Result<RouteSegment<H, M>, RouteError>)
        ensures
            r == self.result,
    {
        self.result
    }
}

/// The parts of a segment that registering an endpoint leaves untouched.
pub open spec fn same_but_endpoints<H, M>(a: RouteSegment<H, M>, b: RouteSegment<H, M>) -> bool {
    &&& b.path == a.path
    &&& b.middleware == a.middleware
    &&& b.name == a.name
    &&& b.branches == a.branches
}

/// The parts of a segment that naming it leaves untouched.
pub open spec fn same_but_name<H, M>(a: RouteSegment<H, M>, b: RouteSegment<H, M>) -> bool {
    &&& b.path == a.path
    &&& b.middleware == a.middleware
    &&& b.endpoints == a.endpoints
    &&& b.branches == a.branches
}

} // verus!
