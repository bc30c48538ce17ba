//! A declarative builder for trees of URL routes.
//!
//! A caller describes a hierarchy of path segments, middleware scopes and
//! per-method endpoint handlers through a fluent API, then flattens that
//! hierarchy into a list of concrete route registrations to hand to an HTTP
//! server, or walks it to resolve route names back to composed paths.
//!
//! Handlers and middleware are opaque to this crate: it stores and threads
//! them through, but never inspects or invokes them.  The two type parameters
//! `H` (a handler value) and `M` (a middleware value) stand for whatever
//! shareable references the surrounding application uses.

use vstd::prelude::*;

pub mod method;
pub mod path;
pub mod reverse_router;
pub mod routebuilder;
pub mod router;
pub mod serve;

use crate::reverse_router::map_of_pairs;
use crate::reverse_router::pair_views;

pub use crate::method::Method;
pub use crate::path::Path;
pub use crate::reverse_router::Params;
pub use crate::reverse_router::ReverseRouter;
pub use crate::routebuilder::SubRoute;
pub use crate::routebuilder::root;
pub use crate::router::Router;

verus! {

/// Why building or querying a route tree can fail.
#[derive(Debug, PartialEq, Eq)]
pub enum RouteError {
    /// A name was set on a node that already had one; the payload is the name
    /// the node already carried.
    DuplicateName(String),
    /// A reverse lookup was made for a name that was never registered.
    NotFound,
}

impl Clone for RouteError {
    fn clone(&self) -> (r: Self)
        ensures
            r == *self,
    {
        match self {
            RouteError::DuplicateName(n) => RouteError::DuplicateName(n.clone()),
            RouteError::NotFound => RouteError::NotFound,
        }
    }
}

/// One node of the route tree: the path and middleware accumulated on the way
/// down from the root, an optional route name, the endpoints declared on this
/// node and the child branches.
pub struct RouteSegment<H, M> {
    /// The composed path from the root to this node.
    pub path: Path,
    /// The middleware chain accumulated from the root to this node, in
    /// outer-to-inner order.
    pub middleware: Vec<M>,
    /// The name of this node, if one was set.
    pub name: Option<String>,
    /// The child nodes, in the order they were added.
    pub branches: Vec<RouteSegment<H, M>>,
    /// The endpoints declared on this node: at most one handler per method
    /// and at most one catch-all (`None`), in first-declaration order.
    pub endpoints: Vec<(Option<Method>, H)>,
}

/// The mathematical model of one flattened route registration.
pub struct RouteModel<H, M> {
    /// The fully composed path.
    pub path: Seq<char>,
    /// The middleware chain from the root to the endpoint's node.
    pub middleware: Seq<M>,
    /// The method, or `None` for a catch-all.
    pub method: Option<Method>,
    /// The handler.
    pub handler: H,
}

/// One flattened route registration: a fully composed path, the method (or
/// `None` for a catch-all), the full middleware chain accumulated from the
/// root to the node, and the handler.
pub struct RouteDescriptor<H, M> {
    /// The fully composed path.
    pub path: Path,
    /// The middleware chain, in outer-to-inner order.
    pub middleware: Vec<M>,
    /// The method, or `None` for a catch-all.
    pub method: Option<Method>,
    /// The handler.
    pub handler: H,
}

impl<H, M> View for RouteDescriptor<H, M> {
    type V = RouteModel<H, M>;

    open spec fn view(&self) -> RouteModel<H, M> {
        RouteModel {
            path: self.path@,
            middleware: self.middleware@,
            method: self.method,
            handler: self.handler,
        }
    }
}

/// The models of a sequence of descriptors.
pub open spec fn descriptor_views<H, M>(ds: Seq<RouteDescriptor<H, M>>) -> Seq<RouteModel<H, M>> {
    ds.map_values(|d: RouteDescriptor<H, M>| d@)
}

impl<H, M> RouteSegment<H, M> {
    /// The models of the descriptors this node itself contributes: one per
    /// declared endpoint, in declaration order.
    pub open spec fn own_models(self) -> Seq<RouteModel<H, M>> {
        self.endpoints@.map_values(
            |e: (Option<Method>, H)|
                RouteModel {
                    path: self.path@,
                    middleware: self.middleware@,
                    method: e.0,
                    handler: e.1,
                },
        )
    }

    /// The models of all descriptors of the subtree rooted here: this node's
    /// own endpoints first, then each branch's flattened output, in branch
    /// order.
    pub open spec fn flatten_model(self) -> Seq<RouteModel<H, M>>
        decreases self,
    {
        self.own_models() + Self::flatten_branches_model(self.branches@)
    }

    /// The concatenated flattened models of a sequence of branches.
    pub open spec fn flatten_branches_model(bs: Seq<RouteSegment<H, M>>) -> Seq<RouteModel<H, M>>
        decreases bs,
    {
        if bs.len() == 0 {
            Seq::empty()
        } else {
            bs[0].flatten_model() + Self::flatten_branches_model(bs.drop_first())
        }
    }

    /// The total number of endpoints declared across the subtree rooted here.
    pub open spec fn endpoint_total(self) -> nat
        decreases self,
    {
        self.endpoints@.len() + Self::branches_endpoint_total(self.branches@)
    }

    /// The total number of endpoints declared across a sequence of branches.
    pub open spec fn branches_endpoint_total(bs: Seq<RouteSegment<H, M>>) -> nat
        decreases bs,
    {
        if bs.len() == 0 {
            0
        } else {
            bs[0].endpoint_total() + Self::branches_endpoint_total(bs.drop_first())
        }
    }

    /// The (name, composed path) pairs of the named nodes of this subtree, in
    /// the same depth-first, branch-order traversal as flattening.
    pub open spec fn names_model(self) -> Seq<(Seq<char>, Seq<char>)>
        decreases self,
    {
        (match self.name {
            Some(n) => seq![(n@, self.path@)],
            None => Seq::empty(),
        }) + Self::names_branches_model(self.branches@)
    }

    /// The concatenated name pairs of a sequence of branches.
    pub open spec fn names_branches_model(bs: Seq<RouteSegment<H, M>>) -> Seq<
        (Seq<char>, Seq<char>),
    >
        decreases bs,
    {
        if bs.len() == 0 {
            Seq::empty()
        } else {
            bs[0].names_model() + Self::names_branches_model(bs.drop_first())
        }
    }

    /// Whether `node` is a node of the tree rooted at `self`.
    pub open spec fn contains_node(self, node: RouteSegment<H, M>) -> bool
        decreases self,
    {
        node == self || Self::branches_contain_node(self.branches@, node)
    }

    /// Whether `node` is a node of one of the trees of `bs`.
    pub open spec fn branches_contain_node(bs: Seq<RouteSegment<H, M>>, node: RouteSegment<H, M>) -> bool
        decreases bs,
    {
        if bs.len() == 0 {
            false
        } else {
            bs[0].contains_node(node) || Self::branches_contain_node(bs.drop_first(), node)
        }
    }

    proof fn lemma_branches_contain_step(
        bs: Seq<RouteSegment<H, M>>,
        i: int,
        node: RouteSegment<H, M>,
    )
        requires
            0 <= i < bs.len(),
            bs[i].contains_node(node),
        ensures
            Self::branches_contain_node(bs, node),
        decreases bs,
    {
        if i == 0 {
        } else {
            assert(bs.drop_first()[i - 1] == bs[i]);
            Self::lemma_branches_contain_step(bs.drop_first(), i - 1, node);
        }
    }

    /// A node of a branch's subtree is a node of the whole tree.
    pub proof fn lemma_contains_node_step(self, i: int, node: RouteSegment<H, M>)
        requires
            0 <= i < self.branches@.len(),
            self.branches@[i].contains_node(node),
        ensures
            self.contains_node(node),
    {
        Self::lemma_branches_contain_step(self.branches@, i, node);
    }

    /// Every flattened descriptor carries exactly the composed path and the
    /// middleware chain of the node whose endpoint it registers.  Together
    /// with the builder's contracts — `with` hands its subtree a chain
    /// extended by exactly the new middleware, `at` hands its chain on
    /// unchanged — this pins a descriptor's chain to the middleware scopes
    /// enclosing its node, in nesting order.
    pub proof fn lemma_descriptor_matches_node(self, j: int)
        requires
            0 <= j < self.flatten_model().len(),
        ensures
            exists|node: RouteSegment<H, M>|
                {
                    &&& #[trigger] self.contains_node(node)
                    &&& node.path@ == self.flatten_model()[j].path
                    &&& node.middleware@ == self.flatten_model()[j].middleware
                    &&& exists|k: int|
                        0 <= k < node.endpoints@.len() && node.endpoints@[k] == (
                        self.flatten_model()[j].method,
                        self.flatten_model()[j].handler,
                        )
                },
        decreases self,
    {
        let d = self.flatten_model()[j];
        if j < self.own_models().len() {
            assert(self.contains_node(self));
            assert(self.own_models()[j] == d);
            assert(self.endpoints@[j] == (d.method, d.handler));
        } else {
            let j1 = j - self.own_models().len();
            Self::lemma_descriptor_from_branches(self.branches@, j1);
            let (i, j2) = choose|i: int, j2: int|
                0 <= i < self.branches@.len() && 0 <= j2 < self.branches@[i].flatten_model().len()
                    && #[trigger] Self::flatten_branches_model(self.branches@)[j1]
                    == self.branches@[i].flatten_model()[j2];
            self.branches@[i].lemma_descriptor_matches_node(j2);
            let node = choose|node: RouteSegment<H, M>|
                {
                    &&& #[trigger] self.branches@[i].contains_node(node)
                    &&& node.path@ == self.branches@[i].flatten_model()[j2].path
                    &&& node.middleware@ == self.branches@[i].flatten_model()[j2].middleware
                    &&& exists|k: int|
                        0 <= k < node.endpoints@.len() && node.endpoints@[k] == (
                        self.branches@[i].flatten_model()[j2].method,
                        self.branches@[i].flatten_model()[j2].handler,
                        )
                };
            self.lemma_contains_node_step(i, node);
        }
    }

    proof fn lemma_descriptor_from_branches(bs: Seq<RouteSegment<H, M>>, j: int)
        requires
            0 <= j < Self::flatten_branches_model(bs).len(),
        ensures
            exists|i: int, j2: int|
                0 <= i < bs.len() && 0 <= j2 < bs[i].flatten_model().len()
                    && #[trigger] Self::flatten_branches_model(bs)[j] == bs[i].flatten_model()[j2],
        decreases bs,
    {
        if j < bs[0].flatten_model().len() {
            assert(Self::flatten_branches_model(bs)[j] == bs[0].flatten_model()[j]);
        } else {
            let j1 = j - bs[0].flatten_model().len();
            Self::lemma_descriptor_from_branches(bs.drop_first(), j1);
            let (i, j2) = choose|i: int, j2: int|
                0 <= i < bs.drop_first().len() && 0 <= j2
                    < bs.drop_first()[i].flatten_model().len() && #[trigger] Self::flatten_branches_model(
                    bs.drop_first(),
                )[j1] == bs.drop_first()[i].flatten_model()[j2];
            assert(bs[i + 1] == bs.drop_first()[i]);
            assert(Self::flatten_branches_model(bs)[j] == bs[i + 1].flatten_model()[j2]);
        }
    }

    /// Every collected (name, path) pair carries exactly the name and the
    /// composed path of a named node of the tree: what the reverse router
    /// stores under a name is that node's composed path.
    pub proof fn lemma_name_pair_matches_node(self, j: int)
        requires
            0 <= j < self.names_model().len(),
        ensures
            exists|node: RouteSegment<H, M>|
                {
                    &&& #[trigger] self.contains_node(node)
                    &&& node.name is Some
                    &&& (node.name->0)@ == self.names_model()[j].0
                    &&& node.path@ == self.names_model()[j].1
                },
        decreases self,
    {
        let own: Seq<(Seq<char>, Seq<char>)> = match self.name {
            Some(n) => seq![(n@, self.path@)],
            None => Seq::empty(),
        };
        if j < own.len() {
            assert(self.contains_node(self));
            assert(self.names_model()[j] == (self.name->0@, self.path@));
        } else {
            let j1 = j - own.len();
            Self::lemma_name_pair_from_branches(self.branches@, j1);
            let (i, j2) = choose|i: int, j2: int|
                0 <= i < self.branches@.len() && 0 <= j2 < self.branches@[i].names_model().len()
                    && #[trigger] Self::names_branches_model(self.branches@)[j1]
                    == self.branches@[i].names_model()[j2];
            self.branches@[i].lemma_name_pair_matches_node(j2);
            let node = choose|node: RouteSegment<H, M>|
                {
                    &&& #[trigger] self.branches@[i].contains_node(node)
                    &&& node.name is Some
                    &&& (node.name->0)@ == self.branches@[i].names_model()[j2].0
                    &&& node.path@ == self.branches@[i].names_model()[j2].1
                };
            self.lemma_contains_node_step(i, node);
        }
    }

    proof fn lemma_name_pair_from_branches(bs: Seq<RouteSegment<H, M>>, j: int)
        requires
            0 <= j < Self::names_branches_model(bs).len(),
        ensures
            exists|i: int, j2: int|
                0 <= i < bs.len() && 0 <= j2 < bs[i].names_model().len()
                    && #[trigger] Self::names_branches_model(bs)[j] == bs[i].names_model()[j2],
        decreases bs,
    {
        if j < bs[0].names_model().len() {
            assert(Self::names_branches_model(bs)[j] == bs[0].names_model()[j]);
        } else {
            let j1 = j - bs[0].names_model().len();
            Self::lemma_name_pair_from_branches(bs.drop_first(), j1);
            let (i, j2) = choose|i: int, j2: int|
                0 <= i < bs.drop_first().len() && 0 <= j2 < bs.drop_first()[i].names_model().len()
                    && #[trigger] Self::names_branches_model(bs.drop_first())[j1]
                    == bs.drop_first()[i].names_model()[j2];
            assert(bs[i + 1] == bs.drop_first()[i]);
            assert(Self::names_branches_model(bs)[j] == bs[i + 1].names_model()[j2]);
        }
    }

    /// Flattening emits exactly one descriptor per declared endpoint: for a
    /// tree with `N` endpoints in total, the flattened output has length `N`.
    pub proof fn lemma_flatten_count(self)
        ensures
            self.flatten_model().len() == self.endpoint_total(),
        decreases self,
    {
        Self::lemma_flatten_branches_count(self.branches@);
    }

    /// The branch-sequence form of [`Self::lemma_flatten_count`].
    pub proof fn lemma_flatten_branches_count(bs: Seq<RouteSegment<H, M>>)
        ensures
            Self::flatten_branches_model(bs).len() == Self::branches_endpoint_total(bs),
        decreases bs,
    {
        if bs.len() == 0 {
        } else {
            bs[0].lemma_flatten_count();
            Self::lemma_flatten_branches_count(bs.drop_first());
        }
    }

    proof fn lemma_flatten_branches_snoc(bs: Seq<RouteSegment<H, M>>, b: RouteSegment<H, M>)
        ensures
            Self::flatten_branches_model(bs.push(b)) == Self::flatten_branches_model(bs)
                + b.flatten_model(),
        decreases bs,
    {
        if bs.len() == 0 {
            let e = Seq::<RouteSegment<H, M>>::empty();
            assert(bs.push(b).drop_first() =~= e);
            assert(bs.push(b)[0] == b);
            assert(Self::flatten_branches_model(e) == Seq::<RouteModel<H, M>>::empty());
            assert(bs =~= e);
            assert(Self::flatten_branches_model(bs.push(b)) =~= b.flatten_model());
            assert(Self::flatten_branches_model(bs) + b.flatten_model() =~= b.flatten_model());
        } else {
            assert(bs.push(b).drop_first() =~= bs.drop_first().push(b));
            assert(bs.push(b)[0] == bs[0]);
            Self::lemma_flatten_branches_snoc(bs.drop_first(), b);
            assert(Self::flatten_branches_model(bs.push(b)) =~= Self::flatten_branches_model(bs)
                + b.flatten_model());
        }
    }

    proof fn lemma_names_branches_snoc(bs: Seq<RouteSegment<H, M>>, b: RouteSegment<H, M>)
        ensures
            Self::names_branches_model(bs.push(b)) == Self::names_branches_model(bs)
                + b.names_model(),
        decreases bs,
    {
        if bs.len() == 0 {
            let e = Seq::<RouteSegment<H, M>>::empty();
            assert(bs.push(b).drop_first() =~= e);
            assert(bs.push(b)[0] == b);
            assert(Self::names_branches_model(e) == Seq::<(Seq<char>, Seq<char>)>::empty());
            assert(bs =~= e);
            assert(Self::names_branches_model(bs.push(b)) =~= b.names_model());
            assert(Self::names_branches_model(bs) + b.names_model() =~= b.names_model());
        } else {
            assert(bs.push(b).drop_first() =~= bs.drop_first().push(b));
            assert(bs.push(b)[0] == bs[0]);
            Self::lemma_names_branches_snoc(bs.drop_first(), b);
            assert(Self::names_branches_model(bs.push(b)) =~= Self::names_branches_model(bs)
                + b.names_model());
        }
    }

    /// Collect the (name, composed path) pairs of every named node in this
    /// subtree, in the same traversal order as flattening.  Middleware plays
    /// no part in naming.
    pub fn names(&self) -> (r: Vec<(String, String)>)
        ensures
            pair_views(r@) == self.names_model(),
        decreases *self,
    {
        let mut r: Vec<(String, String)> = Vec::new();
        match &self.name {
            Some(n) => {
                r.push((n.clone(), self.path.to_string()));
            },
            None => {},
        }
        proof {
            assert(pair_views(r@) =~= match self.name {
                Some(n) => seq![(n@, self.path@)],
                None => Seq::<(Seq<char>, Seq<char>)>::empty(),
            });
            assert(self.branches@.subrange(0, 0) =~= Seq::<RouteSegment<H, M>>::empty());
        }
        let mut k: usize = 0;
        while k < self.branches.len()
            invariant
                k <= self.branches.len(),
                pair_views(r@) == (match self.name {
                    Some(n) => seq![(n@, self.path@)],
                    None => Seq::<(Seq<char>, Seq<char>)>::empty(),
                }) + Self::names_branches_model(self.branches@.subrange(0, k as int)),
            decreases self.branches.len() - k,
        {
            proof {
                assert(decreases_to!(self.branches => self.branches@));
                assert(decreases_to!(self.branches@ => self.branches@[k as int]));
            }
            let b: &RouteSegment<H, M> = &self.branches[k];
            let mut sub = b.names();
            let ghost r_before = r@;
            let ghost sub_view = sub@;
            r.append(&mut sub);
            proof {
                assert(pair_views(r@) =~= pair_views(r_before) + pair_views(sub_view));
                assert(self.branches@.subrange(0, k as int + 1) =~= self.branches@.subrange(
                    0,
                    k as int,
                ).push(self.branches@[k as int]));
                Self::lemma_names_branches_snoc(
                    self.branches@.subrange(0, k as int),
                    self.branches@[k as int],
                );
                assert(pair_views(r@) =~= (match self.name {
                    Some(n) => seq![(n@, self.path@)],
                    None => Seq::<(Seq<char>, Seq<char>)>::empty(),
                }) + Self::names_branches_model(self.branches@.subrange(0, k as int + 1)));
            }
            k = k + 1;
        }
        proof {
            assert(self.branches@.subrange(0, self.branches@.len() as int) =~= self.branches@);
        }
        r
    }

    /// Construct the reverse router for this tree: every named node's (name,
    /// composed path) pair is inserted in traversal order, a later node
    /// overwriting an earlier one that shares its name.
    pub fn reverse_router(&self) -> (r: ReverseRouter)
        ensures
            r@ == map_of_pairs(self.names_model()),
    {
        let pairs = self.names();
        let mut routes = ReverseRouter::new();
        proof {
            assert(pair_views(pairs@).subrange(0, 0) =~= Seq::<(Seq<char>, Seq<char>)>::empty());
        }
        let mut k: usize = 0;
        while k < pairs.len()
            invariant
                k <= pairs.len(),
                pair_views(pairs@) == self.names_model(),
                routes@ == map_of_pairs(pair_views(pairs@).subrange(0, k as int)),
            decreases pairs.len() - k,
        {
            routes.insert(pairs[k].0.as_str(), pairs[k].1.as_str());
            proof {
                let pv = pair_views(pairs@);
                assert(pv.subrange(0, k as int + 1).drop_last() =~= pv.subrange(0, k as int));
                assert(pv.subrange(0, k as int + 1).last() == pv[k as int]);
            }
            k = k + 1;
        }
        proof {
            assert(pair_views(pairs@).subrange(0, pairs@.len() as int) =~= pair_views(pairs@));
        }
        routes
    }
}

/// Copy a middleware chain.
pub(crate) fn copy_middleware<M: Copy>(v: &Vec<M>) -> (r: Vec<M>)
    ensures
        r@ == v@,
{
    let mut r: Vec<M> = Vec::new();
    proof {
        assert(v@.subrange(0, 0) =~= Seq::<M>::empty());
    }
    let mut i: usize = 0;
    while i < v.len()
        invariant
            i <= v.len(),
            r@ == v@.subrange(0, i as int),
        decreases v.len() - i,
    {
        r.push(v[i]);
        proof {
            assert(v@.subrange(0, i as int + 1) =~= v@.subrange(0, i as int).push(v@[i as int]));
        }
        i = i + 1;
    }
    proof {
        assert(v@.subrange(0, v@.len() as int) =~= v@);
    }
    r
}

impl<H, M: Copy> RouteSegment<H, M> {
    /// Flatten the subtree rooted here into one descriptor per declared
    /// endpoint: this node's own endpoints first, in declaration order, then
    /// each branch's flattened output, in branch order.  Consumes the tree.
    pub fn build(self) -> (r: Vec<RouteDescriptor<H, M>>)
        ensures
            descriptor_views(r@) == self.flatten_model(),
            r@.len() == self.endpoint_total(),
        decreases self,
    {
        proof {
            self.lemma_flatten_count();
        }
        let RouteSegment { path, middleware, name: _, branches, endpoints } = self;
        let mut out: Vec<RouteDescriptor<H, M>> = Vec::new();
        let mut eps = endpoints;
        let ghost eps0 = eps@;
        let ghost own0 = self.own_models();
        let ghost mut done: int = 0;
        proof {
            assert(own0.subrange(0, 0) =~= Seq::<RouteModel<H, M>>::empty());
            assert(descriptor_views(out@) =~= own0.subrange(0, 0));
        }
        while eps.len() > 0
            invariant
                0 <= done <= eps0.len(),
                eps@ == eps0.subrange(done, eps0.len() as int),
                own0 == self.own_models(),
                eps0 == self.endpoints@,
                path@ == self.path@,
                middleware@ == self.middleware@,
                descriptor_views(out@) == own0.subrange(0, done),
            decreases eps@.len(),
        {
            let (mth, h) = eps.remove(0);
            let desc = RouteDescriptor {
                path: path.clone(),
                middleware: copy_middleware(&middleware),
                method: mth,
                handler: h,
            };
            out.push(desc);
            proof {
                assert(eps@ =~= eps0.subrange(done + 1, eps0.len() as int));
                assert(own0.subrange(0, done + 1) =~= own0.subrange(0, done).push(own0[done]));
                assert(descriptor_views(out@) =~= own0.subrange(0, done + 1));
                done = done + 1;
            }
        }
        proof {
            assert(own0.subrange(0, done) =~= own0);
        }
        let mut bs = branches;
        let ghost bs0 = bs@;
        let ghost mut bdone: int = 0;
        proof {
            assert(bs0.subrange(0, 0) =~= Seq::<RouteSegment<H, M>>::empty());
        }
        while bs.len() > 0
            invariant
                0 <= bdone <= bs0.len(),
                bs@ == bs0.subrange(bdone, bs0.len() as int),
                bs0 == self.branches@,
                own0 == self.own_models(),
                descriptor_views(out@) == own0 + Self::flatten_branches_model(
                    bs0.subrange(0, bdone),
                ),
            decreases bs@.len(),
        {
            let b = bs.remove(0);
            proof {
                assert(b == bs0[bdone]);
                assert(decreases_to!(self.branches => self.branches@));
                assert(decreases_to!(self.branches@ => self.branches@[bdone]));
            }
            let mut sub = b.build();
            let ghost out_before = out@;
            let ghost sub_view = sub@;
            out.append(&mut sub);
            proof {
                assert(descriptor_views(out@) =~= descriptor_views(out_before) + descriptor_views(
                    sub_view,
                ));
                assert(bs@ =~= bs0.subrange(bdone + 1, bs0.len() as int));
                assert(bs0.subrange(0, bdone + 1) =~= bs0.subrange(0, bdone).push(bs0[bdone]));
                Self::lemma_flatten_branches_snoc(bs0.subrange(0, bdone), bs0[bdone]);
                assert(descriptor_views(out@) =~= own0 + Self::flatten_branches_model(
                    bs0.subrange(0, bdone + 1),
                ));
                bdone = bdone + 1;
            }
        }
        proof {
            assert(bs0.subrange(0, bdone) =~= bs0);
        }
        out
    }
}

} // verus!
