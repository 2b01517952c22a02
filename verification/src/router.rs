//! Route groups that nest under path prefixes and flatten into endpoints.

use vstd::prelude::*;
use vstd::string::StringExecFns;
use crate::req::Method;
use crate::text::join2;

verus! {

/// One registered route: a method, a path pattern, the handler's number and
/// the numbers of the middleware that wrap it, outermost first.
#[derive(Debug)]
pub struct Endpoint {
    pub method: Method,
    pub path: String,
    pub handler: usize,
    pub middlewares: Vec<usize>,
}

/// An `Endpoint` with its pattern and middleware as sequences.
pub ghost struct EndpointView {
    pub method: Method,
    pub path: Seq<char>,
    pub handler: usize,
    pub middlewares: Seq<usize>,
}

impl View for Endpoint {
    type V = EndpointView;

    open spec fn view(&self) -> EndpointView {
        EndpointView {
            method: self.method,
            path: self.path@,
            handler: self.handler,
            middlewares: self.middlewares@,
        }
    }
}

/// The views of a list of endpoints.
pub open spec fn endpoints_view(endpoints: Seq<Endpoint>) -> Seq<EndpointView> {
    Seq::new(endpoints.len(), |i: int| endpoints[i]@)
}

/// A route of a group: it has no middleware of its own.
#[derive(Debug)]
pub struct GroupRoute {
    pub method: Method,
    pub path: String,
    pub handler: usize,
}

/// A group mounted under a prefix.
pub struct Mount {
    pub prefix: String,
    pub router: Router,
}

/// A group of routes with middleware of its own and groups nested in it.
pub struct Router {
    routes: Vec<GroupRoute>,
    middlewares: Vec<usize>,
    nested: Vec<Mount>,
}

/// What a group is.
pub ghost struct RouterView {
    pub routes: Seq<(Method, Seq<char>, usize)>,
    pub middlewares: Seq<usize>,
    pub nested: Seq<(Seq<char>, RouterView)>,
}

/// The group's own routes under `prefix`, each with the group's middleware.
pub open spec fn direct_routes(r: RouterView, prefix: Seq<char>) -> Seq<EndpointView> {
    Seq::new(
        r.routes.len(),
        |i: int|
            EndpointView {
                method: r.routes[i].0,
                path: prefix + r.routes[i].1,
                handler: r.routes[i].2,
                middlewares: r.middlewares,
            },
    )
}

/// The endpoints with `outer` put in front of each middleware list.
pub open spec fn with_outer(outer: Seq<usize>, inner: Seq<EndpointView>) -> Seq<EndpointView> {
    Seq::new(
        inner.len(),
        |i: int| EndpointView { middlewares: outer + inner[i].middlewares, ..inner[i] },
    )
}

/// The endpoints of a group mounted at `prefix`: its own routes first, then
/// those of each nested group in turn. A nested route's pattern is the
/// prefixes on the way to it followed by its own pattern, and its middleware
/// are those of the groups on the way, outermost first.
pub open spec fn flatten(r: RouterView, prefix: Seq<char>) -> Seq<EndpointView>
    decreases r, r.nested.len() + 1,
{
    direct_routes(r, prefix) + flatten_nested(r, prefix, r.nested.len())
}

/// The endpoints of the first `n` nested groups of `r`.
pub open spec fn flatten_nested(r: RouterView, prefix: Seq<char>, n: nat) -> Seq<EndpointView>
    decreases r, n,
{
    if n == 0 || n > r.nested.len() {
        Seq::empty()
    } else {
        flatten_nested(r, prefix, (n - 1) as nat) + with_outer(
            r.middlewares,
            flatten(r.nested[n - 1].1, prefix + r.nested[n - 1].0),
        )
    }
}

/// The endpoint `e` of a nested group as it stands in the group around it,
/// whose middleware are `outer`.
pub open spec fn wrapped(outer: Seq<usize>, e: EndpointView) -> EndpointView {
    EndpointView { middlewares: outer + e.middlewares, ..e }
}

/// A route of the group itself comes out under the prefix, with the group's
/// middleware and nothing else around it.
pub proof fn lemma_flatten_direct(r: RouterView, prefix: Seq<char>, i: int)
    requires
        0 <= i < r.routes.len(),
    ensures
        i < flatten(r, prefix).len(),
        flatten(r, prefix)[i] == (EndpointView {
            method: r.routes[i].0,
            path: prefix + r.routes[i].1,
            handler: r.routes[i].2,
            middlewares: r.middlewares,
        }),
{
}

proof fn lemma_nested_block(r: RouterView, prefix: Seq<char>, n: int, m: nat, j: int)
    requires
        0 <= n < m <= r.nested.len(),
        0 <= j < flatten(r.nested[n].1, prefix + r.nested[n].0).len(),
    ensures
        flatten_nested(r, prefix, m).contains(
            wrapped(r.middlewares, flatten(r.nested[n].1, prefix + r.nested[n].0)[j]),
        ),
    decreases m,
{
    let head = flatten_nested(r, prefix, (m - 1) as nat);
    let block = with_outer(
        r.middlewares,
        flatten(r.nested[m - 1].1, prefix + r.nested[m - 1].0),
    );
    let e = wrapped(r.middlewares, flatten(r.nested[n].1, prefix + r.nested[n].0)[j]);
    assert(flatten_nested(r, prefix, m) == head + block);
    if n == m - 1 {
        assert(block[j] == e);
        assert((head + block)[head.len() + j] == e);
    } else {
        lemma_nested_block(r, prefix, n, (m - 1) as nat, j);
        let at = choose|at: int| 0 <= at < head.len() && head[at] == e;
        assert((head + block)[at] == e);
    }
}

/// Flattening is recursive: an endpoint of a nested group comes out of the
/// group around it with that group's middleware in front of its own. Its
/// pattern was formed under the prefix of the outer group followed by the
/// prefix of the nested one.
pub proof fn lemma_flatten_nested(r: RouterView, prefix: Seq<char>, n: int, j: int)
    requires
        0 <= n < r.nested.len(),
        0 <= j < flatten(r.nested[n].1, prefix + r.nested[n].0).len(),
    ensures
        flatten(r, prefix).contains(
            wrapped(r.middlewares, flatten(r.nested[n].1, prefix + r.nested[n].0)[j]),
        ),
{
    lemma_nested_block(r, prefix, n, r.nested.len(), j);
    let e = wrapped(r.middlewares, flatten(r.nested[n].1, prefix + r.nested[n].0)[j]);
    let tail = flatten_nested(r, prefix, r.nested.len());
    let at = choose|at: int| 0 <= at < tail.len() && tail[at] == e;
    assert(flatten(r, prefix)[direct_routes(r, prefix).len() + at] == e);
}

proof fn lemma_nested_scope(r: RouterView, prefix: Seq<char>, m: nat, i: int)
    requires
        m <= r.nested.len(),
        0 <= i < flatten_nested(r, prefix, m).len(),
    ensures
        prefix.is_prefix_of(flatten_nested(r, prefix, m)[i].path),
        r.middlewares.is_prefix_of(flatten_nested(r, prefix, m)[i].middlewares),
    decreases r, m, 0nat,
{
    let head = flatten_nested(r, prefix, (m - 1) as nat);
    let inner = flatten(r.nested[m - 1].1, prefix + r.nested[m - 1].0);
    if i < head.len() {
        lemma_nested_scope(r, prefix, (m - 1) as nat, i);
    } else {
        let j = i - head.len();
        lemma_flatten_scope(r.nested[m - 1].1, prefix + r.nested[m - 1].0, j);
        assert(flatten_nested(r, prefix, m)[i] == wrapped(r.middlewares, inner[j]));
        assert(prefix.is_prefix_of(prefix + r.nested[m - 1].0));
    }
}

/// Whatever the nesting, every endpoint of a group mounted at `prefix` has a
/// pattern that begins with the prefix and a middleware list that begins
/// with the group's own middleware.
pub proof fn lemma_flatten_scope(r: RouterView, prefix: Seq<char>, i: int)
    requires
        0 <= i < flatten(r, prefix).len(),
    ensures
        prefix.is_prefix_of(flatten(r, prefix)[i].path),
        r.middlewares.is_prefix_of(flatten(r, prefix)[i].middlewares),
    decreases r, r.nested.len() + 1, 0nat,
{
    if i < r.routes.len() {
        assert(prefix.is_prefix_of(prefix + r.routes[i].1));
    } else {
        lemma_nested_scope(r, prefix, r.nested.len(), i - r.routes.len());
    }
}

fn copy_ids(ids: &Vec<usize>) -> (r: Vec<usize>)
    ensures
        r@ == ids@,
{
    let mut r: Vec<usize> = Vec::new();
    let mut i: usize = 0;
    while i < ids.len()
        invariant
            i <= ids@.len(),
            r@ == ids@.take(i as int),
        decreases ids@.len() - i,
    {
        r.push(ids[i]);
        proof {
            assert(ids@.take(i + 1) =~= ids@.take(i as int).push(ids@[i as int]));
        }
        i = i + 1;
    }
    proof {
        assert(ids@.take(i as int) =~= ids@);
    }
    r
}

/// The list `a` followed by the list `b`.
pub fn concat_ids(a: &Vec<usize>, b: &Vec<usize>) -> (r: Vec<usize>)
    ensures
        r@ == a@ + b@,
{
    let mut r = copy_ids(a);
    let mut i: usize = 0;
    while i < b.len()
        invariant
            i <= b@.len(),
            r@ == a@ + b@.take(i as int),
        decreases b@.len() - i,
    {
        r.push(b[i]);
        proof {
            assert(b@.take(i + 1) =~= b@.take(i as int).push(b@[i as int]));
            assert(a@ + b@.take(i + 1) =~= (a@ + b@.take(i as int)).push(b@[i as int]));
        }
        i = i + 1;
    }
    proof {
        assert(b@.take(i as int) =~= b@);
    }
    r
}

/// What the first `n` of the mounted groups are.
pub closed spec fn mounts_view(mounts: Seq<Mount>, n: nat) -> Seq<(Seq<char>, RouterView)>
    decreases mounts, n,
{
    if n == 0 || n > mounts.len() {
        Seq::empty()
    } else {
        mounts_view(mounts, (n - 1) as nat).push(
            (mounts[n - 1].prefix@, router_view(mounts[n - 1].router)),
        )
    }
}

/// What a group is.
pub closed spec fn router_view(r: Router) -> RouterView
    decreases r, 0nat,
{
    RouterView {
        routes: Seq::new(
            r.routes@.len(),
            |i: int| (r.routes@[i].method, r.routes@[i].path@, r.routes@[i].handler),
        ),
        middlewares: r.middlewares@,
        nested: mounts_view(r.nested@, r.nested@.len()),
    }
}

proof fn lemma_mounts_view(mounts: Seq<Mount>, n: nat)
    requires
        n <= mounts.len(),
    ensures
        mounts_view(mounts, n).len() == n,
        forall|i: int|
            0 <= i < n ==> #[trigger] mounts_view(mounts, n)[i] == (
                mounts[i].prefix@,
                router_view(mounts[i].router),
            ),
    decreases n,
{
    if n > 0 {
        lemma_mounts_view(mounts, (n - 1) as nat);
    }
}

impl View for Router {
    type V = RouterView;

    closed spec fn view(&self) -> RouterView {
        router_view(*self)
    }
}

impl Router {
    proof fn lemma_view(&self)
        ensures
            self@.routes.len() == self.routes@.len(),
            self@.middlewares == self.middlewares@,
            self@.nested.len() == self.nested@.len(),
            forall|i: int|
                0 <= i < self.routes@.len() ==> #[trigger] self@.routes[i] == (
                    self.routes@[i].method,
                    self.routes@[i].path@,
                    self.routes@[i].handler,
                ),
            forall|i: int|
                0 <= i < self.nested@.len() ==> #[trigger] self@.nested[i] == (
                    self.nested@[i].prefix@,
                    self.nested@[i].router@,
                ),
    {
        lemma_mounts_view(self.nested@, self.nested@.len());
    }

    /// An empty group.
    pub fn new() -> (r: Router)
        ensures
            r@ == (RouterView {
                routes: Seq::empty(),
                middlewares: Seq::empty(),
                nested: Seq::empty(),
            }),
    {
        let r = Router { routes: Vec::new(), middlewares: Vec::new(), nested: Vec::new() };
        proof {
            r.lemma_view();
        }
        assert(r@.routes =~= Seq::empty());
        assert(r@.nested =~= Seq::empty());
        r
    }

    fn add(self, method: Method, path: &str, handler: usize) -> (r: Router)
        ensures
            r@ == (RouterView { routes: self@.routes.push((method, path@, handler)), ..self@ }),
    {
        let mut r = self;
        r.routes.push(GroupRoute { method, path: String::from_str(path), handler });
        proof {
            r.lemma_view();
            self.lemma_view();
        }
        assert(r@.routes =~= self@.routes.push((method, path@, handler)));
        assert(r@.nested =~= self@.nested);
        r
    }

    /// Adds a GET route.
    pub fn get(self, path: &str, handler: usize) -> (r: Router)
        ensures
            r@ == (RouterView {
                routes: self@.routes.push((Method::Get, path@, handler)),
                ..self@
            }),
    {
        self.add(Method::Get, path, handler)
    }

    /// Adds a POST route.
    pub fn post(self, path: &str, handler: usize) -> (r: Router)
        ensures
            r@ == (RouterView {
                routes: self@.routes.push((Method::Post, path@, handler)),
                ..self@
            }),
    {
        self.add(Method::Post, path, handler)
    }

    /// Adds a PUT route.
    pub fn put(self, path: &str, handler: usize) -> (r: Router)
        ensures
            r@ == (RouterView {
                routes: self@.routes.push((Method::Put, path@, handler)),
                ..self@
            }),
    {
        self.add(Method::Put, path, handler)
    }

    /// Adds a DELETE route.
    pub fn delete(self, path: &str, handler: usize) -> (r: Router)
        ensures
            r@ == (RouterView {
                routes: self@.routes.push((Method::Delete, path@, handler)),
                ..self@
            }),
    {
        self.add(Method::Delete, path, handler)
    }

    /// Adds a PATCH route.
    pub fn patch(self, path: &str, handler: usize) -> (r: Router)
        ensures
            r@ == (RouterView {
                routes: self@.routes.push((Method::Patch, path@, handler)),
                ..self@
            }),
    {
        self.add(Method::Patch, path, handler)
    }

    /// Adds a middleware that wraps every route of the group and of the
    /// groups nested in it, inside the middleware added before.
    pub fn layer(self, middleware: usize) -> (r: Router)
        ensures
            r@ == (RouterView { middlewares: self@.middlewares.push(middleware), ..self@ }),
    {
        let mut r = self;
        r.middlewares.push(middleware);
        proof {
            r.lemma_view();
            self.lemma_view();
        }
        assert(r@.routes =~= self@.routes);
        assert(r@.nested =~= self@.nested);
        r
    }

    /// Nests another group under a path prefix.
    pub fn nest(self, prefix: &str, router: Router) -> (r: Router)
        ensures
            r@ == (RouterView { nested: self@.nested.push((prefix@, router@)), ..self@ }),
    {
        let mut r = self;
        r.nested.push(Mount { prefix: String::from_str(prefix), router });
        proof {
            r.lemma_view();
            self.lemma_view();
        }
        assert(r@.routes =~= self@.routes);
        assert(r@.nested =~= self@.nested.push((prefix@, router@)));
        r
    }

    /// The endpoints of the group when it is mounted at `prefix`.
    pub fn flatten(&self, prefix: &str) -> (out: Vec<Endpoint>)
        ensures
            endpoints_view(out@) == flatten(self@, prefix@),
        decreases self,
    {
        let mut out: Vec<Endpoint> = Vec::new();
        let mut i: usize = 0;
        proof {
            self.lemma_view();
            assert(endpoints_view(out@) =~= direct_routes(self@, prefix@).take(0));
        }
        while i < self.routes.len()
            invariant
                i <= self.routes@.len(),
                self@.routes.len() == self.routes@.len(),
                self@.middlewares == self.middlewares@,
                forall|j: int|
                    0 <= j < self.routes@.len() ==> #[trigger] self@.routes[j] == (
                        self.routes@[j].method,
                        self.routes@[j].path@,
                        self.routes@[j].handler,
                    ),
                endpoints_view(out@) == direct_routes(self@, prefix@).take(i as int),
            decreases self.routes@.len() - i,
        {
            let route = &self.routes[i];
            let endpoint = Endpoint {
                method: route.method,
                path: join2(prefix, route.path.as_str()),
                handler: route.handler,
                middlewares: copy_ids(&self.middlewares),
            };
            let ghost before = endpoints_view(out@);
            out.push(endpoint);
            proof {
                assert(endpoints_view(out@) =~= before.push(endpoint@));
                assert(direct_routes(self@, prefix@).take(i + 1) =~= direct_routes(
                    self@,
                    prefix@,
                ).take(i as int).push(endpoint@));
            }
            i = i + 1;
        }
        proof {
            assert(direct_routes(self@, prefix@).take(i as int) =~= direct_routes(self@, prefix@));
        }
        let mut n: usize = 0;
        proof {
            assert(endpoints_view(out@) =~= direct_routes(self@, prefix@) + flatten_nested(
                self@,
                prefix@,
                0,
            ));
        }
        while n < self.nested.len()
            invariant
                n <= self.nested@.len(),
                self@.nested.len() == self.nested@.len(),
                self@.middlewares == self.middlewares@,
                forall|j: int|
                    0 <= j < self.nested@.len() ==> #[trigger] self@.nested[j] == (
                        self.nested@[j].prefix@,
                        self.nested@[j].router@,
                    ),
                endpoints_view(out@) == direct_routes(self@, prefix@) + flatten_nested(
                    self@,
                    prefix@,
                    n as nat,
                ),
            decreases self.nested@.len() - n,
        {
            let mount = &self.nested[n];
            let full_prefix = join2(prefix, mount.prefix.as_str());
            let inner = mount.router.flatten(full_prefix.as_str());
            let ghost inner_view = endpoints_view(inner@);
            let ghost start = endpoints_view(out@);
            proof {
                assert(self@.nested[n as int] == (mount.prefix@, mount.router@));
            }
            let mut k: usize = 0;
            while k < inner.len()
                invariant
                    k <= inner@.len(),
                    inner_view == endpoints_view(inner@),
                    endpoints_view(out@) == start + with_outer(self@.middlewares, inner_view).take(
                        k as int,
                    ),
                    self@.middlewares == self.middlewares@,
                decreases inner@.len() - k,
            {
                let e = &inner[k];
                let endpoint = Endpoint {
                    method: e.method,
                    path: e.path.clone(),
                    handler: e.handler,
                    middlewares: concat_ids(&self.middlewares, &e.middlewares),
                };
                let ghost before = endpoints_view(out@);
                out.push(endpoint);
                proof {
                    let w = with_outer(self@.middlewares, inner_view);
                    assert(endpoint@ == w[k as int]);
                    assert(endpoints_view(out@) =~= before.push(endpoint@));
                    assert(w.take(k + 1) =~= w.take(k as int).push(w[k as int]));
                    assert(start + w.take(k + 1) =~= (start + w.take(k as int)).push(w[k as int]));
                }
                k = k + 1;
            }
            proof {
                let w = with_outer(self@.middlewares, inner_view);
                assert(w.take(k as int) =~= w);
                assert(direct_routes(self@, prefix@) + flatten_nested(self@, prefix@, n as nat)
                    + w =~= direct_routes(self@, prefix@) + flatten_nested(
                    self@,
                    prefix@,
                    (n + 1) as nat,
                ));
            }
            n = n + 1;
        }
        out
    }
}

impl Default for Router {
    fn default() -> (r: Router)
        ensures
            r@ == (RouterView {
                routes: Seq::empty(),
                middlewares: Seq::empty(),
                nested: Seq::empty(),
            }),
    {
        Router::new()
    }
}

} // verus!
