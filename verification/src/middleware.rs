//! The middleware chain of an endpoint: what runs at which depth, the
//! single-use handle that leads one level further in, and what a run of the
//! chain looks like.

use vstd::prelude::*;
use crate::res::ResView;
use crate::router::Endpoint;
use crate::router::EndpointView;

verus! {

/// What runs at one depth of a chain.
#[derive(Clone, Copy, Debug, PartialEq, Eq, Structural)]
pub enum Stage {
    /// The middleware of that number.
    Middleware(usize),
    /// The handler of that number.
    Handler(usize),
}

/// A chain: middleware, outermost first, around a handler.
pub ghost struct ChainView {
    pub middlewares: Seq<usize>,
    pub handler: usize,
}

/// The chain of an endpoint: its middleware around its handler. The table
/// holds each endpoint with its whole middleware list, so the chain is
/// made once, when the table is built, and every request for the endpoint
/// runs through the same chain.
pub open spec fn chain_of(e: EndpointView) -> ChainView {
    ChainView { middlewares: e.middlewares, handler: e.handler }
}

/// What runs at `depth`: the middleware in their order, then the handler.
pub open spec fn stage_at(c: ChainView, depth: int) -> Stage {
    if 0 <= depth < c.middlewares.len() {
        Stage::Middleware(c.middlewares[depth])
    } else {
        Stage::Handler(c.handler)
    }
}

/// The handle with which a middleware continues into the rest of the
/// chain. It cannot be copied, and continuing uses it up.
pub struct Next {
    depth: usize,
}

impl Next {
    /// The depth that the handle leads to.
    pub closed spec fn depth(&self) -> int {
        self.depth as int
    }

    /// Continues into the chain of `endpoint`: says what runs next and,
    /// where that is a middleware, hands out the handle for the level
    /// after it.
    pub fn run(self, endpoint: &Endpoint) -> (r: (Stage, Option<Next>))
        ensures
            r.0 == stage_at(chain_of(endpoint@), self.depth()),
            match r.1 {
                Some(next) => r.0 is Middleware && next.depth() == self.depth() + 1,
                None => r.0 is Handler,
            },
    {
        stage(endpoint, self.depth)
    }
}

fn stage(endpoint: &Endpoint, depth: usize) -> (r: (Stage, Option<Next>))
    ensures
        r.0 == stage_at(chain_of(endpoint@), depth as int),
        match r.1 {
            Some(next) => r.0 is Middleware && next.depth() == depth + 1,
            None => r.0 is Handler,
        },
{
    if depth < endpoint.middlewares.len() {
        (Stage::Middleware(endpoint.middlewares[depth]), Some(Next { depth: depth + 1 }))
    } else {
        (Stage::Handler(endpoint.handler), None)
    }
}

/// Enters the chain of `endpoint`: says what runs first and, where that is
/// a middleware, hands out the handle for the level after it.
pub fn enter(endpoint: &Endpoint) -> (r: (Stage, Option<Next>))
    ensures
        r.0 == stage_at(chain_of(endpoint@), 0),
        match r.1 {
            Some(next) => r.0 is Middleware && next.depth() == 1,
            None => r.0 is Handler,
        },
{
    stage(endpoint, 0)
}

/// A middleware given as a function.
pub struct FnMiddleware<F>(pub F);

/// Something that happens while a chain runs.
pub ghost enum Event {
    /// A middleware starts: it sees the request.
    Before(usize),
    /// The handler runs.
    Handled(usize),
    /// A middleware resumes after the rest of the chain returned: it sees
    /// the response.
    After(usize),
}

/// How the middleware and the handler of a chain behave on one request.
pub ghost struct Conduct {
    /// Whether the middleware at each depth continues into the chain.
    pub continues: Seq<bool>,
    /// The response that the middleware at each depth gives where it does
    /// not continue.
    pub answers: Seq<ResView>,
    /// What the middleware at each depth makes of the response that comes
    /// back to it.
    pub afterwards: Seq<spec_fn(ResView) -> ResView>,
    /// The response of the handler.
    pub handled: ResView,
}

/// The conduct speaks of every middleware of the chain.
pub open spec fn fits(c: ChainView, k: Conduct) -> bool {
    k.continues.len() == c.middlewares.len() && k.answers.len() == c.middlewares.len()
        && k.afterwards.len() == c.middlewares.len()
}

/// What happens from `depth` inwards, where each handle is used as `Next::run`
/// says: a middleware starts; where it continues, what stands one level
/// further in runs inside it, and it resumes after; behind the last
/// middleware the handler runs.
pub open spec fn events(c: ChainView, k: Conduct, depth: int) -> Seq<Event>
    recommends
        fits(c, k),
    decreases c.middlewares.len() - depth,
{
    match stage_at(c, depth) {
        Stage::Handler(handler) => seq![Event::Handled(handler)],
        Stage::Middleware(middleware) => if k.continues[depth] {
            seq![Event::Before(middleware)] + events(c, k, depth + 1) + seq![
                Event::After(middleware),
            ]
        } else {
            seq![Event::Before(middleware)]
        },
    }
}

/// The response that comes out at `depth`.
pub open spec fn outcome(c: ChainView, k: Conduct, depth: int) -> ResView
    recommends
        fits(c, k),
    decreases c.middlewares.len() - depth,
{
    match stage_at(c, depth) {
        Stage::Handler(_) => k.handled,
        Stage::Middleware(_) => if k.continues[depth] {
            (k.afterwards[depth])(outcome(c, k, depth + 1))
        } else {
            k.answers[depth]
        },
    }
}

/// The starts of the middleware from depth `lo` up to, not including, `hi`.
pub open spec fn befores(c: ChainView, lo: int, hi: int) -> Seq<Event> {
    Seq::new((hi - lo) as nat, |i: int| Event::Before(c.middlewares[lo + i]))
}

/// The resumptions of the middleware from depth `hi - 1` down to `lo`.
pub open spec fn afters(c: ChainView, lo: int, hi: int) -> Seq<Event> {
    Seq::new((hi - lo) as nat, |i: int| Event::After(c.middlewares[hi - 1 - i]))
}

/// The response `r` after the middleware from depth `hi - 1` down to `lo`
/// have each made of it what they make.
pub open spec fn passed_back(k: Conduct, lo: int, hi: int, r: ResView) -> ResView
    decreases hi - lo,
{
    if hi <= lo {
        r
    } else {
        (k.afterwards[lo])(passed_back(k, lo + 1, hi, r))
    }
}

/// The middleware from `depth` up to `stop` continue, and `stop` is where
/// the chain turns back: the first middleware that does not continue, or
/// the handler.
pub open spec fn turns_at(c: ChainView, k: Conduct, depth: int, stop: int) -> bool {
    &&& 0 <= depth <= stop <= c.middlewares.len()
    &&& forall|j: int| depth <= j < stop ==> #[trigger] k.continues[j]
    &&& stop < c.middlewares.len() ==> !k.continues[stop]
}

/// What turns the chain back at `stop`.
pub open spec fn turning_events(c: ChainView, stop: int) -> Seq<Event> {
    if stop < c.middlewares.len() {
        seq![Event::Before(c.middlewares[stop])]
    } else {
        seq![Event::Handled(c.handler)]
    }
}

/// The response given where the chain turns back.
pub open spec fn turning_answer(c: ChainView, k: Conduct, stop: int) -> ResView {
    if stop < c.middlewares.len() {
        k.answers[stop]
    } else {
        k.handled
    }
}

/// A run from `depth`: the middleware start in their order up to where the
/// chain turns back, and those that continued resume in the reverse order;
/// the response passes back through each of them.
pub proof fn lemma_run(c: ChainView, k: Conduct, depth: int, stop: int)
    requires
        fits(c, k),
        turns_at(c, k, depth, stop),
    ensures
        events(c, k, depth) == befores(c, depth, stop) + turning_events(c, stop) + afters(
            c,
            depth,
            stop,
        ),
        outcome(c, k, depth) == passed_back(k, depth, stop, turning_answer(c, k, stop)),
    decreases stop - depth,
{
    if depth == stop {
        assert(befores(c, depth, stop) =~= Seq::empty());
        assert(afters(c, depth, stop) =~= Seq::empty());
        assert(events(c, k, depth) =~= befores(c, depth, stop) + turning_events(c, stop) + afters(
            c,
            depth,
            stop,
        ));
    } else {
        assert(k.continues[depth]);
        lemma_run(c, k, depth + 1, stop);
        let inner = befores(c, depth + 1, stop) + turning_events(c, stop) + afters(
            c,
            depth + 1,
            stop,
        );
        let whole = befores(c, depth, stop) + turning_events(c, stop) + afters(c, depth, stop);
        let wrapped = seq![Event::Before(c.middlewares[depth])] + inner + seq![
            Event::After(c.middlewares[depth]),
        ];
        assert(turning_events(c, stop).len() == 1);
        assert(wrapped.len() == whole.len());
        assert forall|i: int| 0 <= i < whole.len() implies wrapped[i] == whole[i] by {
            let b = stop - depth;
            if i == 0 {
            } else if i < b {
                assert(inner[i - 1] == befores(c, depth + 1, stop)[i - 1]);
            } else if i == b {
                assert(inner[i - 1] == turning_events(c, stop)[0]);
            } else if i < 2 * b {
                assert(inner[i - 1] == afters(c, depth + 1, stop)[i - 1 - b]);
            } else {
            }
        }
        assert(wrapped =~= whole);
    }
}

/// Where every middleware continues, they start in the order of the chain,
/// the handler runs, and they resume in the reverse order.
pub proof fn lemma_order(c: ChainView, k: Conduct)
    requires
        fits(c, k),
        forall|j: int| 0 <= j < c.middlewares.len() ==> #[trigger] k.continues[j],
    ensures
        events(c, k, 0) == befores(c, 0, c.middlewares.len() as int) + seq![
            Event::Handled(c.handler),
        ] + afters(c, 0, c.middlewares.len() as int),
        outcome(c, k, 0) == passed_back(k, 0, c.middlewares.len() as int, k.handled),
{
    lemma_run(c, k, 0, c.middlewares.len() as int);
}

/// Where the middleware at depth `stop` is the first that does not
/// continue, nothing further in runs: not the handler, no middleware behind
/// it. Those before it resume in the reverse order, and its response passes
/// back through each of them.
pub proof fn lemma_short_circuit(c: ChainView, k: Conduct, stop: int)
    requires
        fits(c, k),
        0 <= stop < c.middlewares.len(),
        forall|j: int| 0 <= j < stop ==> #[trigger] k.continues[j],
        !k.continues[stop],
    ensures
        events(c, k, 0) == befores(c, 0, stop + 1) + afters(c, 0, stop),
        !events(c, k, 0).contains(Event::Handled(c.handler)),
        forall|j: int|
            stop < j < c.middlewares.len() && !c.middlewares.take(stop + 1).contains(
                c.middlewares[j],
            ) ==> !events(c, k, 0).contains(Event::Before(#[trigger] c.middlewares[j])),
        outcome(c, k, 0) == passed_back(k, 0, stop, k.answers[stop]),
{
    lemma_run(c, k, 0, stop);
    let e = befores(c, 0, stop + 1) + afters(c, 0, stop);
    assert(befores(c, 0, stop) + turning_events(c, stop) =~= befores(c, 0, stop + 1));
    assert(events(c, k, 0) =~= e);
    assert forall|i: int| 0 <= i < e.len() implies e[i] != Event::Handled(c.handler) by {
        if i < stop + 1 {
            assert(e[i] == befores(c, 0, stop + 1)[i]);
        } else {
            assert(e[i] == afters(c, 0, stop)[i - (stop + 1)]);
        }
    }
    assert forall|j: int|
        stop < j < c.middlewares.len() && !c.middlewares.take(stop + 1).contains(
            c.middlewares[j],
        ) implies !e.contains(Event::Before(#[trigger] c.middlewares[j])) by {
        if e.contains(Event::Before(c.middlewares[j])) {
            let i = choose|i: int| 0 <= i < e.len() && e[i] == Event::Before(c.middlewares[j]);
            if i < stop + 1 {
                assert(e[i] == befores(c, 0, stop + 1)[i]);
                assert(c.middlewares.take(stop + 1)[i] == c.middlewares[j]);
            } else {
                assert(e[i] == afters(c, 0, stop)[i - (stop + 1)]);
            }
        }
    }
}

/// The starts of the middleware of a list, in the order of the list.
pub open spec fn starts(ids: Seq<usize>) -> Seq<Event> {
    Seq::new(ids.len(), |i: int| Event::Before(ids[i]))
}

/// The resumptions of the middleware of a list, in the reverse order.
pub open spec fn resumes(ids: Seq<usize>) -> Seq<Event> {
    Seq::new(ids.len(), |i: int| Event::After(ids[ids.len() - 1 - i]))
}

/// An endpoint with global middleware, middleware of the groups around it
/// and middleware of its own, all of which continue: the global ones start
/// first, then those of the groups, then its own, each tier in the order
/// of its registration; then the handler runs; then all of them resume in
/// exactly the reverse order.
pub proof fn lemma_tiers(
    global: Seq<usize>,
    scope: Seq<usize>,
    own: Seq<usize>,
    handler: usize,
    k: Conduct,
)
    requires
        fits(ChainView { middlewares: global + scope + own, handler }, k),
        forall|j: int| 0 <= j < (global + scope + own).len() ==> #[trigger] k.continues[j],
    ensures
        events(ChainView { middlewares: global + scope + own, handler }, k, 0) == starts(global)
            + starts(scope) + starts(own) + seq![Event::Handled(handler)] + resumes(own)
            + resumes(scope) + resumes(global),
{
    let all = global + scope + own;
    let c = ChainView { middlewares: all, handler };
    lemma_order(c, k);
    let a = befores(c, 0, all.len() as int);
    let b = afters(c, 0, all.len() as int);
    assert(a =~= starts(global) + starts(scope) + starts(own));
    assert(b =~= resumes(own) + resumes(scope) + resumes(global));
    assert(a + seq![Event::Handled(handler)] + b =~= starts(global) + starts(scope) + starts(own)
        + seq![Event::Handled(handler)] + resumes(own) + resumes(scope) + resumes(global));
}

} // verus!
