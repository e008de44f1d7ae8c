//! The router: a table of routes, and the choice of the one route that
//! answers a request.
//!
//! A route answers a request when it is registered for the request's method
//! and its pattern matches the request's path. Where several do, the most
//! specific pattern is chosen, whatever the order in which the routes were
//! registered; only between routes whose patterns overlap does the earlier
//! one win.

use crate::endpoint::Endpoint;
use crate::path::{pieces, split_path, texts};
use crate::pattern::{
    bindings, bound, fits, outranks, outranks_goes_by_shape, outranks_is_total,
    outranks_is_transitive, overlaps, pattern_of, same_shape, same_shape_on_one_path_overlaps,
    tail, Binding, Pattern, SegmentView,
};
use crate::pipeline::{copy_stages, Stage};
use crate::response::{bare, Response, ResponseView};
use vstd::prelude::*;

verus! {

/// The method of a request.
#[derive(Clone, Copy, Debug, PartialEq, Eq, Structural)]
pub enum Method {
    Get,
    Post,
    Put,
    Delete,
    /// Any method that no route is registered for.
    Other,
}

/// One entry of the table.
#[derive(Clone, Debug, PartialEq, Eq)]
pub struct Route {
    pub method: Method,
    pub pattern: Pattern,
    pub endpoint: Endpoint,
    /// The stages that wrap this route beyond those of the router it is
    /// registered with, outermost first.
    pub stages: Vec<Stage>,
}

/// A route, as contracts see it.
pub struct RouteView {
    pub method: Method,
    pub pattern: Seq<SegmentView>,
    pub endpoint: Endpoint,
    pub stages: Seq<Stage>,
}

impl View for Route {
    type V = RouteView;

    open spec fn view(&self) -> RouteView {
        RouteView {
            method: self.method,
            pattern: self.pattern@,
            endpoint: self.endpoint,
            stages: self.stages@,
        }
    }
}

/// The table: the stages that wrap every request, and the routes in the
/// order of their registration.
#[derive(Clone, Debug, PartialEq, Eq)]
pub struct Router {
    pub stages: Vec<Stage>,
    pub routes: Vec<Route>,
}

/// A router, as contracts see it.
pub struct RouterView {
    pub stages: Seq<Stage>,
    pub routes: Seq<RouteView>,
}

impl View for Router {
    type V = RouterView;

    open spec fn view(&self) -> RouterView {
        RouterView { stages: self.stages@, routes: self.routes@.map_values(|r: Route| r@) }
    }
}

/// What the router makes of a request.
#[derive(Clone, Debug, PartialEq, Eq)]
pub enum Resolution {
    /// One route answers the request.
    Found {
        endpoint: Endpoint,
        /// The parameters of the route's pattern, bound to pieces of the path.
        params: Vec<Binding>,
        /// The pieces of the path that the pattern's closing `*` took.
        tail: Vec<String>,
        /// The stages that wrap the handler, outermost first.
        stages: Vec<Stage>,
    },
    /// The path is known, but not with this method.
    MethodNotAllowed,
    /// No route has a pattern that matches the path.
    NotFound,
}

/// A resolution, as contracts see it.
pub enum ResolutionView {
    Found {
        endpoint: Endpoint,
        params: Seq<(Seq<char>, Seq<char>)>,
        tail: Seq<Seq<char>>,
        stages: Seq<Stage>,
    },
    MethodNotAllowed,
    NotFound,
}

impl View for Resolution {
    type V = ResolutionView;

    open spec fn view(&self) -> ResolutionView {
        match self {
            Resolution::Found { endpoint, params, tail, stages } => ResolutionView::Found {
                endpoint: *endpoint,
                params: bound(params@),
                tail: texts(tail@),
                stages: stages@,
            },
            Resolution::MethodNotAllowed => ResolutionView::MethodNotAllowed,
            Resolution::NotFound => ResolutionView::NotFound,
        }
    }
}

/// Whether a route answers a request.
pub open spec fn answers(route: RouteView, method: Method, parts: Seq<Seq<char>>) -> bool {
    route.method == method && fits(route.pattern, parts)
}

/// Whether route `i` is the one chosen for a request: it answers it, it
/// outranks every other route that does, and among those whose patterns have
/// its shape it was registered first.
pub open spec fn wins(
    routes: Seq<RouteView>,
    method: Method,
    parts: Seq<Seq<char>>,
    i: int,
) -> bool {
    &&& 0 <= i < routes.len()
    &&& answers(routes[i], method, parts)
    &&& forall|j: int|
        0 <= j < routes.len() && j != i && answers(#[trigger] routes[j], method, parts) ==> {
            ||| outranks(routes[i].pattern, routes[j].pattern)
            ||| same_shape(routes[i].pattern, routes[j].pattern) && i < j
        }
}

/// Whether some route answers the request.
pub open spec fn is_answered(
    routes: Seq<RouteView>,
    method: Method,
    parts: Seq<Seq<char>>,
) -> bool {
    exists|i: int| 0 <= i < routes.len() && answers(#[trigger] routes[i], method, parts)
}

/// Whether some route has a pattern that matches the path.
pub open spec fn is_known(routes: Seq<RouteView>, parts: Seq<Seq<char>>) -> bool {
    exists|i: int| 0 <= i < routes.len() && fits((#[trigger] routes[i]).pattern, parts)
}

/// The route chosen for a request that some route answers.
pub open spec fn winner(routes: Seq<RouteView>, method: Method, parts: Seq<Seq<char>>) -> int {
    choose|i: int| wins(routes, method, parts, i)
}

/// What a router makes of a method and the pieces of a path.
pub open spec fn resolved(
    router: RouterView,
    method: Method,
    parts: Seq<Seq<char>>,
) -> ResolutionView {
    if is_answered(router.routes, method, parts) {
        let route = router.routes[winner(router.routes, method, parts)];
        ResolutionView::Found {
            endpoint: route.endpoint,
            params: bindings(route.pattern, parts),
            tail: tail(route.pattern, parts),
            stages: router.stages + route.stages,
        }
    } else if is_known(router.routes, parts) {
        ResolutionView::MethodNotAllowed
    } else {
        ResolutionView::NotFound
    }
}

/// A route of a router that is mounted below a prefix of another: the prefix
/// comes before its pattern, and the stages of the router it came from
/// before its own.
pub open spec fn nested(
    prefix: Seq<SegmentView>,
    stages: Seq<Stage>,
    route: RouteView,
) -> RouteView {
    RouteView {
        method: route.method,
        pattern: prefix + route.pattern,
        endpoint: route.endpoint,
        stages: stages + route.stages,
    }
}

/// Mounting is prefixing: a route that is mounted below a prefix without a
/// `*` stands as if it had been registered with the prefix, a `/` and its
/// own pattern for its text.
pub proof fn nesting_is_prefixing(
    prefix: Seq<char>,
    stages: Seq<Stage>,
    method: Method,
    pattern: Seq<char>,
    endpoint: Endpoint,
)
    requires
        crate::pattern::is_closed(pattern_of(prefix)),
    ensures
        nested(
            pattern_of(prefix),
            stages,
            RouteView { method, pattern: pattern_of(pattern), endpoint, stages: Seq::empty() },
        ) == (RouteView {
            method,
            pattern: pattern_of(prefix + seq!['/'] + pattern),
            endpoint,
            stages,
        }),
{
    crate::pattern::pattern_of_joined_texts(prefix, pattern);
    assert(stages + Seq::<Stage>::empty() =~= stages);
}

/// Whether no two routes of a table can tie: none has the method of another
/// and a pattern that overlaps with the other's.
pub open spec fn is_unambiguous(routes: Seq<RouteView>) -> bool {
    forall|i: int, j: int|
        0 <= i < routes.len() && 0 <= j < routes.len() && i != j ==> !({
            &&& (#[trigger] routes[i]).method == (#[trigger] routes[j]).method
            &&& overlaps(routes[i].pattern, routes[j].pattern)
        })
}

/// At most one route is chosen for a request.
pub proof fn winner_is_unique(
    routes: Seq<RouteView>,
    method: Method,
    parts: Seq<Seq<char>>,
    i: int,
    j: int,
)
    requires
        wins(routes, method, parts, i),
        wins(routes, method, parts, j),
    ensures
        i == j,
{
    if i != j {
        outranks_is_total(routes[i].pattern, routes[j].pattern);
        outranks_is_total(routes[j].pattern, routes[i].pattern);
    }
}

/// A route that is chosen for a request is the route that `winner` names,
/// and the request is answered.
pub proof fn answered_iff_won(
    routes: Seq<RouteView>,
    method: Method,
    parts: Seq<Seq<char>>,
    i: int,
)
    requires
        wins(routes, method, parts, i),
    ensures
        is_answered(routes, method, parts),
        winner(routes, method, parts) == i,
{
    let w = winner(routes, method, parts);
    winner_is_unique(routes, method, parts, i, w);
}

/// The order of registration does not decide which route answers: in a
/// table in which no two routes can tie, any table that holds the same
/// routes, in whatever order, resolves every request alike.
pub proof fn resolution_ignores_order(
    a: RouterView,
    b: RouterView,
    method: Method,
    parts: Seq<Seq<char>>,
)
    requires
        a.stages == b.stages,
        is_unambiguous(a.routes),
        forall|r: RouteView| a.routes.contains(r) <==> b.routes.contains(r),
    ensures
        resolved(a, method, parts) == resolved(b, method, parts),
{
    if is_answered(a.routes, method, parts) {
        let k = choose|k: int| 0 <= k < a.routes.len() && answers(#[trigger] a.routes[k], method, parts);
        assert(a.routes.contains(a.routes[k]));
        let m = choose|m: int| 0 <= m < b.routes.len() && b.routes[m] == a.routes[k];
        assert(answers(b.routes[m], method, parts));
    }
    if is_answered(b.routes, method, parts) {
        let k = choose|k: int| 0 <= k < b.routes.len() && answers(#[trigger] b.routes[k], method, parts);
        assert(b.routes.contains(b.routes[k]));
        let m = choose|m: int| 0 <= m < a.routes.len() && a.routes[m] == b.routes[k];
        assert(answers(a.routes[m], method, parts));
    }
    if is_known(a.routes, parts) {
        let k = choose|k: int| 0 <= k < a.routes.len() && fits((#[trigger] a.routes[k]).pattern, parts);
        assert(a.routes.contains(a.routes[k]));
        let m = choose|m: int| 0 <= m < b.routes.len() && b.routes[m] == a.routes[k];
        assert(fits(b.routes[m].pattern, parts));
    }
    if is_known(b.routes, parts) {
        let k = choose|k: int| 0 <= k < b.routes.len() && fits((#[trigger] b.routes[k]).pattern, parts);
        assert(b.routes.contains(b.routes[k]));
        let m = choose|m: int| 0 <= m < a.routes.len() && a.routes[m] == b.routes[k];
        assert(fits(a.routes[m].pattern, parts));
    }
    if is_answered(a.routes, method, parts) {
        some_route_wins(a.routes, method, parts);
        some_route_wins(b.routes, method, parts);
        let i = winner(a.routes, method, parts);
        let k = winner(b.routes, method, parts);
        assert(b.routes.contains(b.routes[k]));
        let i2 = choose|i2: int| 0 <= i2 < a.routes.len() && a.routes[i2] == b.routes[k];
        assert(a.routes.contains(a.routes[i]));
        let k2 = choose|k2: int| 0 <= k2 < b.routes.len() && b.routes[k2] == a.routes[i];
        if i2 != i {
            assert(answers(a.routes[i2], method, parts));
            assert(answers(b.routes[k2], method, parts));
            outranks_is_total(a.routes[i].pattern, b.routes[k].pattern);
            if k2 != k {
                same_shape_on_one_path_overlaps(a.routes[i].pattern, a.routes[i2].pattern, parts);
            }
        }
    }
}

/// A request that some route answers has a chosen route.
pub proof fn some_route_wins(routes: Seq<RouteView>, method: Method, parts: Seq<Seq<char>>)
    requires
        is_answered(routes, method, parts),
    ensures
        wins(routes, method, parts, winner(routes, method, parts)),
{
    best_upto_wins(routes, method, parts, routes.len() as int);
    assert(routes.subrange(0, routes.len() as int) =~= routes);
}

/// The route chosen among the first `upto` routes of a table, or -1 where
/// none of them answers.
pub open spec fn best_upto(
    routes: Seq<RouteView>,
    method: Method,
    parts: Seq<Seq<char>>,
    upto: int,
) -> int
    decreases upto,
{
    if upto <= 0 {
        -1
    } else {
        let held = best_upto(routes, method, parts, upto - 1);
        if !answers(routes[upto - 1], method, parts) {
            held
        } else if held < 0 || outranks(routes[upto - 1].pattern, routes[held].pattern) {
            upto - 1
        } else {
            held
        }
    }
}

/// Going through a table from its first route and keeping the better of the
/// route held and the route met finds the chosen route.
pub proof fn best_upto_wins(
    routes: Seq<RouteView>,
    method: Method,
    parts: Seq<Seq<char>>,
    upto: int,
)
    requires
        0 <= upto <= routes.len(),
    ensures
        -1 <= best_upto(routes, method, parts, upto) < upto,
        best_upto(routes, method, parts, upto) >= 0 ==> wins(
            routes.subrange(0, upto),
            method,
            parts,
            best_upto(routes, method, parts, upto),
        ),
        best_upto(routes, method, parts, upto) < 0 ==> !is_answered(
            routes.subrange(0, upto),
            method,
            parts,
        ),
    decreases upto,
{
    if upto > 0 {
        best_upto_wins(routes, method, parts, upto - 1);
        let seen = routes.subrange(0, upto - 1);
        let next = routes.subrange(0, upto);
        let held = best_upto(routes, method, parts, upto - 1);
        let last = upto - 1;
        assert(forall|k: int| 0 <= k < last ==> next[k] == seen[k]);
        assert(next[last] == routes[last]);
        if is_answered(seen, method, parts) {
            let k = choose|k: int| 0 <= k < seen.len() && answers(#[trigger] seen[k], method, parts);
            assert(answers(next[k], method, parts));
        }
        if !answers(routes[last], method, parts) {
            if is_answered(next, method, parts) {
                let k = choose|k: int| 0 <= k < next.len() && answers(#[trigger] next[k], method, parts);
                assert(answers(seen[k], method, parts));
            }
            if held >= 0 {
                assert forall|j: int|
                    0 <= j < next.len() && j != held && answers(#[trigger] next[j], method, parts) implies (
                outranks(next[held].pattern, next[j].pattern) || (same_shape(
                    next[held].pattern,
                    next[j].pattern,
                ) && held < j)) by {
                    assert(answers(seen[j], method, parts));
                }
            }
        } else if held < 0 {
            assert forall|j: int|
                0 <= j < next.len() && j != last && answers(#[trigger] next[j], method, parts) implies false by {
                assert(answers(seen[j], method, parts));
            }
        } else {
            let mine = next[last].pattern;
            let kept = next[held].pattern;
            outranks_is_total(mine, kept);
            outranks_is_total(kept, mine);
            if outranks(mine, kept) {
                assert forall|j: int|
                    0 <= j < next.len() && j != last && answers(#[trigger] next[j], method, parts) implies outranks(
                    mine,
                    next[j].pattern,
                ) by {
                    if j != held {
                        assert(answers(seen[j], method, parts));
                        if outranks(kept, seen[j].pattern) {
                            outranks_is_transitive(mine, kept, seen[j].pattern);
                        } else {
                            outranks_goes_by_shape(mine, kept, seen[j].pattern);
                        }
                    }
                }
            } else {
                assert forall|j: int|
                    0 <= j < next.len() && j != held && answers(#[trigger] next[j], method, parts) implies (
                outranks(kept, next[j].pattern) || (same_shape(kept, next[j].pattern) && held < j)) by {
                    if j != last {
                        assert(answers(seen[j], method, parts));
                    }
                }
            }
        }
    }
}

/// The response that the router itself gives where no route answers: 405
/// where the path is known with another method, 404 where it is not known
/// at all. No handler is invoked for it.
pub open spec fn refused(resolution: ResolutionView) -> Option<ResponseView> {
    match resolution {
        ResolutionView::Found { .. } => None,
        ResolutionView::MethodNotAllowed => Some(bare(405)),
        ResolutionView::NotFound => Some(bare(404)),
    }
}

impl Resolution {
    /// The value that the route's pattern bound to a parameter; `None`
    /// where no route answers or its pattern has no such parameter.
    pub fn param(&self, name: &str) -> (value: Option<String>)
        ensures
            crate::response::text_of(value) == match self@ {
                ResolutionView::Found { params, .. } => crate::pattern::value_of(params, name@),
                _ => None,
            },
    {
        match self {
            Resolution::Found { params, .. } => crate::pattern::lookup(params, name),
            _ => None,
        }
    }

    /// The response that the router itself gives where no route answers.
    pub fn refusal(&self) -> (response: Option<Response>)
        ensures
            crate::router::response_of(response) == refused(self@),
    {
        match self {
            Resolution::Found { .. } => None,
            Resolution::MethodNotAllowed => Some(Response::new(405)),
            Resolution::NotFound => Some(Response::new(404)),
        }
    }
}

/// The view of a response that may be absent.
pub open spec fn response_of(response: Option<Response>) -> Option<ResponseView> {
    match response {
        Some(r) => Some(r@),
        None => None,
    }
}

impl Router {
    /// A router with no stage and no route.
    pub fn new() -> (router: Router)
        ensures
            router@.stages == Seq::<Stage>::empty(),
            router@.routes == Seq::<RouteView>::empty(),
    {
        let router = Router { stages: Vec::new(), routes: Vec::new() };
        assert(router@.routes =~= Seq::<RouteView>::empty());
        router
    }

    /// Adds a stage inside those that the router has.
    pub fn with(&mut self, stage: Stage)
        ensures
            final(self)@.stages == old(self)@.stages.push(stage),
            final(self)@.routes == old(self)@.routes,
    {
        self.stages.push(stage);
    }

    /// Registers a handler for a method and the paths that a pattern matches.
    pub fn at(&mut self, method: Method, pattern: &str, endpoint: Endpoint)
        ensures
            final(self)@.stages == old(self)@.stages,
            final(self)@.routes == old(self)@.routes.push(
                RouteView {
                    method,
                    pattern: pattern_of(pattern@),
                    endpoint,
                    stages: Seq::empty(),
                },
            ),
    {
        let route = Route {
            method,
            pattern: Pattern::parse(pattern),
            endpoint,
            stages: Vec::new(),
        };
        self.routes.push(route);
        assert(self@.routes =~= old(self)@.routes.push(route@));
    }

    /// Mounts another router below a prefix: each of its routes is
    /// registered here with the prefix before its pattern, wrapped in the
    /// other router's stages.
    pub fn nest(&mut self, prefix: &str, inner: &Router)
        ensures
            final(self)@.stages == old(self)@.stages,
            final(self)@.routes == old(self)@.routes + inner@.routes.map_values(
                |r: RouteView| nested(pattern_of(prefix@), inner@.stages, r),
            ),
    {
        let head = Pattern::parse(prefix);
        let mut i: usize = 0;
        while i < inner.routes.len()
            invariant
                i <= inner.routes.len(),
                head@ == pattern_of(prefix@),
                self@.stages == old(self)@.stages,
                self@.routes == old(self)@.routes + inner@.routes.subrange(0, i as int).map_values(
                    |r: RouteView| nested(pattern_of(prefix@), inner@.stages, r),
                ),
            decreases inner.routes.len() - i,
        {
            let route = &inner.routes[i];
            let mut stages = copy_stages(&inner.stages);
            let mut own_stages = copy_stages(&route.stages);
            stages.append(&mut own_stages);
            let placed = Route {
                method: route.method,
                pattern: head.followed_by(&route.pattern),
                endpoint: route.endpoint,
                stages,
            };
            assert(placed@ == nested(pattern_of(prefix@), inner@.stages, inner@.routes[i as int]));
            let ghost before = self@.routes;
            self.routes.push(placed);
            assert(self@.routes =~= before.push(placed@));
            i = i + 1;
            assert(inner@.routes.subrange(0, i as int).map_values(
                |r: RouteView| nested(pattern_of(prefix@), inner@.stages, r),
            ) =~= inner@.routes.subrange(0, i - 1).map_values(
                |r: RouteView| nested(pattern_of(prefix@), inner@.stages, r),
            ).push(placed@));
        }
        assert(inner@.routes.subrange(0, inner.routes.len() as int) =~= inner@.routes);
    }

    /// Chooses the route that answers a request.
    pub fn resolve(&self, method: Method, path: &str) -> (resolution: Resolution)
        ensures
            resolution@ == resolved(self@, method, pieces(path@)),
    {
        let parts = split_path(path);
        let n: usize = self.routes.len();
        let mut best: Option<usize> = None;
        let mut known = false;
        let mut i: usize = 0;
        while i < n
            invariant
                n == self.routes.len(),
                i <= n,
                known == (exists|k: int|
                    0 <= k < i && fits((#[trigger] self@.routes[k]).pattern, texts(parts@))),
                match best {
                    Some(b) => b < i && b == best_upto(self@.routes, method, texts(parts@), i as int),
                    None => best_upto(self@.routes, method, texts(parts@), i as int) < 0,
                },
            decreases n - i,
        {
            let route = &self.routes[i];
            if route.pattern.fits(&parts) {
                known = true;
                if route.method == method {
                    best = match best {
                        None => Some(i),
                        Some(b) => if route.pattern.outranks(&self.routes[b].pattern) {
                            Some(i)
                        } else {
                            Some(b)
                        },
                    };
                }
            }
            i = i + 1;
        }
        proof {
            best_upto_wins(self@.routes, method, texts(parts@), n as int);
            assert(self@.routes.subrange(0, n as int) =~= self@.routes);
        }
        match best {
            Some(b) => {
                let route = &self.routes[b];
                proof {
                    answered_iff_won(self@.routes, method, texts(parts@), b as int);
                }
                let mut stages = copy_stages(&self.stages);
                let mut own = copy_stages(&route.stages);
                stages.append(&mut own);
                Resolution::Found {
                    endpoint: route.endpoint,
                    params: route.pattern.bind(&parts),
                    tail: route.pattern.tail(&parts),
                    stages,
                }
            },
            None => {
                if known {
                    Resolution::MethodNotAllowed
                } else {
                    Resolution::NotFound
                }
            },
        }
    }

    /// Whether no two routes of the table can tie.
    pub fn is_unambiguous(&self) -> (yes: bool)
        ensures
            yes == is_unambiguous(self@.routes),
    {
        let n: usize = self.routes.len();
        let mut i: usize = 0;
        while i < n
            invariant
                n == self.routes.len(),
                i <= n,
                forall|a: int, b: int|
                    0 <= a < i && 0 <= b < n && a != b ==> !({
                        &&& (#[trigger] self@.routes[a]).method == (#[trigger] self@.routes[b]).method
                        &&& overlaps(self@.routes[a].pattern, self@.routes[b].pattern)
                    }),
            decreases n - i,
        {
            let mut j: usize = 0;
            while j < n
                invariant
                    n == self.routes.len(),
                    i < n,
                    j <= n,
                    forall|b: int|
                        0 <= b < j && i != b ==> !({
                            &&& self@.routes[i as int].method == (#[trigger] self@.routes[b]).method
                            &&& overlaps(self@.routes[i as int].pattern, self@.routes[b].pattern)
                        }),
                decreases n - j,
            {
                if i != j && self.routes[i].method == self.routes[j].method
                    && self.routes[i].pattern.overlaps(&self.routes[j].pattern) {
                    assert(self@.routes[i as int].method == self@.routes[j as int].method);
                    return false;
                }
                j = j + 1;
            }
            i = i + 1;
        }
        true
    }
}

} // verus!
