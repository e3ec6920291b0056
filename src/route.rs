//! The route table: an ordered list of (method pattern, path pattern,
//! version, handler) entries; the first entry that matches a request
//! handles it, and a request that none matches gets the 404 response.

use vstd::prelude::*;
use vstd::utf8::encode_utf8;

use crate::pattern::{matches_at_start, pattern_compiles, Pattern};
use crate::request::{HTTPRequest, HTTPRequestHeader, HeaderFields};
use crate::response::{
    crafted, encode, encode_result, is_not_found, HTTPResponses, HTTPResult, Response,
};
use crate::search::{first_from, lemma_first_from_found, lemma_first_from_none, lemma_first_from_sound};

verus! {

/// What a route does with a request that it matched.
pub trait Handler {
    /// `result` is an answer that this handler may give to `request`.
    spec fn answers(&self, request: HTTPRequest, result: HTTPResult) -> bool;

    fn handle(&self, request: HTTPRequest) -> (result: HTTPResult)
        ensures
            self.answers(request, result),
    ;
}

/// Why a route could not be registered.
#[derive(Clone, Copy, Debug, PartialEq, Eq, Structural)]
pub enum RouteError {
    /// The method or path pattern is not a regular expression that compiles.
    PatternInvalid,
}

/// A registered route, as values.
pub struct RouteView<H> {
    pub method: Seq<char>,
    pub path: Seq<char>,
    pub http_version: Seq<char>,
    pub handler: H,
}

struct InternalRoute<H> {
    method: Pattern,
    path: Pattern,
    http_version: String,
    callback: H,
}

impl<H> InternalRoute<H> {
    spec fn view(&self) -> RouteView<H> {
        RouteView {
            method: self.method@,
            path: self.path@,
            http_version: self.http_version@,
            handler: self.callback,
        }
    }

    /// The method and path patterns match from the start of the request's
    /// fields, and the versions are equal.
    fn matches(&self, header: &HTTPRequestHeader) -> (r: bool)
        ensures
            r == route_matches(self.view(), header@),
    {
        self.method.matches_start(header.method.as_str()) && self.path.matches_start(
            header.path.as_str(),
        ) && self.http_version == header.http_version
    }
}

/// The ordered route table.
pub struct Router<H> {
    internal_route_vec: Vec<InternalRoute<H>>,
}

impl<H> View for Router<H> {
    type V = Seq<RouteView<H>>;

    closed spec fn view(&self) -> Seq<RouteView<H>> {
        self.internal_route_vec@.map_values(|r: InternalRoute<H>| r.view())
    }
}

/// The route matches the request header: its method pattern and path
/// pattern match from the start of the method and path, and its version is
/// the request's version.
pub open spec fn route_matches<H>(route: RouteView<H>, header: HeaderFields) -> bool {
    &&& matches_at_start(route.method, header.method)
    &&& matches_at_start(route.path, header.path)
    &&& route.http_version == header.http_version
}

/// The search predicate for a route that matches `header`.
pub open spec fn matching<H>(header: HeaderFields) -> spec_fn(Seq<RouteView<H>>, int) -> bool {
    |s: Seq<RouteView<H>>, i: int| 0 <= i < s.len() && route_matches(s[i], header)
}

/// The index of the first route of `routes` that matches `header`.
pub open spec fn selected<H>(routes: Seq<RouteView<H>>, header: HeaderFields) -> Option<int> {
    first_from(routes, 0, matching(header))
}

/// The bytes of the 404 response.
pub open spec fn not_found_wire() -> Seq<u8> {
    crafted(
        404,
        "Not found"@,
        "text/plain"@,
        Seq::empty(),
        encode_utf8("The requested content could not be found."@),
    )
}

/// `r` is what the table answers to `request`: the 404 response when no
/// route matches, else an answer of the first matching route's handler.
pub open spec fn dispatched<H: Handler>(
    routes: Seq<RouteView<H>>,
    request: HTTPRequest,
    r: HTTPResult,
) -> bool {
    match selected(routes, request.0@) {
        None => r matches Err(b) && is_not_found(*b),
        Some(i) => routes[i].handler.answers(request, r),
    }
}

impl<H> Router<H> {
    /// An empty table.
    pub fn new() -> (r: Self)
        ensures
            r@ == Seq::<RouteView<H>>::empty(),
    {
        let r = Router { internal_route_vec: Vec::new() };
        assert(r@ =~= Seq::<RouteView<H>>::empty());
        r
    }

    /// The routes of `self`, then those of `other`: `self`'s take priority.
    pub fn with(self, other: Router<H>) -> (r: Self)
        ensures
            r@ == self@ + other@,
    {
        let mut routes = self.internal_route_vec;
        let mut more = other.internal_route_vec;
        routes.append(&mut more);
        let r = Router { internal_route_vec: routes };
        assert(r@ =~= self@ + other@);
        r
    }

    /// Registers a route after the existing ones; fails when a pattern does
    /// not compile.
    pub fn route(self, method: &str, path: &str, http_version: &str, callback: H) -> (r: Result<
        Self,
        RouteError,
    >)
        ensures
            r is Ok <==> pattern_compiles(method@) && pattern_compiles(path@),
            r matches Ok(t) ==> t@ == self@.push(
                RouteView {
                    method: method@,
                    path: path@,
                    http_version: http_version@,
                    handler: callback,
                },
            ),
            r matches Err(e) ==> e == RouteError::PatternInvalid,
    {
        let method = match Pattern::compile(method) {
            Ok(p) => p,
            Err(_) => {
                return Err(RouteError::PatternInvalid);
            },
        };
        let path = match Pattern::compile(path) {
            Ok(p) => p,
            Err(_) => {
                return Err(RouteError::PatternInvalid);
            },
        };
        let mut routes = self.internal_route_vec;
        routes.push(
            InternalRoute {
                method,
                path,
                http_version: String::from_str(http_version),
                callback,
            },
        );
        let r = Router { internal_route_vec: routes };
        assert(r@ =~= self@.push(
            RouteView {
                method: method@,
                path: path@,
                http_version: http_version@,
                handler: callback,
            },
        ));
        Ok(r)
    }

    /// The index of the first route that matches `header`.
    pub fn find_route(&self, header: &HTTPRequestHeader) -> (r: Option<usize>)
        ensures
            match selected(self@, header@) {
                Some(i) => r matches Some(x) && x == i,
                None => r is None,
            },
    {
        let routes = &self.internal_route_vec;
        let mut i: usize = 0;
        while i < routes.len()
            invariant
                i <= routes.len(),
                self@.len() == routes.len(),
                routes == &self.internal_route_vec,
                forall|t: int| 0 <= t < i ==> !#[trigger] matching::<H>(header@)(self@, t),
            decreases routes.len() - i,
        {
            if routes[i].matches(header) {
                proof {
                    assert(self@[i as int] == routes@[i as int].view());
                    lemma_first_from_found(self@, 0, matching::<H>(header@), i as int);
                }
                return Some(i);
            }
            assert(self@[i as int] == routes@[i as int].view());
            i = i + 1;
        }
        proof {
            lemma_first_from_none(self@, 0, matching::<H>(header@));
        }
        None
    }
}

impl<H: Handler> Router<H> {
    /// Hands the request to the handler of the first matching route, or
    /// answers with the 404 response when none matches.
    pub fn dispatch(&self, request: HTTPRequest) -> (r: HTTPResult)
        ensures
            dispatched(self@, request, r),
    {
        match self.find_route(&request.0) {
            None => Err(HTTPResponses::not_found()),
            Some(i) => {
                proof {
                    lemma_first_from_sound(self@, 0, matching::<H>(request.0@));
                    assert(self@[i as int] == self.internal_route_vec@[i as int].view());
                }
                self.internal_route_vec[i].callback.handle(request)
            },
        }
    }

    /// The bytes that answer `request`: the first matching route's answer,
    /// or the 404 response, encoded.
    pub fn handle_request(&self, request: HTTPRequest) -> (r: Vec<u8>)
        ensures
            exists|res: HTTPResult| #[trigger]
                dispatched(self@, request, res) && r@ == encode_result(res),
            selected(self@, request.0@) is None ==> r@ == not_found_wire(),
    {
        let res = self.dispatch(request);
        let ghost answered = res;
        let out = match res {
            Ok(b) => b.to_response(),
            Err(b) => b.to_response(),
        };
        proof {
            if selected(self@, request.0@) is None {
                let b = answered->Err_0;
                assert(encode(*b) =~= not_found_wire());
            }
        }
        out
    }
}

impl<H> Default for Router<H> {
    fn default() -> (r: Self)
        ensures
            r@ == Seq::<RouteView<H>>::empty(),
    {
        Self::new()
    }
}

// ---------------------------------------------------------------------------
// Laws of the table
// ---------------------------------------------------------------------------

/// An empty table matches no request, so every request gets the 404
/// response.
pub proof fn lemma_empty_table<H: Handler>(request: HTTPRequest, r: HTTPResult)
    ensures
        selected(Seq::<RouteView<H>>::empty(), request.0@) is None,
        dispatched(Seq::<RouteView<H>>::empty(), request, r) ==> (r matches Err(b) && is_not_found(
            *b,
        )),
{
    lemma_first_from_none(Seq::<RouteView<H>>::empty(), 0, matching::<H>(request.0@));
}

/// Registration order is priority order: of two routes that both match, the
/// later one is never chosen, and the one chosen comes no later than the
/// earlier of the two.
pub proof fn lemma_first_registered_wins<H>(
    routes: Seq<RouteView<H>>,
    header: HeaderFields,
    a: int,
    b: int,
)
    requires
        0 <= a < b < routes.len(),
        route_matches(routes[a], header),
        route_matches(routes[b], header),
    ensures
        selected(routes, header) matches Some(i) && i <= a && i != b,
{
    lemma_first_from_sound(routes, 0, matching::<H>(header));
    assert(matching::<H>(header)(routes, a));
}

/// In a table of two routes that both match a request, the first route's
/// handler answers it and the second's is not consulted.
pub proof fn lemma_two_matching_routes<H: Handler>(
    x: RouteView<H>,
    y: RouteView<H>,
    request: HTTPRequest,
    r: HTTPResult,
)
    requires
        route_matches(x, request.0@),
        route_matches(y, request.0@),
    ensures
        selected(seq![x, y], request.0@) == Some(0int),
        dispatched(seq![x, y], request, r) == x.handler.answers(request, r),
{
    let routes = seq![x, y];
    assert(matching::<H>(request.0@)(routes, 0));
    lemma_first_from_found(routes, 0, matching::<H>(request.0@), 0);
}

/// Merging two tables keeps both priorities: a request goes to the first
/// table's first matching route, and only where none of the first table
/// matches to the second table's, placed after the first table's routes.
pub proof fn lemma_merged_tables<H>(
    first: Seq<RouteView<H>>,
    second: Seq<RouteView<H>>,
    header: HeaderFields,
)
    ensures
        selected(first + second, header) == match selected(first, header) {
            Some(i) => Some(i),
            None => match selected(second, header) {
                Some(j) => Some(first.len() + j),
                None => None,
            },
        },
{
    let all = first + second;
    let n = first.len() as int;
    let p = matching::<H>(header);
    lemma_first_from_sound(first, 0, p);
    lemma_first_from_sound(second, 0, p);
    assert forall|k: int| 0 <= k < n implies #[trigger] p(all, k) == p(first, k) by {
        assert(all[k] == first[k]);
    }
    assert forall|k: int| n <= k < all.len() implies #[trigger] p(all, k) == p(second, k - n) by {
        assert(all[k] == second[k - n]);
    }
    match selected(first, header) {
        Some(i) => {
            lemma_first_from_found(all, 0, p, i);
        },
        None => {
            assert(!p(first, n));
            match selected(second, header) {
                Some(j) => {
                    assert forall|k: int| 0 <= k < n + j implies !#[trigger] p(all, k) by {
                        if k >= n {
                            assert(p(all, k) == p(second, k - n));
                        }
                    }
                    lemma_first_from_found(all, 0, p, n + j);
                },
                None => {
                    assert forall|k: int| 0 <= k <= all.len() implies !#[trigger] p(all, k) by {
                        if n <= k < all.len() {
                            assert(p(all, k) == p(second, k - n));
                        }
                    }
                    lemma_first_from_none(all, 0, p);
                },
            }
        },
    }
}

} // verus!
