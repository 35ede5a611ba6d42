use vstd::prelude::*;

use crate::catalog::{Pack, PackView, pack_data, packs_view, spec_catalog, ids_unique};
use crate::json::{catalog_json, encode_catalog};

verus! {

/// The method of an HTTP request.
#[derive(Clone, Copy, Debug, PartialEq, Eq, Structural)]
pub enum Method {
    Get,
    Head,
    Post,
    Put,
    Delete,
    Patch,
    Options,
    Other,
}

/// What a route answers with.
#[derive(Clone, Copy, Debug, PartialEq, Eq, Structural)]
pub enum Handler {
    /// The fixed plain-text greeting.
    Greeting,
    /// The catalog, as a JSON array.
    Catalog,
}

/// The content type of a response body.
#[derive(Clone, Copy, Debug, PartialEq, Eq, Structural)]
pub enum ContentType {
    TextPlain,
    ApplicationJson,
    Unspecified,
}

/// One entry of the route table: a method, an exact path and a handler.
pub struct Route {
    pub method: Method,
    pub path: String,
    pub handler: Handler,
}

pub struct RouteView {
    pub method: Method,
    pub path: Seq<char>,
    pub handler: Handler,
}

impl View for Route {
    type V = RouteView;

    open spec fn view(&self) -> RouteView {
        RouteView { method: self.method, path: self.path@, handler: self.handler }
    }
}

/// A response: status, content type and body.
pub struct Response {
    pub status: u16,
    pub content_type: ContentType,
    pub body: String,
}

pub struct ResponseView {
    pub status: u16,
    pub content_type: ContentType,
    pub body: Seq<char>,
}

impl View for Response {
    type V = ResponseView;

    open spec fn view(&self) -> ResponseView {
        ResponseView { status: self.status, content_type: self.content_type, body: self.body@ }
    }
}

/// The composed route table together with the catalog that it serves.
pub struct Dispatcher {
    routes: Vec<Route>,
    catalog: Vec<Pack>,
}

pub struct DispatcherView {
    pub routes: Seq<RouteView>,
    pub catalog: Seq<PackView>,
}

impl View for Dispatcher {
    type V = DispatcherView;

    closed spec fn view(&self) -> DispatcherView {
        DispatcherView {
            routes: self.routes@.map_values(|r: Route| r@),
            catalog: packs_view(self.catalog@),
        }
    }
}

pub open spec fn greeting_text() -> Seq<char> {
    "Hello from backend!"@
}

pub open spec fn api_path() -> Seq<char> {
    "/api"@
}

pub open spec fn packs_path() -> Seq<char> {
    "/api/packs"@
}

/// The route table that the service declares.
pub open spec fn spec_route_table() -> Seq<RouteView> {
    seq![
        RouteView { method: Method::Get, path: api_path(), handler: Handler::Greeting },
        RouteView { method: Method::Get, path: packs_path(), handler: Handler::Catalog },
    ]
}

pub open spec fn route_matches(r: RouteView, m: Method, path: Seq<char>) -> bool {
    r.method == m && r.path == path
}

/// The index of the first route of `t` that matches, if any.
pub open spec fn first_match(t: Seq<RouteView>, m: Method, path: Seq<char>) -> Option<nat>
    decreases t.len(),
{
    if t.len() == 0 {
        None
    } else {
        match first_match(t.drop_last(), m, path) {
            Some(i) => Some(i),
            None => if route_matches(t.last(), m, path) {
                Some((t.len() - 1) as nat)
            } else {
                None
            },
        }
    }
}

/// What a handler answers with, given the catalog.
pub open spec fn handler_response(h: Handler, catalog: Seq<PackView>) -> ResponseView {
    match h {
        Handler::Greeting => ResponseView {
            status: 200,
            content_type: ContentType::TextPlain,
            body: greeting_text(),
        },
        Handler::Catalog => ResponseView {
            status: 200,
            content_type: ContentType::ApplicationJson,
            body: catalog_json(catalog),
        },
    }
}

/// The answer when no route matches.
pub open spec fn not_found() -> ResponseView {
    ResponseView { status: 404, content_type: ContentType::Unspecified, body: Seq::empty() }
}

/// The outcome of dispatch: the matching route's response, or no match.
pub open spec fn dispatch_spec(d: DispatcherView, m: Method, path: Seq<char>) -> Option<ResponseView> {
    match first_match(d.routes, m, path) {
        Some(i) => Some(handler_response(d.routes[i as int].handler, d.catalog)),
        None => None,
    }
}

/// The response sent for a request: the dispatch result, or "not found".
pub open spec fn respond_spec(d: DispatcherView, m: Method, path: Seq<char>) -> ResponseView {
    match dispatch_spec(d, m, path) {
        Some(r) => r,
        None => not_found(),
    }
}

/// Compares two strings character by character.
fn same_text(a: &str, b: &str) -> (r: bool)
    ensures
        r == (a@ == b@),
{
    let n: usize = a.unicode_len();
    if n != b.unicode_len() {
        return false;
    }
    let mut i: usize = 0;
    while i < n
        invariant
            n == a@.len(),
            n == b@.len(),
            i <= n,
            forall|k: int| 0 <= k < i ==> a@[k] == b@[k],
        decreases n - i,
    {
        if a.get_char(i) != b.get_char(i) {
            return false;
        }
        i = i + 1;
    }
    assert(a@ =~= b@);
    true
}

proof fn lemma_first_match_bound(t: Seq<RouteView>, m: Method, path: Seq<char>)
    ensures
        first_match(t, m, path) matches Some(i) ==> i < t.len() && route_matches(t[i as int], m, path),
        first_match(t, m, path) matches Some(i) ==> forall|k: int| 0 <= k < i ==> !route_matches(t[k], m, path),
        first_match(t, m, path) is None ==> forall|k: int| 0 <= k < t.len() ==> !route_matches(t[k], m, path),
    decreases t.len(),
{
    if t.len() > 0 {
        let u = t.drop_last();
        lemma_first_match_bound(u, m, path);
        assert(forall|k: int| 0 <= k < u.len() ==> u[k] == t[k]);
    }
}

/// Builds the route table: `GET /api` answers with the greeting and
/// `GET /api/packs` with the catalog.
pub fn routes() -> (d: Dispatcher)
    ensures
        d.wf(),
        d@.routes == spec_route_table(),
        d@.catalog == spec_catalog(),
{
    let mut t: Vec<Route> = Vec::new();
    t.push(Route { method: Method::Get, path: String::from_str("/api"), handler: Handler::Greeting });
    t.push(Route { method: Method::Get, path: String::from_str("/api/packs"), handler: Handler::Catalog });
    let d = Dispatcher { routes: t, catalog: pack_data() };
    assert(d@.routes =~= spec_route_table());
    d
}

impl Dispatcher {
    /// The catalog's identifiers are unique.
    pub open spec fn wf(&self) -> bool {
        ids_unique(self@.catalog)
    }

    /// Adds a route after the others: it answers only where none of them matches.
    pub fn or(self, r: Route) -> (d: Dispatcher)
        ensures
            d@.routes == self@.routes.push(r@),
            d@.catalog == self@.catalog,
            d.wf() == self.wf(),
    {
        let mut routes = self.routes;
        routes.push(r);
        let d = Dispatcher { routes, catalog: self.catalog };
        assert(d@.routes =~= self@.routes.push(r@));
        d
    }

    /// The index of the first route that matches the request, if any.
    pub fn find_route(&self, m: Method, path: &str) -> (r: Option<usize>)
        ensures
            r matches Some(i) ==> first_match(self@.routes, m, path@) == Some(i as nat),
            r is None ==> first_match(self@.routes, m, path@) is None,
    {
        let mut i: usize = 0;
        while i < self.routes.len()
            invariant
                i <= self.routes.len(),
                first_match(self@.routes.subrange(0, i as int), m, path@) is None,
            decreases self.routes.len() - i,
        {
            let r = &self.routes[i];
            let hit = r.method == m && same_text(r.path.as_str(), path);
            let ghost t = self@.routes.subrange(0, i + 1);
            assert(t.drop_last() =~= self@.routes.subrange(0, i as int));
            assert(t.last() == self@.routes[i as int]);
            if hit {
                proof {
                    lemma_first_match_prefix(self@.routes, i as int + 1, m, path@);
                }
                return Some(i);
            }
            i = i + 1;
        }
        assert(self@.routes.subrange(0, i as int) =~= self@.routes);
        None
    }

    /// Evaluates the request against the table: the first matching route's
    /// response, or `None` where no route matches.
    pub fn dispatch(&self, m: Method, path: &str) -> (r: Option<Response>)
        ensures
            r matches Some(x) ==> dispatch_spec(self@, m, path@) == Some(x@),
            r is None ==> dispatch_spec(self@, m, path@) is None,
    {
        match self.find_route(m, path) {
            Some(i) => {
                proof {
                    lemma_first_match_bound(self@.routes, m, path@);
                }
                match self.routes[i].handler {
                    Handler::Greeting => Some(Response {
                        status: 200,
                        content_type: ContentType::TextPlain,
                        body: String::from_str("Hello from backend!"),
                    }),
                    Handler::Catalog => Some(Response {
                        status: 200,
                        content_type: ContentType::ApplicationJson,
                        body: encode_catalog(&self.catalog),
                    }),
                }
            },
            None => None,
        }
    }

    /// The response sent for a request: that of the first matching route,
    /// or an empty 404 where none matches.
    pub fn respond(&self, m: Method, path: &str) -> (r: Response)
        ensures
            r@ == respond_spec(self@, m, path@),
    {
        match self.dispatch(m, path) {
            Some(x) => x,
            None => Response { status: 404, content_type: ContentType::Unspecified, body: String::new() },
        }
    }
}

proof fn lemma_first_match_prefix(t: Seq<RouteView>, n: int, m: Method, path: Seq<char>)
    requires
        0 < n <= t.len(),
        first_match(t.subrange(0, n - 1), m, path) is None,
        route_matches(t[n - 1], m, path),
    ensures
        first_match(t, m, path) == Some((n - 1) as nat),
    decreases t.len(),
{
    let p = t.subrange(0, n);
    assert(p.drop_last() =~= t.subrange(0, n - 1));
    if n < t.len() {
        assert(t.drop_last().subrange(0, n - 1) =~= t.subrange(0, n - 1));
        lemma_first_match_prefix(t.drop_last(), n, m, path);
    } else {
        assert(t.drop_last() =~= t.subrange(0, n - 1));
    }
}

/// The declared table's lookup: `GET /api` hits the first route,
/// `GET /api/packs` the second, and nothing else hits any.
proof fn lemma_table_lookup(m: Method, path: Seq<char>)
    ensures
        first_match(spec_route_table(), m, path) == if m == Method::Get && path == api_path() {
            Some(0nat)
        } else if m == Method::Get && path == packs_path() {
            Some(1nat)
        } else {
            None
        },
{
    let t = spec_route_table();
    let t1 = t.drop_last();
    assert(t1 =~= seq![t[0]]);
    assert(t1.drop_last() =~= Seq::<RouteView>::empty());
    assert(first_match(t1.drop_last(), m, path) is None);
    assert(first_match(t1, m, path) == if route_matches(t[0], m, path) {
        Some(0nat)
    } else {
        None::<nat>
    });
}

proof fn lemma_paths_differ()
    ensures
        api_path() != packs_path(),
{
    reveal_strlit("/api");
    reveal_strlit("/api/packs");
    assert(api_path().len() != packs_path().len());
}

proof fn lemma_bodies_differ(c: Seq<PackView>)
    ensures
        greeting_text() != catalog_json(c),
{
    reveal_strlit("Hello from backend!");
    reveal_strlit("[");
    assert(greeting_text()[0] == 'H');
    assert(catalog_json(c)[0] == '[');
}

/// Routing is path-exact: `GET /api` answers with the greeting and never the
/// catalog, and `GET /api/packs` answers with the catalog and never the
/// greeting.
pub proof fn lemma_disjoint_routing(d: Dispatcher)
    requires
        d@.routes == spec_route_table(),
        d@.catalog == spec_catalog(),
    ensures
        respond_spec(d@, Method::Get, api_path()).body == greeting_text(),
        respond_spec(d@, Method::Get, api_path()).body != catalog_json(spec_catalog()),
        respond_spec(d@, Method::Get, packs_path()).body == catalog_json(spec_catalog()),
        respond_spec(d@, Method::Get, packs_path()).body != greeting_text(),
{
    lemma_paths_differ();
    lemma_table_lookup(Method::Get, api_path());
    lemma_table_lookup(Method::Get, packs_path());
    lemma_bodies_differ(spec_catalog());
}

/// Every request other than `GET /api` and `GET /api/packs` gets a 404 with
/// an empty body, so no catalog data.
pub proof fn lemma_unmatched_not_found(d: Dispatcher, m: Method, path: Seq<char>)
    requires
        d@.routes == spec_route_table(),
        d@.catalog == spec_catalog(),
        !(m == Method::Get && (path == api_path() || path == packs_path())),
    ensures
        dispatch_spec(d@, m, path) is None,
        respond_spec(d@, m, path) == not_found(),
        respond_spec(d@, m, path).status == 404,
        respond_spec(d@, m, path).body.len() == 0,
{
    lemma_table_lookup(m, path);
}

/// Any number of `GET /api/packs` requests all get the same response: status
/// 200 and the JSON array of the catalog's entries, in order. Answering takes
/// the dispatcher by shared reference, so no request changes it.
pub proof fn lemma_catalog_responses_identical(d: Dispatcher, reqs: Seq<(Method, Seq<char>)>)
    requires
        d@.routes == spec_route_table(),
        d@.catalog == spec_catalog(),
        forall|i: int| 0 <= i < reqs.len() ==> reqs[i] == (Method::Get, packs_path()),
    ensures
        forall|i: int| 0 <= i < reqs.len() ==> respond_spec(d@, (#[trigger] reqs[i]).0, reqs[i].1) == (ResponseView {
            status: 200,
            content_type: ContentType::ApplicationJson,
            body: catalog_json(spec_catalog()),
        }),
        forall|i: int, j: int| 0 <= i < reqs.len() && 0 <= j < reqs.len() ==>
            respond_spec(d@, (#[trigger] reqs[i]).0, reqs[i].1) == respond_spec(d@, (#[trigger] reqs[j]).0, reqs[j].1),
{
    lemma_paths_differ();
    lemma_table_lookup(Method::Get, packs_path());
}

} // verus!
