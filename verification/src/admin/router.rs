//! The dashboard's routes: which handler answers which path.

use vstd::prelude::*;

use crate::router::{
    catch_all_at, catch_all_covers, insert_error_text, is_catch_all_route, is_lone_empty,
    is_static_route, lemma_param_opens_len, param_opens, pattern_admits, route_match, route_table, router_at, wildcard_parents,
    router_insert, router_new,
};
use crate::text::str_eq;

verus! {

/// The handlers of the dashboard.
pub enum AdminEndpoint {
    /// The process's system statistics, as JSON.
    StatsSystem,
    /// The installed plugins, as JSON.
    StatsPlugins,
    /// The log (not implemented: answered with status 501).
    StatsLogs,
    /// The stream of system statistics, as server-sent events.
    StatsSse,
    /// The embedded web assets.
    Web,
}

/// The name under which a handler is recorded in the router.
pub open spec fn endpoint_name(e: AdminEndpoint) -> Seq<char> {
    match e {
        AdminEndpoint::StatsSystem => "stats-system"@,
        AdminEndpoint::StatsPlugins => "stats-plugins"@,
        AdminEndpoint::StatsLogs => "stats-logs"@,
        AdminEndpoint::StatsSse => "stats-sse"@,
        AdminEndpoint::Web => "web"@,
    }
}

/// The handler recorded under a name.
pub open spec fn endpoint_named(name: Seq<char>) -> Option<AdminEndpoint> {
    if name == "stats-system"@ {
        Some(AdminEndpoint::StatsSystem)
    } else if name == "stats-plugins"@ {
        Some(AdminEndpoint::StatsPlugins)
    } else if name == "stats-logs"@ {
        Some(AdminEndpoint::StatsLogs)
    } else if name == "stats-sse"@ {
        Some(AdminEndpoint::StatsSse)
    } else if name == "web"@ {
        Some(AdminEndpoint::Web)
    } else {
        None
    }
}

fn endpoint_name_text(e: &AdminEndpoint) -> (name: String)
    ensures
        name@ == endpoint_name(*e),
{
    match e {
        AdminEndpoint::StatsSystem => "stats-system".to_owned(),
        AdminEndpoint::StatsPlugins => "stats-plugins".to_owned(),
        AdminEndpoint::StatsLogs => "stats-logs".to_owned(),
        AdminEndpoint::StatsSse => "stats-sse".to_owned(),
        AdminEndpoint::Web => "web".to_owned(),
    }
}

fn endpoint_from_name(name: &str) -> (e: Option<AdminEndpoint>)
    ensures
        e == endpoint_named(name@),
{
    if str_eq(name, "stats-system") {
        Some(AdminEndpoint::StatsSystem)
    } else if str_eq(name, "stats-plugins") {
        Some(AdminEndpoint::StatsPlugins)
    } else if str_eq(name, "stats-logs") {
        Some(AdminEndpoint::StatsLogs)
    } else if str_eq(name, "stats-sse") {
        Some(AdminEndpoint::StatsSse)
    } else if str_eq(name, "web") {
        Some(AdminEndpoint::Web)
    } else {
        None
    }
}

/// The dashboard's router: route patterns with the handler that answers.
/// Every route leads to a handler.
pub struct AdminRouter {
    inner: matchit::Router<String>,
}

/// The dashboard's routes: the four statistics endpoints, then the web
/// assets for every other path and for `/`.
pub open spec fn dashboard_routes() -> Map<Seq<char>, Seq<char>> {
    Map::<Seq<char>, Seq<char>>::empty().insert("/api/stats/system"@, "stats-system"@).insert(
        "/api/stats/plugins"@,
        "stats-plugins"@,
    ).insert("/api/stats/logs"@, "stats-logs"@).insert("/api/stats/sse"@, "stats-sse"@).insert(
        "/{*path}"@,
        "web"@,
    ).insert("/"@, "web"@)
}

/// The handler that the dashboard's routes give a path: each statistics
/// endpoint its own, the web assets every other path that starts with `/`,
/// and none to a path that does not.
pub open spec fn dashboard_endpoint(path: Seq<char>) -> Option<AdminEndpoint> {
    if path == "/api/stats/system"@ {
        Some(AdminEndpoint::StatsSystem)
    } else if path == "/api/stats/plugins"@ {
        Some(AdminEndpoint::StatsPlugins)
    } else if path == "/api/stats/logs"@ {
        Some(AdminEndpoint::StatsLogs)
    } else if path == "/api/stats/sse"@ {
        Some(AdminEndpoint::StatsSse)
    } else if path.len() > 0 && path[0] == '/' {
        Some(AdminEndpoint::Web)
    } else {
        None
    }
}

/// An optional string as an optional text.
pub open spec fn text_option(o: Option<String>) -> Option<Seq<char>> {
    match o {
        Some(v) => Some(v@),
        None => None,
    }
}

proof fn lemma_literals()
    ensures
        "/api/stats/system"@.len() == 17,
        "/api/stats/plugins"@.len() == 18,
        "/api/stats/logs"@.len() == 15,
        "/api/stats/sse"@.len() == 14,
        "/{*path}"@.len() == 8,
        "/"@.len() == 1,
        "/api/stats/plugins"@ != "/api/stats/system"@,
        "/api/stats/sse"@ != "/api/stats/logs"@,
        "/api/stats/system"@[0] == '/',
        "/api/stats/plugins"@[0] == '/',
        "/api/stats/logs"@[0] == '/',
        "/api/stats/sse"@[0] == '/',
        "/"@[0] == '/',
        is_static_route("/api/stats/system"@),
        is_static_route("/api/stats/plugins"@),
        is_static_route("/api/stats/logs"@),
        is_static_route("/api/stats/sse"@),
        is_static_route("/"@),
        !is_static_route("/{*path}"@),
        catch_all_at("/{*path}"@, 1),
        "/{*path}"@.take(1) == "/"@,
{
    reveal_strlit("/api/stats/system");
    reveal_strlit("/api/stats/plugins");
    reveal_strlit("/api/stats/logs");
    reveal_strlit("/api/stats/sse");
    reveal_strlit("/{*path}");
    reveal_strlit("/");
    assert("/api/stats/plugins"@[11] != "/api/stats/system"@[11]);
    assert("/api/stats/sse"@[12] != "/api/stats/logs"@[12]);
    assert("/{*path}"@[1] == '{');
    assert("/{*path}"@.take(1) =~= "/"@);
}

/// What the dashboard's router finds for `path`, from what the router
/// promises of a lookup, is the handler of [`dashboard_endpoint`].
proof fn lemma_dashboard_match(routes: Map<Seq<char>, Seq<char>>, path: Seq<char>, found: Option<Seq<char>>)
    requires
        routes == dashboard_routes(),
        routes.contains_key(path) && is_static_route(path) ==> found == Some(routes[path]),
        forall|k: Seq<char>| #[trigger] routes.contains_key(k) && catch_all_covers(k, path) ==> found is Some,
        found matches Some(v) ==> exists|k: Seq<char>| #[trigger] routes.contains_key(k) && routes[k] == v
            && pattern_admits(k, path),
    ensures
        match found {
            Some(v) => endpoint_named(v),
            None => None,
        } == dashboard_endpoint(path),
{
    lemma_literals();
    reveal_strlit("stats-system");
    reveal_strlit("stats-plugins");
    reveal_strlit("stats-logs");
    reveal_strlit("stats-sse");
    reveal_strlit("web");
    let c = "/{*path}"@;
    assert("web"@.len() == 3 && "stats-system"@.len() == 12 && "stats-plugins"@.len() == 13
        && "stats-logs"@.len() == 10 && "stats-sse"@.len() == 9);
    assert(endpoint_named("web"@) == Some(AdminEndpoint::Web));
    assert(endpoint_named("stats-system"@) == Some(AdminEndpoint::StatsSystem));
    assert(endpoint_named("stats-plugins"@) == Some(AdminEndpoint::StatsPlugins));
    assert(endpoint_named("stats-logs"@) == Some(AdminEndpoint::StatsLogs));
    assert(endpoint_named("stats-sse"@) == Some(AdminEndpoint::StatsSse));
    assert(routes.contains_key(c));
    let is_stats = path == "/api/stats/system"@ || path == "/api/stats/plugins"@ || path
        == "/api/stats/logs"@ || path == "/api/stats/sse"@;
    if is_stats || path == "/"@ {
        assert(routes.contains_key(path) && is_static_route(path));
        assert(found == Some(routes[path]));
    } else if path.len() > 1 && path[0] == '/' {
        assert(path.take(1) =~= c.take(1));
        assert(catch_all_covers(c, path));
        assert(found is Some);
        let v = found->Some_0;
        let k = choose|k: Seq<char>| #[trigger] routes.contains_key(k) && routes[k] == v && pattern_admits(k, path);
        assert(k == c) by {
            if k != c {
                assert(is_static_route(k));
                assert(k == path);
            }
        }
        assert(v == "web"@);
    } else {
        if path.len() == 1 && path[0] == '/' {
            assert(path =~= "/"@);
        }
        if found is Some {
            let v = found->Some_0;
            let k = choose|k: Seq<char>| #[trigger] routes.contains_key(k) && routes[k] == v && pattern_admits(k, path);
            if k == c {
                assert(is_catch_all_route(c));
                let n = choose|n: int| #[trigger] catch_all_at(c, n) && n < path.len() && path.take(n) == c.take(n);
                if n != 1 {
                    assert(c[n] == '{');
                    assert(c.take(n)[0] == '/');
                }
                assert(path.take(1)[0] == '/');
                assert(false);
            } else {
                assert(is_static_route(k));
                assert(k == path);
                assert(false);
            }
        }
    }
}

impl AdminRouter {
    /// The route patterns with the names of their handlers.
    pub closed spec fn routes(&self) -> Map<Seq<char>, Seq<char>> {
        route_table(self.inner)
    }

    /// The paths at which the router holds a parameter or catch-all
    /// segment.
    pub closed spec fn wildcard_parents(&self) -> Set<Seq<char>> {
        wildcard_parents(self.inner)
    }

    #[verifier::type_invariant]
    spec fn well_formed(&self) -> bool {
        forall|k: Seq<char>| #[trigger] self.routes().contains_key(k) ==> endpoint_named(self.routes()[k]) is Some
    }

    /// A router without routes.
    pub fn new() -> (r: AdminRouter)
        ensures
            r.routes().dom() == Set::<Seq<char>>::empty(),
            r.wildcard_parents() == Set::<Seq<char>>::empty(),
    {
        AdminRouter { inner: router_new() }
    }

    /// The router with one more route. When the router refuses the pattern
    /// (it conflicts with a route it has, or is malformed), the error text
    /// is returned; the dashboard cannot start then. A static pattern that
    /// the router does not have yet is always taken, and so is a catch-all
    /// pattern while the router has no parameter or catch-all segment at its
    /// static prefix.
    pub fn route(self, path: &str, handler: AdminEndpoint) -> (r: Result<AdminRouter, String>)
        requires
            param_opens(path@) <= 25,
        ensures
            r matches Ok(router) ==> (!is_lone_empty(self.routes()) ==> {
                &&& !self.routes().contains_key(path@)
                &&& router.routes() == self.routes().insert(path@, endpoint_name(handler))
            }),
            r matches Ok(router) ==> (is_static_route(path@) ==> router.wildcard_parents()
                == self.wildcard_parents()),
            r matches Ok(router) ==> forall|n: int| #[trigger] catch_all_at(path@, n)
                ==> router.wildcard_parents() == self.wildcard_parents().insert(path@.take(n)),
            is_static_route(path@) && !self.routes().contains_key(path@) ==> r is Ok,
            forall|n: int| #[trigger] catch_all_at(path@, n) && !self.wildcard_parents().contains(
                path@.take(n),
            ) ==> r is Ok,
    {
        proof {
            use_type_invariant(&self);
        }
        let mut inner = self.inner;
        let name = endpoint_name_text(&handler);
        let ghost before = route_table(inner);
        match router_insert(&mut inner, path.to_owned(), name) {
            Ok(()) => {
                proof {
                    assert(endpoint_named(endpoint_name(handler)) is Some);
                    assert forall|k: Seq<char>| #[trigger] route_table(inner).contains_key(k) implies endpoint_named(
                        route_table(inner)[k],
                    ) is Some by {
                        if route_table(inner)[k] != endpoint_name(handler) {
                            let j = choose|j: Seq<char>| #[trigger] before.contains_key(j) && before[j]
                                == route_table(inner)[k];
                        }
                    }
                }
                let router = AdminRouter { inner };
                Ok(router)
            },
            Err(e) => Err(insert_error_text(&e)),
        }
    }

    /// The handler that answers `path`; `None` when no route matches, and
    /// the dashboard answers 404. The handler is the one registered for a
    /// pattern that admits the path, and a path that a catch-all pattern
    /// covers always finds one. On the dashboard's own routes, that is the
    /// handler of [`dashboard_endpoint`].
    pub fn handle(&self, path: &str) -> (e: Option<AdminEndpoint>)
        ensures
            e == match route_match(self.routes(), path@) {
                Some(name) => endpoint_named(name),
                None => None,
            },
            self.routes() == dashboard_routes() ==> e == dashboard_endpoint(path@),
            e matches Some(h) ==> exists|k: Seq<char>| #[trigger] self.routes().contains_key(k)
                && endpoint_named(self.routes()[k]) == Some(h) && pattern_admits(k, path@),
            forall|k: Seq<char>| #[trigger] self.routes().contains_key(k) && catch_all_covers(k, path@)
                ==> e is Some,
    {
        proof {
            use_type_invariant(self);
        }
        let found = router_at(&self.inner, path);
        proof {
            if self.routes() == dashboard_routes() {
                lemma_dashboard_match(
                    self.routes(),
                    path@,
                    text_option(found),
                );
            }
        }
        match found {
            Some(name) => endpoint_from_name(name.as_str()),
            None => None,
        }
    }
}

/// The dashboard's routes (see [`dashboard_routes`]); building them always
/// succeeds.
pub fn admin_router() -> (r: Result<AdminRouter, String>)
    ensures
        r is Ok,
        r matches Ok(router) ==> router.routes() == dashboard_routes(),
{
    proof {
        lemma_literals();
        lemma_param_opens_len("/api/stats/system"@);
        lemma_param_opens_len("/api/stats/plugins"@);
        lemma_param_opens_len("/api/stats/logs"@);
        lemma_param_opens_len("/api/stats/sse"@);
        lemma_param_opens_len("/{*path}"@);
        lemma_param_opens_len("/"@);
    }
    let router = AdminRouter::new();
    assert(router.routes() =~= Map::<Seq<char>, Seq<char>>::empty());
    assert(Set::<Seq<char>>::empty().insert(Seq::<char>::empty()).contains(Seq::<char>::empty()));
    assert(!is_lone_empty(router.routes()));
    let router = router.route("/api/stats/system", AdminEndpoint::StatsSystem)?;
    let router = router.route("/api/stats/plugins", AdminEndpoint::StatsPlugins)?;
    let router = router.route("/api/stats/logs", AdminEndpoint::StatsLogs)?;
    let router = router.route("/api/stats/sse", AdminEndpoint::StatsSse)?;
    assert(catch_all_at("/{*path}"@, 1));
    let router = router.route("/{*path}", AdminEndpoint::Web)?;
    let router = router.route("/", AdminEndpoint::Web)?;
    assert(router.routes() =~= dashboard_routes());
    Ok(router)
}

} // verus!
