//! The routes of the stack: each plugin serves its endpoint and everything
//! below it.

use vstd::prelude::*;


use crate::router::{
    catch_all_at, catch_all_covers, insert_error_text, is_static_route, lemma_param_opens_catch_all_suffix,
    is_catch_all_route, lemma_param_opens_concat, longest_cover, param_opens,
    pattern_admits, route_match, route_table, router_at, router_insert, router_new,
    static_or_catch_all, wildcard_parents,
};
use crate::text::{ends_with_char, push_char};

verus! {

/// The base URL of an endpoint: the endpoint with a trailing `/`.
pub open spec fn base_url(endpoint: Seq<char>) -> Seq<char> {
    if endpoint.len() > 0 && endpoint.last() == '/' {
        endpoint
    } else {
        endpoint.push('/')
    }
}

/// The route that catches every path below an endpoint.
pub open spec fn catchall_route(endpoint: Seq<char>) -> Seq<char> {
    base_url(endpoint) + "{*path}"@
}

/// The base URL and the catch-all route of a plugin's endpoint.
pub fn plugin_routes(endpoint: &str) -> (routes: (String, String))
    ensures
        routes.0@ == base_url(endpoint@),
        routes.1@ == catchall_route(endpoint@),
{
    let mut base = endpoint.to_owned();
    if !ends_with_char(endpoint, '/') {
        push_char(&mut base, '/');
    }
    let mut catchall = base.clone();
    catchall.append("{*path}");
    (base, catchall)
}

/// Why a plugin was not given its routes.
pub enum RegisterError {
    /// Its base URL is already handled by another plugin; the plugin is
    /// left out and the others are served.
    AlreadyHandled,
    /// The router refused a route; loading the stack fails, with the
    /// router's error text.
    Insert(String),
}

/// The catch-all route of a static base URL is a catch-all whose static
/// prefix is that base URL.
proof fn lemma_catchall_of_static(endpoint: Seq<char>)
    requires
        is_static_route(base_url(endpoint)),
    ensures
        base_url(endpoint).len() > 0,
        catch_all_at(catchall_route(endpoint), base_url(endpoint).len() as int),
        catchall_route(endpoint).take(base_url(endpoint).len() as int) == base_url(endpoint),
{
    reveal_strlit("{*path}");
    let b = base_url(endpoint);
    let c = catchall_route(endpoint);
    assert(c.take(b.len() as int) =~= b);
    assert(c[b.len() as int] == '{');
    assert(c[(b.len() + 1) as int] == '*');
}

/// The base URL and the catch-all route of an endpoint open as many named
/// parameters as the endpoint.
proof fn lemma_route_opens(endpoint: Seq<char>)
    ensures
        param_opens(base_url(endpoint)) == param_opens(endpoint),
        param_opens(catchall_route(endpoint)) == param_opens(endpoint),
{
    let b = base_url(endpoint);
    if !(endpoint.len() > 0 && endpoint.last() == '/') {
        assert(endpoint.push('/') =~= endpoint + seq!['/']);
        lemma_param_opens_concat(endpoint, seq!['/']);
        assert(param_opens(seq!['/']) == 0) by {
            assert(seq!['/'].drop_first() =~= Seq::<char>::empty());
            assert(param_opens(Seq::<char>::empty()) == 0);
        }
    }
    assert(b.last() == '/');
    lemma_param_opens_catch_all_suffix();
    reveal_strlit("{*path}");
    lemma_param_opens_concat(b, "{*path}"@);
}

/// Whether an endpoint opens few enough named parameters (at most 25) for
/// the router to take its routes.
pub fn endpoint_params_ok(endpoint: &str) -> (ok: bool)
    ensures
        ok == (param_opens(endpoint@) <= 25),
{
    let chars = crate::text::to_chars(endpoint);
    let n = chars.len();
    let mut count: usize = 0;
    let mut i: usize = n;
    assert(chars@.skip(n as int) =~= Seq::<char>::empty());
    while i > 0
        invariant
            chars@ == endpoint@,
            n == chars@.len(),
            i <= n,
            count as nat == param_opens(chars@.skip(i as int)),
            count <= n - i,
        decreases i,
    {
        let ghost rest = chars@.skip(i as int);
        i = i - 1;
        assert(chars@.skip(i as int).drop_first() =~= rest);
        if chars[i] == '{' && !(i + 1 < n && chars[i + 1] == '*') {
            count = count + 1;
        }
    }
    assert(chars@.skip(0) =~= chars@);
    count <= 25
}

/// The routes of a stack: which plugin serves which paths. The empty
/// pattern is never among them.
pub struct PluginRouter {
    router: matchit::Router<String>,
}

impl PluginRouter {
    /// The routes that this router holds, with the plugin that each leads to.
    pub closed spec fn routes(&self) -> Map<Seq<char>, Seq<char>> {
        route_table(self.router)
    }

    /// The paths at which the router holds a parameter or catch-all
    /// segment.
    pub closed spec fn wildcard_parents(&self) -> Set<Seq<char>> {
        wildcard_parents(self.router)
    }

    #[verifier::type_invariant]
    spec fn no_empty_route(&self) -> bool {
        !self.routes().contains_key(Seq::<char>::empty())
    }

    /// The plugin that a path is routed to.
    pub open spec fn target(&self, path: Seq<char>) -> Option<Seq<char>> {
        route_match(self.routes(), path)
    }

    /// A router without routes.
    pub fn new() -> (r: PluginRouter)
        ensures
            r.routes() == Map::<Seq<char>, Seq<char>>::empty(),
            r.wildcard_parents() == Set::<Seq<char>>::empty(),
    {
        let router = router_new();
        assert(route_table(router) =~= Map::<Seq<char>, Seq<char>>::empty());
        PluginRouter { router }
    }

    /// The plugin that serves `path`, if any: a path that is a static route
    /// goes to that route's plugin, a path below the base URL of a catch-all
    /// route goes to some plugin, and the plugin found is that of a route
    /// that admits the path. When every route is static or a catch-all, a
    /// path that is not itself a route goes to the plugin whose catch-all
    /// covers it with the longest base URL.
    pub fn plugin_for(&self, path: &str) -> (id: Option<String>)
        ensures
            match id {
                Some(i) => self.target(path@) == Some(i@),
                None => self.target(path@) is None,
            },
            self.routes().contains_key(path@) && is_static_route(path@) ==> self.target(path@)
                == Some(self.routes()[path@]),
            forall|k: Seq<char>| #[trigger] self.routes().contains_key(k) && catch_all_covers(k, path@)
                ==> id is Some,
            id matches Some(i) ==> exists|k: Seq<char>| #[trigger] self.routes().contains_key(k)
                && self.routes()[k] == i@ && pattern_admits(k, path@),
            static_or_catch_all(self.routes()) && !(self.routes().contains_key(path@)
                && is_static_route(path@)) ==> (id matches Some(i) ==> exists|k: Seq<char>|
                #[trigger] longest_cover(self.routes(), k, path@) && self.routes()[k] == i@),
    {
        router_at(&self.router, path)
    }

    /// Gives the plugin `id` its endpoint: its base URL and everything below
    /// it. When a path of that form is already routed to a plugin, the
    /// plugin is refused and the routes are kept. The router refuses the
    /// routes only when the base URL holds parameter braces or already holds
    /// a parameter or catch-all segment.
    pub fn register(&mut self, id: &str, endpoint: &str) -> (r: Result<(), RegisterError>)
        requires
            param_opens(endpoint@) <= 25,
        ensures
            match r {
                Ok(()) => {
                    &&& old(self).target(base_url(endpoint@)) is None
                    &&& old(self).target(catchall_route(endpoint@)) is None
                    &&& !old(self).routes().contains_key(base_url(endpoint@))
                    &&& !old(self).routes().contains_key(catchall_route(endpoint@))
                    &&& final(self).routes() == old(self).routes().insert(
                        base_url(endpoint@),
                        id@,
                    ).insert(catchall_route(endpoint@), id@)
                },
                Err(RegisterError::AlreadyHandled) => {
                    &&& (old(self).target(base_url(endpoint@)) is Some || old(self).target(
                        catchall_route(endpoint@),
                    ) is Some)
                    &&& final(self).routes() == old(self).routes()
                    &&& final(self).wildcard_parents() == old(self).wildcard_parents()
                },
                Err(RegisterError::Insert(_)) => {
                    &&& old(self).target(base_url(endpoint@)) is None
                    &&& old(self).target(catchall_route(endpoint@)) is None
                    &&& (!is_static_route(base_url(endpoint@)) || old(self).wildcard_parents().contains(
                        base_url(endpoint@),
                    ))
                    &&& (is_static_route(base_url(endpoint@)) ==> !old(self).routes().contains_key(
                        base_url(endpoint@),
                    ))
                    &&& (final(self).routes() == old(self).routes() || final(self).routes()
                        == old(self).routes().insert(base_url(endpoint@), id@))
                },
            },
            r is Ok && is_static_route(base_url(endpoint@)) ==> final(self).wildcard_parents()
                == old(self).wildcard_parents().insert(base_url(endpoint@)),
    {
        proof {
            use_type_invariant(&*self);
        }
        let ghost old_routes = route_table(self.router);
        let ghost old_parents = wildcard_parents(self.router);
        let (base, catchall) = plugin_routes(endpoint);
        proof {
            reveal_strlit("{*path}");
            assert(base@.len() > 0);
            assert(catchall@.len() > 0);
            assert(catchall@.len() > base@.len());
            lemma_route_opens(endpoint@);
            assert(old_routes.dom() != Set::<Seq<char>>::empty().insert(Seq::<char>::empty())) by {
                assert(!old_routes.dom().contains(Seq::<char>::empty()));
                assert(Set::<Seq<char>>::empty().insert(Seq::<char>::empty()).contains(
                    Seq::<char>::empty(),
                ));
            }
        }
        if router_at(&self.router, base.as_str()).is_some() || router_at(
            &self.router,
            catchall.as_str(),
        ).is_some() {
            return Err(RegisterError::AlreadyHandled);
        }
        let mut router = router_new();
        std::mem::swap(&mut router, &mut self.router);
        if let Err(e) = router_insert(&mut router, base, id.to_owned()) {
            self.router = router;
            return Err(RegisterError::Insert(insert_error_text(&e)));
        }
        proof {
            if is_static_route(base_url(endpoint@)) {
                lemma_catchall_of_static(endpoint@);
            }
            let t = route_table(router);
            assert(t.contains_key(base_url(endpoint@)));
            assert(t.dom() != Set::<Seq<char>>::empty().insert(Seq::<char>::empty())) by {
                if t.dom() == Set::<Seq<char>>::empty().insert(Seq::<char>::empty()) {
                    assert(t.dom().contains(base_url(endpoint@)));
                }
            }
        }
        let inserted = router_insert(&mut router, catchall, id.to_owned());
        self.router = router;
        if let Err(e) = inserted {
            return Err(RegisterError::Insert(insert_error_text(&e)));
        }
        Ok(())
    }
}

/// The routes of a stack's plugins, and which plugins were given theirs.
pub struct Routing {
    pub router: PluginRouter,
    /// For each plugin, in order, whether it was given its routes; a plugin
    /// whose base URL or catch-all route an earlier plugin already serves is
    /// left out.
    pub loaded: Vec<bool>,
}

/// Whether the plugin routes hold exactly the base URL and catch-all route
/// of each loaded plugin, each leading to that plugin.
pub open spec fn routes_of_loaded(
    routes: Map<Seq<char>, Seq<char>>,
    plugins: Seq<(String, String)>,
    loaded: Seq<bool>,
) -> bool {
    &&& forall|j: int|
        0 <= j < loaded.len() && #[trigger] loaded[j] ==> {
            &&& routes.contains_key(base_url(plugins[j].1@))
            &&& routes[base_url(plugins[j].1@)] == plugins[j].0@
            &&& routes.contains_key(catchall_route(plugins[j].1@))
            &&& routes[catchall_route(plugins[j].1@)] == plugins[j].0@
        }
    &&& forall|k: Seq<char>| #[trigger] routes.contains_key(k) ==> exists|j: int|
        0 <= j < loaded.len() && #[trigger] loaded[j] && (k == base_url(plugins[j].1@) || k
            == catchall_route(plugins[j].1@))
}

/// The routes that the plugins marked in `loaded` are given, one after
/// another: each its base URL and catch-all route, leading to its id.
pub open spec fn routes_of(plugins: Seq<(String, String)>, loaded: Seq<bool>) -> Map<Seq<char>, Seq<char>>
    decreases loaded.len(),
{
    if loaded.len() == 0 {
        Map::empty()
    } else {
        let j = loaded.len() - 1;
        let prev = routes_of(plugins, loaded.drop_last());
        if loaded[j] {
            prev.insert(base_url(plugins[j].1@), plugins[j].0@).insert(
                catchall_route(plugins[j].1@),
                plugins[j].0@,
            )
        } else {
            prev
        }
    }
}

/// Gives each plugin, by its id and endpoint and in order, its routes (see
/// [`PluginRouter::register`]). A plugin is given its routes exactly when
/// neither its base URL nor its catch-all route is served by the plugins
/// given theirs before it; the others are left out. A refusal by the router
/// is an error with its text; when every base URL is static, the router
/// refuses none.
pub fn register_all(plugins: &Vec<(String, String)>) -> (r: Result<Routing, String>)
    requires
        forall|j: int| 0 <= j < plugins@.len() ==> param_opens(#[trigger] plugins@[j].1@) <= 25,
    ensures
        r matches Ok(routing) ==> {
            &&& routing.loaded@.len() == plugins@.len()
            &&& routing.router.routes() == routes_of(plugins@, routing.loaded@)
            &&& forall|j: int|
                0 <= j < plugins@.len() ==> (#[trigger] routing.loaded@[j] <==> (route_match(
                    routes_of(plugins@, routing.loaded@.take(j)),
                    base_url(plugins@[j].1@),
                ) is None && route_match(
                    routes_of(plugins@, routing.loaded@.take(j)),
                    catchall_route(plugins@[j].1@),
                ) is None))
            &&& routes_of_loaded(routing.router.routes(), plugins@, routing.loaded@)
            &&& (forall|j: int| 0 <= j < plugins@.len() ==> is_static_route(#[trigger] base_url(plugins@[j].1@)))
                ==> static_or_catch_all(routing.router.routes())
        },
        (forall|j: int| 0 <= j < plugins@.len() ==> is_static_route(#[trigger] base_url(plugins@[j].1@)))
            ==> r is Ok,
{
    let mut router = PluginRouter::new();
    let mut loaded: Vec<bool> = Vec::new();
    let mut i: usize = 0;
    while i < plugins.len()
        invariant
            i <= plugins@.len(),
            loaded@.len() == i,
            routes_of_loaded(router.routes(), plugins@.take(i as int), loaded@),
            forall|j: int| 0 <= j < plugins@.len() ==> param_opens(#[trigger] plugins@[j].1@) <= 25,
            router.routes() == routes_of(plugins@, loaded@),
            forall|j: int|
                0 <= j < i ==> (#[trigger] loaded@[j] <==> (route_match(
                    routes_of(plugins@, loaded@.take(j)),
                    base_url(plugins@[j].1@),
                ) is None && route_match(
                    routes_of(plugins@, loaded@.take(j)),
                    catchall_route(plugins@[j].1@),
                ) is None)),
            (forall|j: int| 0 <= j < i ==> is_static_route(#[trigger] base_url(plugins@[j].1@)))
                ==> forall|p: Seq<char>| #[trigger] router.wildcard_parents().contains(p)
                ==> router.routes().contains_key(p),
        decreases plugins@.len() - i,
    {
        let ghost before = router.routes();
        let ghost parents = router.wildcard_parents();
        let ghost prefix = plugins@.take(i as int);
        let ghost next = plugins@.take(i + 1);
        let ghost old_loaded = loaded@;
        let ghost b = base_url(plugins@[i as int].1@);
        let ghost c = catchall_route(plugins@[i as int].1@);
        let ghost id = plugins@[i as int].0@;
        let ghost old_target = router;
        proof {
            reveal_strlit("{*path}");
            assert(c.len() > b.len());
            assert(forall|j: int| 0 <= j < i ==> #[trigger] next[j] == prefix[j]);
            assert(next[i as int] == plugins@[i as int]);
        }
        let outcome = router.register(plugins[i].0.as_str(), plugins[i].1.as_str());
        match outcome {
            Ok(()) => {
                loaded.push(true);
                proof {
                    let now = router.routes();
                    assert(b != c);
                    assert forall|j: int| 0 <= j < loaded@.len() && #[trigger] loaded@[j] implies {
                        &&& now.contains_key(base_url(next[j].1@))
                        &&& now[base_url(next[j].1@)] == next[j].0@
                        &&& now.contains_key(catchall_route(next[j].1@))
                        &&& now[catchall_route(next[j].1@)] == next[j].0@
                    } by {
                        if j < i {
                            assert(old_loaded[j]);
                            assert(before.contains_key(base_url(prefix[j].1@)));
                            assert(before.contains_key(catchall_route(prefix[j].1@)));
                        }
                    }
                    assert forall|k: Seq<char>| #[trigger] now.contains_key(k) implies exists|j: int|
                        0 <= j < loaded@.len() && #[trigger] loaded@[j] && (k == base_url(next[j].1@)
                            || k == catchall_route(next[j].1@)) by {
                        if k == b || k == c {
                            assert(loaded@[i as int]);
                        } else {
                            assert(before.contains_key(k));
                            let j = choose|j: int|
                                0 <= j < old_loaded.len() && #[trigger] old_loaded[j] && (k == base_url(
                                    prefix[j].1@,
                                ) || k == catchall_route(prefix[j].1@));
                            assert(loaded@[j]);
                        }
                    }
                }
            },
            Err(RegisterError::AlreadyHandled) => {
                loaded.push(false);
                proof {
                    let now = router.routes();
                    assert forall|j: int| 0 <= j < loaded@.len() && #[trigger] loaded@[j] implies {
                        &&& now.contains_key(base_url(next[j].1@))
                        &&& now[base_url(next[j].1@)] == next[j].0@
                        &&& now.contains_key(catchall_route(next[j].1@))
                        &&& now[catchall_route(next[j].1@)] == next[j].0@
                    } by {
                        assert(j < i);
                        assert(old_loaded[j]);
                    }
                    assert forall|k: Seq<char>| #[trigger] now.contains_key(k) implies exists|j: int|
                        0 <= j < loaded@.len() && #[trigger] loaded@[j] && (k == base_url(next[j].1@)
                            || k == catchall_route(next[j].1@)) by {
                        let j = choose|j: int|
                            0 <= j < old_loaded.len() && #[trigger] old_loaded[j] && (k == base_url(
                                prefix[j].1@,
                            ) || k == catchall_route(prefix[j].1@));
                        assert(loaded@[j]);
                    }
                }
            },
            Err(RegisterError::Insert(e)) => {
                proof {
                    if forall|j: int| 0 <= j < plugins@.len() ==> is_static_route(
                        #[trigger] base_url(plugins@[j].1@),
                    ) {
                        assert(is_static_route(base_url(plugins@[i as int].1@)));
                        assert(forall|j: int| 0 <= j < i ==> is_static_route(
                            #[trigger] base_url(plugins@[j].1@),
                        ));
                        assert(parents.contains(b));
                        assert(before.contains_key(b));
                        assert(false);
                    }
                }
                return Err(e);
            },
        }
        proof {
            assert(loaded@.drop_last() =~= old_loaded);
            assert(loaded@.take(i as int) =~= old_loaded);
            assert forall|j: int| 0 <= j <= i implies (#[trigger] loaded@[j] <==> (route_match(
                routes_of(plugins@, loaded@.take(j)),
                base_url(plugins@[j].1@),
            ) is None && route_match(
                routes_of(plugins@, loaded@.take(j)),
                catchall_route(plugins@[j].1@),
            ) is None)) by {
                if j < i {
                    assert(loaded@.take(j) =~= old_loaded.take(j));
                    assert(loaded@[j] == old_loaded[j]);
                }
            }
        }
        i = i + 1;
    }
    assert(plugins@.take(plugins@.len() as int) =~= plugins@);
    proof {
        if forall|j: int| 0 <= j < plugins@.len() ==> is_static_route(#[trigger] base_url(plugins@[j].1@)) {
            let routes = router.routes();
            assert forall|k: Seq<char>| #[trigger] routes.contains_key(k) implies is_static_route(k)
                || is_catch_all_route(k) by {
                let j = choose|j: int|
                    0 <= j < loaded@.len() && #[trigger] loaded@[j] && (k == base_url(plugins@[j].1@)
                        || k == catchall_route(plugins@[j].1@));
                assert(is_static_route(base_url(plugins@[j].1@)));
                lemma_catchall_of_static(plugins@[j].1@);
            }
        }
    }
    Ok(Routing { router, loaded })
}

/// Where an installed plugin's files are: its component and its data
/// directory, both inside the plugin's directory.
pub struct PluginFiles {
    pub wasm: String,
    pub data_dir: String,
}

/// Where the files of the plugin installed at `plugin_path` are: the
/// component `plugin.wasm` and the data directory that its manifest names.
pub fn plugin_files(plugin_path: &str, data_dir: &str) -> (files: PluginFiles)
    ensures
        files.wasm@ == crate::text::path_join(plugin_path@, "plugin.wasm"@),
        files.data_dir@ == crate::text::path_join(plugin_path@, data_dir@),
{
    PluginFiles {
        wasm: crate::text::join_path(plugin_path, "plugin.wasm"),
        data_dir: crate::text::join_path(plugin_path, data_dir),
    }
}

} // verus!
