//! The URL router that the stack and the dashboard route requests with
//! (`matchit`), as far as they use it.

use vstd::prelude::*;


verus! {

#[verifier::external_type_specification]
#[verifier::external_body]
#[verifier::reject_recursive_types(T)]
pub struct ExRouter<T>(matchit::Router<T>);

#[verifier::external_type_specification]
#[verifier::external_body]
pub struct ExInsertError(matchit::InsertError);

/// The routes that a router holds: each route pattern with its value.
pub uninterp spec fn route_table(router: matchit::Router<String>) -> Map<Seq<char>, Seq<char>>;

/// The value of the route that matches `path` among `routes`, by the
/// router's matching and priority rules; `None` when no route matches.
pub uninterp spec fn route_match(routes: Map<Seq<char>, Seq<char>>, path: Seq<char>) -> Option<
    Seq<char>,
>;

/// Whether a route pattern is static: it holds no parameter braces.
pub open spec fn is_static_route(route: Seq<char>) -> bool {
    forall|i: int| 0 <= i < route.len() ==> route[i] != '{' && route[i] != '}'
}

/// Whether a route pattern is a catch-all whose `{*name}` starts at `n`: a
/// static prefix of length `n`, then `{*name}` at its end, with a name that
/// is not empty and holds no brace, `*` or `/`.
pub open spec fn catch_all_at(route: Seq<char>, n: int) -> bool {
    &&& 0 <= n
    &&& n + 4 <= route.len()
    &&& is_static_route(route.take(n))
    &&& route[n] == '{'
    &&& route[n + 1] == '*'
    &&& route.last() == '}'
    &&& forall|i: int|
        n + 2 <= i < route.len() - 1 ==> route[i] != '{' && route[i] != '}' && route[i] != '*'
            && route[i] != '/'
}

/// Whether a route pattern is a catch-all (see [`catch_all_at`]).
pub open spec fn is_catch_all_route(route: Seq<char>) -> bool {
    exists|n: int| #[trigger] catch_all_at(route, n)
}

/// Whether the catch-all pattern `route` covers `path`: the path is the
/// pattern's static prefix followed by at least one more character.
pub open spec fn catch_all_covers(route: Seq<char>, path: Seq<char>) -> bool {
    exists|n: int| #[trigger] catch_all_at(route, n) && n < path.len() && path.take(n) == route.take(n)
}

/// Whether a path may be matched by the route pattern `route`: a static
/// pattern matches only itself, a catch-all the paths it covers; of other
/// patterns nothing is said.
pub open spec fn pattern_admits(route: Seq<char>, path: Seq<char>) -> bool {
    if is_static_route(route) {
        route == path
    } else if is_catch_all_route(route) {
        catch_all_covers(route, path)
    } else {
        true
    }
}

/// Whether every route pattern of a table is static or a catch-all.
pub open spec fn static_or_catch_all(routes: Map<Seq<char>, Seq<char>>) -> bool {
    forall|k: Seq<char>| #[trigger] routes.contains_key(k) ==> is_static_route(k) || is_catch_all_route(k)
}

/// The length of a catch-all pattern's static prefix.
pub open spec fn catch_all_prefix(route: Seq<char>) -> int {
    choose|n: int| catch_all_at(route, n)
}

/// Whether `k` is, among the catch-all routes of `routes` that cover
/// `path`, one with the longest static prefix.
pub open spec fn longest_cover(routes: Map<Seq<char>, Seq<char>>, k: Seq<char>, path: Seq<char>) -> bool {
    &&& routes.contains_key(k)
    &&& catch_all_covers(k, path)
    &&& forall|k2: Seq<char>| #[trigger] routes.contains_key(k2) && catch_all_covers(k2, path)
        ==> catch_all_prefix(k2) <= catch_all_prefix(k)
}

/// Whether a route table holds the empty pattern and nothing else. The
/// router then looks empty to its next insertion, which replaces that route.
pub open spec fn is_lone_empty(routes: Map<Seq<char>, Seq<char>>) -> bool {
    routes.dom() == Set::<Seq<char>>::empty().insert(Seq::<char>::empty())
}

/// The paths at which the router's tree holds a parameter or catch-all
/// segment (of a route, or left behind by a refused insertion): for
/// `/a/{*rest}`, the path `/a/`.
pub uninterp spec fn wildcard_parents(router: matchit::Router<String>) -> Set<Seq<char>>;

/// How many `{` of a route pattern may open a named parameter: those not
/// followed by `*`. The router gives each named parameter of a pattern a
/// one-letter name and cannot insert a pattern with more than 25 of them.
pub open spec fn param_opens(s: Seq<char>) -> nat
    decreases s.len(),
{
    if s.len() == 0 {
        0
    } else {
        (if s[0] == '{' && !(s.len() > 1 && s[1] == '*') {
            1nat
        } else {
            0nat
        }) + param_opens(s.drop_first())
    }
}

/// The parameter openings of two texts put together are those of each,
/// unless the first ends with `{` and the second starts with `*`.
pub proof fn lemma_param_opens_concat(a: Seq<char>, b: Seq<char>)
    requires
        !(a.len() > 0 && b.len() > 0 && a.last() == '{' && b[0] == '*'),
    ensures
        param_opens(a + b) == param_opens(a) + param_opens(b),
    decreases a.len(),
{
    if a.len() > 0 {
        assert((a + b).drop_first() =~= a.drop_first() + b);
        if a.len() > 1 {
            assert(a.drop_first().last() == a.last());
        }
        lemma_param_opens_concat(a.drop_first(), b);
    } else {
        assert(a + b =~= b);
    }
}

/// A text without `{` opens no parameters.
pub proof fn lemma_param_opens_none(s: Seq<char>)
    requires
        forall|i: int| 0 <= i < s.len() ==> s[i] != '{',
    ensures
        param_opens(s) == 0,
    decreases s.len(),
{
    if s.len() > 0 {
        lemma_param_opens_none(s.drop_first());
    }
}

/// A catch-all suffix `{*name}` opens no parameters.
pub proof fn lemma_param_opens_catch_all_suffix()
    ensures
        param_opens("{*path}"@) == 0,
{
    reveal_strlit("{*path}");
    lemma_param_opens_none("{*path}"@.drop_first());
}

/// A text opens no more parameters than it has characters.
pub proof fn lemma_param_opens_len(s: Seq<char>)
    ensures
        param_opens(s) <= s.len(),
    decreases s.len(),
{
    if s.len() > 0 {
        lemma_param_opens_len(s.drop_first());
    }
}

/// `Router::new`: a router without routes.
#[verifier::external_body]
pub(crate) fn router_new() -> (r: matchit::Router<String>)
    ensures
        route_table(r).dom() == Set::<Seq<char>>::empty(),
        wildcard_parents(r) == Set::<Seq<char>>::empty(),
{
    matchit::Router::new()
}

/// `Router::insert`. A route is added only if no route with the same pattern
/// is there; when the insertion is refused (a conflict or an invalid
/// pattern), the routes stay as they were. A static route that is not there
/// yet is always added, and adds no parameter or catch-all segment. A
/// catch-all route is added whenever the tree holds no parameter or
/// catch-all segment at its static prefix, and that prefix then holds one.
/// Whether other patterns are refused is not stated. When the
/// router holds the empty pattern alone, it takes the insertion for the
/// first one and what becomes of the empty route is not stated; every route
/// it then holds still has a value it held before or the inserted one. A
/// pattern with more than 25 named parameters makes the router panic, and
/// is not given to it.
#[verifier::external_body]
pub(crate) fn router_insert(router: &mut matchit::Router<String>, route: String, value: String) -> (r: Result<
    (),
    matchit::InsertError,
>)
    requires
        param_opens(route@) <= 25,
    ensures
        !is_lone_empty(route_table(*old(router))) ==> match r {
            Ok(()) => {
                &&& !route_table(*old(router)).contains_key(route@)
                &&& route_table(*final(router)) == route_table(*old(router)).insert(route@, value@)
            },
            Err(_) => route_table(*final(router)) == route_table(*old(router)),
        },
        forall|k: Seq<char>| #[trigger] route_table(*final(router)).contains_key(k) ==> route_table(
            *final(router),
        )[k] == value@ || route_table(*old(router)).values().contains(route_table(*final(router))[k]),
        is_static_route(route@) && !route_table(*old(router)).contains_key(route@) ==> r is Ok,
        forall|n: int| #[trigger] catch_all_at(route@, n) && !wildcard_parents(*old(router)).contains(
            route@.take(n),
        ) ==> r is Ok,
        forall|n: int| #[trigger] catch_all_at(route@, n) ==> wildcard_parents(*final(router)) == if r is Ok {
            wildcard_parents(*old(router)).insert(route@.take(n))
        } else {
            wildcard_parents(*old(router))
        },
        is_static_route(route@) ==> wildcard_parents(*final(router)) == wildcard_parents(*old(router)),
{
    router.insert(route, value)
}

/// `Router::at`, giving the value of the matching route. A path that is
/// itself a static route of the router matches that route; a path covered by
/// a catch-all route of the router matches some route; and the value found is
/// that of a route that admits the path. Among routes that are static or
/// catch-alls only, a path that is not itself a static route goes to the
/// covering catch-all with the longest static prefix.
#[verifier::external_body]
pub(crate) fn router_at(router: &matchit::Router<String>, path: &str) -> (r: Option<String>)
    ensures
        r is Some <==> route_match(route_table(*router), path@) is Some,
        r matches Some(v) ==> route_match(route_table(*router), path@) == Some(v@),
        route_table(*router).contains_key(path@) && is_static_route(path@) ==> r is Some
            && r.unwrap()@ == route_table(*router)[path@],
        forall|k: Seq<char>| #[trigger] route_table(*router).contains_key(k) && catch_all_covers(k, path@)
            ==> r is Some,
        r matches Some(v) ==> exists|k: Seq<char>| #[trigger] route_table(*router).contains_key(k)
            && route_table(*router)[k] == v@ && pattern_admits(k, path@),
        static_or_catch_all(route_table(*router)) && !(route_table(*router).contains_key(path@)
            && is_static_route(path@)) ==> (r matches Some(v) ==> exists|k: Seq<char>| #[trigger]
            longest_cover(route_table(*router), k, path@) && route_table(*router)[k] == v@),
{
    match router.at(path) {
        Ok(matched) => Some(matched.value.clone()),
        Err(_) => None,
    }
}

/// The text of a router's insertion error (its `Display`); what the text
/// is, is not stated.
#[verifier::external_body]
pub(crate) fn insert_error_text(error: &matchit::InsertError) -> String {
    error.to_string()
}

} // verus!
