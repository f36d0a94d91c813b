//! The answer of the stack to a request, once it knows which plugin, if
//! any, handled it.

use vstd::prelude::*;

use crate::text::{from_chars, to_chars, write_unsigned};

verus! {

/// How a request went: no plugin serves its path; finding or starting the
/// plugin failed; the plugin failed; or the plugin responded.
pub enum RequestOutcome {
    NoPlugin,
    LookupFailed,
    PluginFailed { id: String },
    Responded { id: String },
}

/// How the stack answers: with an empty response of the given status, or
/// with the plugin's response; the header that names the plugin, if any;
/// and the plugin that the request is logged with.
pub struct ResponsePlan {
    pub status: Option<u16>,
    pub plugin_header: Option<(String, String)>,
    pub plugin_id: Option<String>,
}

/// Whether a text can be the value of an HTTP header: every character is
/// visible, a space, a tab or beyond ASCII.
pub open spec fn is_header_value(s: Seq<char>) -> bool {
    forall|i: int| 0 <= i < s.len() ==> (s[i] >= ' ' && s[i] != '\x7f') || s[i] == '\t'
}

/// The name of the header that tells which plugin answered.
pub open spec fn plugin_header_name() -> Seq<char> {
    "x-wassel-plugin"@
}

/// Decides the stack's answer to a request: 404 when no plugin serves its
/// path, 500 when the plugin could not be found, started or run, and
/// otherwise the plugin's response with the plugin's id in the
/// `x-wassel-plugin` header.
pub fn handle_request(outcome: RequestOutcome) -> (plan: ResponsePlan)
    requires
        outcome matches RequestOutcome::Responded { id } ==> is_header_value(id@),
    ensures
        match outcome {
            RequestOutcome::NoPlugin => plan.status == Some(404u16) && plan.plugin_header is None
                && plan.plugin_id is None,
            RequestOutcome::LookupFailed => plan.status == Some(500u16) && plan.plugin_header is None
                && plan.plugin_id is None,
            RequestOutcome::PluginFailed { id } => plan.status == Some(500u16)
                && plan.plugin_header is None && plan.plugin_id == Some(id),
            RequestOutcome::Responded { id } => {
                &&& plan.status is None
                &&& plan.plugin_header matches Some(h) && h.0@ == plugin_header_name() && h.1@
                    == id@
                &&& plan.plugin_id == Some(id)
            },
        },
{
    match outcome {
        RequestOutcome::NoPlugin => ResponsePlan { status: Some(404), plugin_header: None, plugin_id: None },
        RequestOutcome::LookupFailed => ResponsePlan {
            status: Some(500),
            plugin_header: None,
            plugin_id: None,
        },
        RequestOutcome::PluginFailed { id } => ResponsePlan {
            status: Some(500),
            plugin_header: None,
            plugin_id: Some(id),
        },
        RequestOutcome::Responded { id } => {
            let header = ("x-wassel-plugin".to_owned(), id.clone());
            ResponsePlan { status: None, plugin_header: Some(header), plugin_id: Some(id) }
        },
    }
}

/// Whether a text can be the value of an HTTP header (see
/// [`is_header_value`]).
pub fn header_value_ok(s: &str) -> (ok: bool)
    ensures
        ok == is_header_value(s@),
{
    let v = crate::text::to_chars(s);
    let mut i: usize = 0;
    while i < v.len()
        invariant
            v@ == s@,
            i <= v@.len(),
            forall|j: int| 0 <= j < i ==> (v@[j] >= ' ' && v@[j] != '\x7f') || v@[j] == '\t',
        decreases v@.len() - i,
    {
        let c = v[i];
        if !((c >= ' ' && c != '\x7f') || c == '\t') {
            return false;
        }
        i = i + 1;
    }
    true
}

/// The path and query that a plugin sees: the request's path and query
/// without the plugin's endpoint, as an absolute path.
pub open spec fn plugin_request_path(path_and_query: Seq<char>, endpoint: Seq<char>) -> Seq<char> {
    seq!['/'] + path_and_query.skip(endpoint.len() as int)
}

/// The path and query that a plugin sees (see [`plugin_request_path`]). A
/// request is only routed to a plugin below its endpoint, so its path
/// starts with the endpoint.
pub fn strip_endpoint(path_and_query: &str, endpoint: &str) -> (path: String)
    requires
        endpoint@.len() <= path_and_query@.len(),
        path_and_query@.take(endpoint@.len() as int) == endpoint@,
    ensures
        path@ == plugin_request_path(path_and_query@, endpoint@),
{
    let full = to_chars(path_and_query);
    let prefix = to_chars(endpoint);
    let mut rest: Vec<char> = Vec::new();
    rest.push('/');
    let mut i = prefix.len();
    while i < full.len()
        invariant
            full@ == path_and_query@,
            prefix@ == endpoint@,
            prefix@.len() <= i <= full@.len(),
            rest@ == seq!['/'] + full@.subrange(prefix@.len() as int, i as int),
        decreases full@.len() - i,
    {
        rest.push(full[i]);
        proof {
            assert(full@.subrange(prefix@.len() as int, i + 1) =~= full@.subrange(
                prefix@.len() as int,
                i as int,
            ).push(full@[i as int]));
        }
        i = i + 1;
    }
    proof {
        assert(full@.subrange(prefix@.len() as int, full@.len() as int) =~= full@.skip(
            prefix@.len() as int,
        ));
    }
    from_chars(&rest)
}

/// The address that the server listens on: `host:port`.
pub fn bind_address(host: &str, port: u16) -> (addr: String)
    ensures
        addr@ == host@ + seq![':'] + crate::text::dec_digits(port as nat),
{
    let mut addr = host.to_owned();
    crate::text::push_char(&mut addr, ':');
    write_unsigned(port as u128, &mut addr);
    addr
}

} // verus!
