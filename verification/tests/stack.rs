use wassel::component::PluginMeta;
use wassel::stack::config::{
    merge_variables, read_plugin_entry, substitute_variables, StackConfig, StackMeta,
};
use wassel::stack::routing::{plugin_routes, PluginRouter, RegisterError};
use wassel::stack::service::{handle_request, header_value_ok, RequestOutcome};

fn pair(a: &str, b: &str) -> (String, String) {
    (a.to_string(), b.to_string())
}

fn meta(id: &str, vars: Vec<(String, String)>) -> PluginMeta {
    PluginMeta {
        id: id.to_string(),
        name: id.to_string(),
        version: "1".to_string(),
        description: None,
        endpoint: format!("/{id}"),
        variables: vars,
        data_dir: "data".to_string(),
    }
}

fn lookup<'a>(vars: &'a [(String, String)], name: &str) -> Option<&'a str> {
    vars.iter().find(|(k, _)| k == name).map(|(_, v)| v.as_str())
}

#[test]
fn plugin_variables_win_over_stack_variables() {
    let mut vars = vec![pair("A", "plugin")];
    merge_variables(&mut vars, &vec![pair("A", "stack"), pair("B", "stack")]);
    assert_eq!(lookup(&vars, "A"), Some("plugin"));
    assert_eq!(lookup(&vars, "B"), Some("stack"));
    assert_eq!(vars.len(), 2);
}

#[test]
fn environment_is_substituted_into_variables() {
    let mut vars = vec![pair("URL", "postgres://${HOST}/db"), pair("BAD", "${"), pair("P", "plain")];
    substitute_variables(&mut vars, &vec![pair("HOST", "localhost")]);
    assert_eq!(lookup(&vars, "URL"), Some("postgres://localhost/db"));
    assert_eq!(lookup(&vars, "BAD"), Some("${"));
    assert_eq!(lookup(&vars, "P"), Some("plain"));
}

#[test]
fn reading_plugin_entries() {
    let mut config = StackConfig::new(StackMeta { variables: vec![pair("X", "$Y")] });
    let envs = vec![pair("Y", "why")];
    let r = read_plugin_entry(
        &mut config.plugins,
        &mut config.plugin_paths,
        "plugins/blog",
        meta("blog", vec![]),
        &config.meta.variables,
        &envs,
    );
    assert!(r.is_ok());
    assert_eq!(config.plugins.len(), 1);
    assert_eq!(lookup(&config.plugins[0].1.variables, "X"), Some("why"));
    assert_eq!(config.plugin_paths, vec![pair("blog", "plugins/blog")]);

    let r = read_plugin_entry(
        &mut config.plugins,
        &mut config.plugin_paths,
        "plugins/blog2",
        meta("blog", vec![]),
        &config.meta.variables,
        &envs,
    );
    assert_eq!(r, Err("Multiple plugins with the same id `blog`".to_string()));
    assert_eq!(config.plugin_paths.len(), 1);
}

#[test]
fn merging_a_plugin_config_replaces_it() {
    let mut config = StackConfig::new(StackMeta { variables: vec![] });
    config.merge_plugin_config("a", meta("a", vec![]));
    config.merge_plugin_config("a", meta("a", vec![pair("K", "V")]));
    assert_eq!(config.plugins.len(), 1);
    assert_eq!(config.plugins[0].1.variables.len(), 1);
}

#[test]
fn plugin_routes_of_endpoints() {
    assert_eq!(plugin_routes("/blog"), ("/blog/".to_string(), "/blog/{*path}".to_string()));
    assert_eq!(plugin_routes("/blog/"), ("/blog/".to_string(), "/blog/{*path}".to_string()));
    assert_eq!(plugin_routes(""), ("/".to_string(), "/{*path}".to_string()));
}

#[test]
fn plugins_are_routed_by_endpoint() {
    let mut router = PluginRouter::new();
    assert!(router.register("blog", "/blog").is_ok());
    assert!(router.register("shop", "/shop/").is_ok());
    assert_eq!(router.plugin_for("/blog/").as_deref(), Some("blog"));
    assert_eq!(router.plugin_for("/blog/post/1").as_deref(), Some("blog"));
    assert_eq!(router.plugin_for("/shop/cart").as_deref(), Some("shop"));
    assert_eq!(router.plugin_for("/other"), None);
    assert_eq!(router.plugin_for("/blog"), None);
}

#[test]
fn a_taken_endpoint_is_refused() {
    let mut router = PluginRouter::new();
    assert!(router.register("a", "/x").is_ok());
    assert!(matches!(router.register("b", "/x/"), Err(RegisterError::AlreadyHandled)));
    assert_eq!(router.plugin_for("/x/y").as_deref(), Some("a"));
}

#[test]
fn request_outcomes() {
    let plan = handle_request(RequestOutcome::NoPlugin);
    assert_eq!(plan.status, Some(404));
    assert!(plan.plugin_header.is_none() && plan.plugin_id.is_none());
    let plan = handle_request(RequestOutcome::LookupFailed);
    assert_eq!(plan.status, Some(500));
    let plan = handle_request(RequestOutcome::PluginFailed { id: "p".to_string() });
    assert_eq!(plan.status, Some(500));
    assert_eq!(plan.plugin_id.as_deref(), Some("p"));
    let plan = handle_request(RequestOutcome::Responded { id: "p".to_string() });
    assert_eq!(plan.status, None);
    assert_eq!(plan.plugin_header, Some(pair("x-wassel-plugin", "p")));
    assert_eq!(plan.plugin_id.as_deref(), Some("p"));
}

#[test]
fn header_values() {
    assert!(header_value_ok("my-plugin v1"));
    assert!(header_value_ok("tab\there"));
    assert!(!header_value_ok("line\nbreak"));
    assert!(!header_value_ok("del\u{7f}"));
}

#[test]
fn stack_register_all_routes_plugins_in_order() {
    let plugins = vec![
        ("a".to_owned(), "/a".to_owned()),
        ("b".to_owned(), "/a/".to_owned()),
        ("root".to_owned(), "/".to_owned()),
    ];
    let routing = wassel::stack::routing::register_all(&plugins).expect("static endpoints");
    assert_eq!(routing.loaded, vec![true, false, true]);
    assert_eq!(routing.router.plugin_for("/a/"), Some("a".to_owned()));
    assert_eq!(routing.router.plugin_for("/a/x/y"), Some("a".to_owned()));
    assert_eq!(routing.router.plugin_for("/"), Some("root".to_owned()));
    assert_eq!(routing.router.plugin_for("/other"), Some("root".to_owned()));
    assert_eq!(routing.router.plugin_for("nothing"), None);
}

#[test]
fn stack_longest_base_url_wins() {
    let plugins = vec![
        ("inner".to_owned(), "/a/b".to_owned()),
        ("outer".to_owned(), "/a".to_owned()),
    ];
    let routing = wassel::stack::routing::register_all(&plugins).expect("static endpoints");
    assert_eq!(routing.loaded, vec![true, true]);
    assert_eq!(routing.router.plugin_for("/a/b/c"), Some("inner".to_owned()));
    assert_eq!(routing.router.plugin_for("/a/bc"), Some("outer".to_owned()));
    assert_eq!(routing.router.plugin_for("/a/b/"), Some("inner".to_owned()));
    assert_eq!(routing.router.plugin_for("/a/x"), Some("outer".to_owned()));
    let nested = vec![
        ("outer".to_owned(), "/a".to_owned()),
        ("inner".to_owned(), "/a/b".to_owned()),
    ];
    let routing = wassel::stack::routing::register_all(&nested).expect("static endpoints");
    assert_eq!(routing.loaded, vec![true, false]);
}

#[test]
fn stack_load_config_records_every_plugin() {
    let config = wassel::stack::config::load_config(
        StackMeta { variables: vec![pair("S", "stack")] },
        vec![
            ("plugins/a".to_string(), meta("a", vec![])),
            ("plugins/b".to_string(), meta("b", vec![pair("S", "own")])),
        ],
        &vec![],
    )
    .expect("distinct ids");
    assert_eq!(config.plugins.len(), 2);
    let a = config.plugins.iter().find(|(id, _)| id == "a").unwrap();
    assert_eq!(lookup(&a.1.variables, "S"), Some("stack"));
    let b = config.plugins.iter().find(|(id, _)| id == "b").unwrap();
    assert_eq!(lookup(&b.1.variables, "S"), Some("own"));
    let path = config.plugin_paths.iter().find(|(id, _)| id == "b").unwrap();
    assert_eq!(path.1, "plugins/b");
}

#[test]
fn stack_load_config_refuses_a_repeated_id() {
    let r = wassel::stack::config::load_config(
        StackMeta { variables: vec![] },
        vec![
            ("x".to_string(), meta("a", vec![])),
            ("y".to_string(), meta("b", vec![])),
            ("z".to_string(), meta("b", vec![])),
            ("w".to_string(), meta("a", vec![])),
        ],
        &vec![],
    );
    assert_eq!(r.err(), Some("Multiple plugins with the same id `b`".to_string()));
}

#[test]
fn stack_endpoint_parameter_limit() {
    assert!(wassel::stack::routing::endpoint_params_ok("/a/{x}/{*rest}"));
    let many: String = (0..26).map(|i| format!("/{{p{i}}}")).collect();
    assert!(!wassel::stack::routing::endpoint_params_ok(&many));
    let fine: String = (0..25).map(|i| format!("/{{p{i}}}")).collect();
    assert!(wassel::stack::routing::endpoint_params_ok(&fine));
}
