use wassel::admin::stats::{sort_by_name, PluginStats};
use wassel::admin::web::{content_type_of, resolve_web_path};
use wassel::component::PluginMeta;

fn stats(id: &str, name: &str) -> PluginStats {
    PluginStats {
        id: id.to_string(),
        name: name.to_string(),
        version: "1.0.0".to_string(),
        description: None,
        endpoint: format!("/{id}"),
    }
}

#[test]
fn plugin_stats_from_meta() {
    let meta = PluginMeta {
        id: "blog".to_string(),
        name: "Blog".to_string(),
        version: "0.2.0".to_string(),
        description: Some("A blog".to_string()),
        endpoint: "/blog".to_string(),
        variables: vec![("A".to_string(), "1".to_string())],
        data_dir: "data".to_string(),
    };
    let s = PluginStats::from(meta);
    assert_eq!(s.id, "blog");
    assert_eq!(s.name, "Blog");
    assert_eq!(s.version, "0.2.0");
    assert_eq!(s.description.as_deref(), Some("A blog"));
    assert_eq!(s.endpoint, "/blog");
}

#[test]
fn plugins_are_listed_by_name() {
    let sorted = sort_by_name(vec![stats("c", "zeta"), stats("a", "alpha"), stats("b", "Beta")]);
    let names: Vec<&str> = sorted.iter().map(|s| s.name.as_str()).collect();
    assert_eq!(names, vec!["Beta", "alpha", "zeta"]);
}

#[test]
fn plugins_with_equal_names_keep_their_order() {
    let sorted = sort_by_name(vec![
        stats("x", "same"),
        stats("a", "first"),
        stats("y", "same"),
        stats("z", "same"),
    ]);
    let ids: Vec<&str> = sorted.iter().map(|s| s.id.as_str()).collect();
    assert_eq!(ids, vec!["a", "x", "y", "z"]);
}

#[test]
fn plugins_prefix_name_comes_first() {
    let sorted = sort_by_name(vec![stats("b", "abc"), stats("a", "ab"), stats("c", "")]);
    let ids: Vec<&str> = sorted.iter().map(|s| s.id.as_str()).collect();
    assert_eq!(ids, vec!["c", "a", "b"]);
    assert!(sort_by_name(Vec::new()).is_empty());
}

#[test]
fn web_root_serves_index() {
    assert_eq!(resolve_web_path("/").as_deref(), Some("index.html"));
    assert_eq!(resolve_web_path("").as_deref(), Some("index.html"));
    assert_eq!(resolve_web_path("/docs/").as_deref(), Some("docs/index.html"));
    assert_eq!(resolve_web_path("/app.js").as_deref(), Some("app.js"));
    assert_eq!(resolve_web_path("assets/x.css").as_deref(), Some("assets/x.css"));
}

#[test]
fn web_parent_paths_are_refused() {
    assert_eq!(resolve_web_path("/../secret"), None);
    assert_eq!(resolve_web_path("/a/..b"), None);
    assert_eq!(resolve_web_path("/a/.b").as_deref(), Some("a/.b"));
}

#[test]
fn web_content_types() {
    assert_eq!(content_type_of("index.html"), Some("text/html"));
    assert_eq!(content_type_of("_app/start.js"), Some("text/javascript"));
    assert_eq!(content_type_of("style.css"), None);
    assert_eq!(content_type_of("README"), None);
    assert_eq!(content_type_of(".html"), None);
}
