use wassel::admin::router::{admin_router, AdminEndpoint, AdminRouter};
use wassel::http_client::{convert_reqwest_error_to_error_code, ErrorCode};
use wassel::report::{get_status, make_response, make_table};
use wassel::stack::routing::plugin_files;
use wassel::stack::service::{bind_address, strip_endpoint};

fn results() -> Vec<(String, Result<(), String>)> {
    vec![
        ("SELECT 1::BOOLEAN".to_string(), Ok(())),
        ("SELECT 2::INT4".to_string(), Err("Expected: 3, actual: 2".to_string())),
    ]
}

#[test]
fn report_table_lines() {
    assert_eq!(
        make_table(&results()),
        "'SELECT 1::BOOLEAN' => OK\n'SELECT 2::INT4' => ERR: Expected: 3, actual: 2\n"
    );
    assert_eq!(make_table(&Vec::new()), "\n");
}

#[test]
fn report_status() {
    assert_eq!(get_status(&results()), 500);
    assert_eq!(get_status(&vec![("q".to_string(), Ok(()))]), 200);
    assert_eq!(get_status(&Vec::new()), 200);
    assert_eq!(make_response(&vec![("q".to_string(), Ok(()))]), (200, "'q' => OK\n".to_string()));
}

#[test]
fn admin_routes() {
    let router = admin_router().expect("routes are valid");
    assert!(matches!(router.handle("/api/stats/system"), Some(AdminEndpoint::StatsSystem)));
    assert!(matches!(router.handle("/api/stats/plugins"), Some(AdminEndpoint::StatsPlugins)));
    assert!(matches!(router.handle("/api/stats/logs"), Some(AdminEndpoint::StatsLogs)));
    assert!(matches!(router.handle("/api/stats/sse"), Some(AdminEndpoint::StatsSse)));
    assert!(matches!(router.handle("/"), Some(AdminEndpoint::Web)));
    assert!(matches!(router.handle("/index.html"), Some(AdminEndpoint::Web)));
    assert!(matches!(router.handle("/api/stats/other"), Some(AdminEndpoint::Web)));
}

#[test]
fn admin_route_conflict_is_an_error() {
    let router = AdminRouter::new().route("/x", AdminEndpoint::Web).ok().unwrap();
    assert!(router.route("/x", AdminEndpoint::StatsLogs).is_err());
    assert!(AdminRouter::new().handle("/").is_none());
}

#[test]
fn plugin_sees_path_below_its_endpoint() {
    assert_eq!(strip_endpoint("/blog/post/1?x=2", "/blog"), "//post/1?x=2");
    assert_eq!(strip_endpoint("/blog/post", "/blog/"), "/post");
    assert_eq!(strip_endpoint("/blog/", "/blog/"), "/");
}

#[test]
fn server_bind_address() {
    assert_eq!(bind_address("0.0.0.0", 8080), "0.0.0.0:8080");
    assert_eq!(bind_address("localhost", 0), "localhost:0");
}

#[test]
fn installed_plugin_files() {
    let files = plugin_files("plugins/blog", "data");
    assert_eq!(files.wasm, "plugins/blog/plugin.wasm");
    assert_eq!(files.data_dir, "plugins/blog/data");
}

#[test]
fn reqwest_errors_become_internal_errors() {
    let error = reqwest::Client::new().get("not a url").build().unwrap_err();
    let debug = format!("{error:?}");
    match convert_reqwest_error_to_error_code(error) {
        ErrorCode::InternalError(Some(message)) => {
            assert_eq!(message, format!("Reqwest error: {debug}"))
        }
        _ => panic!("expected an internal error"),
    }
}

#[test]
fn admin_static_and_catch_all_routes_are_taken() {
    let router = AdminRouter::new().route("/b/c", AdminEndpoint::StatsLogs).expect("static route");
    let router = router.route("/b/{*rest}", AdminEndpoint::Web).expect("catch-all over static routes");
    let router = router.route("/b", AdminEndpoint::StatsSystem).expect("new static route");
    assert!(matches!(router.handle("/b/c"), Some(AdminEndpoint::StatsLogs)));
    assert!(matches!(router.handle("/b/x/y"), Some(AdminEndpoint::Web)));
    assert!(matches!(router.handle("/b"), Some(AdminEndpoint::StatsSystem)));
}

#[test]
fn reqwest_error_message_is_prefix_and_detail() {
    match wassel::http_client::reqwest_error_code("timed out") {
        ErrorCode::InternalError(Some(message)) => assert_eq!(message, "Reqwest error: timed out"),
        _ => panic!("expected an internal error"),
    }
}
