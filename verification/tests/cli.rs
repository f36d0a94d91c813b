use wassel::cli::common::{
    build_command, build_info, component_path, copy_plugin_to_plugins_folder,
    default_data_folder, InstallStep, PluginMeta, PluginMetaBuild,
};
use wassel::cli::plugin::{self, PluginAction, PluginArgs, PluginCommand};
use wassel::cli::stack::{self, cmd_build, StackAction, StackArgs, StackCommand};

fn pair(a: &str, b: &str) -> (String, String) {
    (a.to_string(), b.to_string())
}

fn manifest(build: Option<PluginMetaBuild>) -> PluginMeta {
    PluginMeta {
        id: "hello".to_string(),
        component: "target/${PROFILE}/hello.wasm".to_string(),
        build,
        data_folder: default_data_folder(),
    }
}

#[test]
fn cli_default_data_folder() {
    assert_eq!(default_data_folder(), "data");
}

#[test]
fn cli_plugin_run_dispatches() {
    let a = plugin::run(PluginArgs { command: PluginCommand::Build, path: ".".to_string() });
    assert!(matches!(a, PluginAction::Build { path } if path == "."));
    let a = plugin::run(PluginArgs { command: PluginCommand::Serve, path: "p".to_string() });
    assert!(matches!(a, PluginAction::Serve { path } if path == "p"));
}

#[test]
fn cli_stack_run_dispatches() {
    let a = stack::run(StackArgs { command: StackCommand::Build, manifest_path: "s".to_string() });
    assert!(matches!(a, StackAction::Build { path } if path == "s"));
    let a = stack::run(StackArgs { command: StackCommand::Serve, manifest_path: "s".to_string() });
    assert!(matches!(a, StackAction::Serve { path } if path == "s"));
}

#[test]
fn cli_stack_build_paths() {
    let plan = cmd_build(".");
    assert_eq!(plan.manifest, "./wassel.toml");
    assert_eq!(plan.plugins_dir, "./plugins");
    let plan = cmd_build("/srv/stack/");
    assert_eq!(plan.manifest, "/srv/stack/wassel.toml");
}

#[test]
fn cli_build_command_substitutes_environment() {
    let envs = vec![pair("PROFILE", "release")];
    let m = manifest(Some(PluginMetaBuild { cmd: "cargo build --$PROFILE".to_string(), data: vec![] }));
    assert_eq!(build_command(&m, &envs), Ok(Some("cargo build --release".to_string())));
    assert_eq!(build_command(&manifest(None), &envs), Ok(None));
    let bad = manifest(Some(PluginMetaBuild { cmd: "echo $MISSING".to_string(), data: vec![] }));
    assert!(build_command(&bad, &envs).is_err());
}

#[test]
fn cli_component_path_is_relative_to_plugin() {
    let envs = vec![pair("PROFILE", "debug")];
    assert_eq!(
        component_path("plugins/hello", &manifest(None), &envs),
        Ok("plugins/hello/target/debug/hello.wasm".to_string())
    );
    let mut absolute = manifest(None);
    absolute.component = "/opt/hello.wasm".to_string();
    assert_eq!(component_path("plugins/hello", &absolute, &envs), Ok("/opt/hello.wasm".to_string()));
    assert!(component_path("p", &manifest(None), &vec![]).is_err());
}

#[test]
fn cli_install_plan() {
    let m = manifest(Some(PluginMetaBuild {
        cmd: "make".to_string(),
        data: vec![pair("static", "www")],
    }));
    let info = build_info("src/hello", m, "src/hello/out.wasm".to_string());
    assert_eq!(info.id, "hello");
    assert_eq!(info.data, vec![pair("static", "www")]);
    let steps = copy_plugin_to_plugins_folder("plugins", &info);
    assert_eq!(steps.len(), 5);
    assert!(matches!(&steps[0], InstallStep::CreateDir { path } if path == "plugins/hello"));
    assert!(matches!(&steps[1], InstallStep::CopyComponent { from, to }
        if from == "src/hello/out.wasm" && to == "plugins/hello/plugin.wasm"));
    assert!(matches!(&steps[2], InstallStep::CopyManifest { from, to }
        if from == "src/hello/plugin.toml" && to == "plugins/hello/plugin.toml"));
    assert!(matches!(&steps[3], InstallStep::CreateDataDir { path } if path == "plugins/hello/data"));
    assert!(matches!(&steps[4], InstallStep::CopyData { from, to }
        if from == "src/hello/static" && to == "plugins/hello/data/www"));
}

#[test]
fn cli_build_info_without_build_step_has_no_data() {
    let info = build_info("p", manifest(None), "p/c.wasm".to_string());
    assert!(info.data.is_empty());
    assert_eq!(copy_plugin_to_plugins_folder("plugins", &info).len(), 4);
}
