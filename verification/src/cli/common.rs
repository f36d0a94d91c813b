//! Plugin and stack manifests as the command line reads them, and the plans
//! for building and installing a plugin.

use vstd::prelude::*;

use crate::pairs::pairs_map;
use crate::substitute::{substitute, substituted};
use crate::text::{join_path, path_join};

verus! {

/// The contents of a stack's `wassel.toml`.
pub struct WasselMeta {
    pub stack: StackMeta,
}

/// The `[stack]` table: the directories of the plugins to build.
pub struct StackMeta {
    pub plugins: Vec<String>,
}

/// The contents of a plugin's `plugin.toml`.
pub struct PluginMeta {
    pub id: String,
    pub component: String,
    pub build: Option<PluginMetaBuild>,
    pub data_folder: String,
}

/// The `[build]` table of a plugin: its build command, and the data to
/// install, as pairs of a source path and a destination path.
pub struct PluginMetaBuild {
    pub cmd: String,
    pub data: Vec<(String, String)>,
}

/// What a finished build leaves: the plugin's directory, its id, the built
/// component, its data folder and the data to install.
pub struct PluginBuildInfo {
    pub path: String,
    pub id: String,
    pub component: String,
    pub data_folder: String,
    pub data: Vec<(String, String)>,
}

/// The data folder of a plugin whose manifest names none.
pub fn default_data_folder() -> (folder: String)
    ensures
        folder@ == "data"@,
{
    "data".to_owned()
}

/// The shell command that builds a plugin: its build command with the
/// environment substituted into it; `None` when the plugin has no build
/// step.
pub open spec fn build_command_of(meta: PluginMeta, env: Map<Seq<char>, Seq<char>>) -> Option<
    Option<Seq<char>>,
> {
    match meta.build {
        Some(build) => match substituted(build.cmd@, env) {
            Some(cmd) => Some(Some(cmd)),
            None => None,
        },
        None => Some(None),
    }
}

/// The shell command that builds a plugin (see [`build_command_of`]); an
/// error, with the substitution's error text, when the environment cannot
/// be substituted into it.
pub fn build_command(meta: &PluginMeta, envs: &Vec<(String, String)>) -> (r: Result<
    Option<String>,
    String,
>)
    ensures
        r is Err <==> build_command_of(*meta, pairs_map(envs@)) is None,
        r matches Ok(c) ==> build_command_of(*meta, pairs_map(envs@)) == Some(
            match c {
                Some(s) => Some(s@),
                None => None,
            },
        ),
{
    match &meta.build {
        Some(build) => match substitute(build.cmd.as_str(), envs) {
            Ok(cmd) => Ok(Some(cmd)),
            Err(e) => Err(e),
        },
        None => Ok(None),
    }
}

/// Where a plugin's built component is: its component path with the
/// environment substituted into it, taken relative to the plugin's
/// directory unless it is absolute; `None` when substitution fails.
pub open spec fn component_path_of(
    plugin_dir: Seq<char>,
    meta: PluginMeta,
    env: Map<Seq<char>, Seq<char>>,
) -> Option<Seq<char>> {
    match substituted(meta.component@, env) {
        Some(c) => Some(path_join(plugin_dir, c)),
        None => None,
    }
}

/// Where a plugin's built component is (see [`component_path_of`]); an
/// error, with the substitution's error text, when the environment cannot
/// be substituted into the component path.
pub fn component_path(plugin_dir: &str, meta: &PluginMeta, envs: &Vec<(String, String)>) -> (r:
    Result<String, String>)
    ensures
        r is Err <==> component_path_of(plugin_dir@, *meta, pairs_map(envs@)) is None,
        r matches Ok(c) ==> component_path_of(plugin_dir@, *meta, pairs_map(envs@)) == Some(c@),
{
    match substitute(meta.component.as_str(), envs) {
        Ok(c) => Ok(join_path(plugin_dir, c.as_str())),
        Err(e) => Err(e),
    }
}

/// What a finished build of the plugin at `path` with the manifest `meta`
/// reports: the component built at `component`, and the manifest's id, data
/// folder and data (none when the manifest has no build step).
pub fn build_info(path: &str, meta: PluginMeta, component: String) -> (info: PluginBuildInfo)
    ensures
        info.path@ == path@,
        info.id == meta.id,
        info.component == component,
        info.data_folder == meta.data_folder,
        info.data@ == match meta.build {
            Some(b) => b.data@,
            None => Seq::<(String, String)>::empty(),
        },
{
    let data = match meta.build {
        Some(b) => b.data,
        None => Vec::new(),
    };
    PluginBuildInfo {
        path: path.to_owned(),
        id: meta.id,
        component,
        data_folder: meta.data_folder,
        data,
    }
}

/// One step of installing a plugin into the plugins folder.
pub enum InstallStep {
    /// Create a directory, with its parents.
    CreateDir { path: String },
    /// Copy the plugin's component.
    CopyComponent { from: String, to: String },
    /// Copy the plugin's manifest.
    CopyManifest { from: String, to: String },
    /// Create the plugin's data folder.
    CreateDataDir { path: String },
    /// Copy a data file or directory tree.
    CopyData { from: String, to: String },
}

/// The model of an install step.
pub enum StepModel {
    CreateDir(Seq<char>),
    CopyComponent(Seq<char>, Seq<char>),
    CopyManifest(Seq<char>, Seq<char>),
    CreateDataDir(Seq<char>),
    CopyData(Seq<char>, Seq<char>),
}

impl View for InstallStep {
    type V = StepModel;

    open spec fn view(&self) -> StepModel {
        match self {
            InstallStep::CreateDir { path } => StepModel::CreateDir(path@),
            InstallStep::CopyComponent { from, to } => StepModel::CopyComponent(from@, to@),
            InstallStep::CopyManifest { from, to } => StepModel::CopyManifest(from@, to@),
            InstallStep::CreateDataDir { path } => StepModel::CreateDataDir(path@),
            InstallStep::CopyData { from, to } => StepModel::CopyData(from@, to@),
        }
    }
}

/// The steps that install a built plugin into the plugins folder: its own
/// directory named by its id, its component as `plugin.wasm`, its manifest,
/// its data folder, and each data entry copied from the plugin's directory
/// into the data folder.
pub open spec fn install_steps(plugins_folder: Seq<char>, info: PluginBuildInfo) -> Seq<StepModel> {
    let dir = path_join(plugins_folder, info.id@);
    let data_dir = path_join(dir, info.data_folder@);
    seq![
        StepModel::CreateDir(dir),
        StepModel::CopyComponent(info.component@, path_join(dir, "plugin.wasm"@)),
        StepModel::CopyManifest(path_join(info.path@, "plugin.toml"@), path_join(dir, "plugin.toml"@)),
        StepModel::CreateDataDir(data_dir),
    ] + Seq::new(
        info.data@.len(),
        |i: int|
            StepModel::CopyData(
                path_join(info.path@, info.data@[i].0@),
                path_join(data_dir, info.data@[i].1@),
            ),
    )
}

/// The steps that install a built plugin into the plugins folder (see
/// [`install_steps`]).
pub fn copy_plugin_to_plugins_folder(plugins_folder: &str, info: &PluginBuildInfo) -> (steps: Vec<
    InstallStep,
>)
    ensures
        steps@.map_values(|s: InstallStep| s@) == install_steps(plugins_folder@, *info),
{
    let dir = join_path(plugins_folder, info.id.as_str());
    let data_dir = join_path(dir.as_str(), info.data_folder.as_str());
    let mut steps: Vec<InstallStep> = Vec::new();
    steps.push(InstallStep::CreateDir { path: dir.clone() });
    steps.push(
        InstallStep::CopyComponent {
            from: info.component.clone(),
            to: join_path(dir.as_str(), "plugin.wasm"),
        },
    );
    steps.push(
        InstallStep::CopyManifest {
            from: join_path(info.path.as_str(), "plugin.toml"),
            to: join_path(dir.as_str(), "plugin.toml"),
        },
    );
    steps.push(InstallStep::CreateDataDir { path: data_dir.clone() });
    let ghost head = steps@.map_values(|s: InstallStep| s@);
    let ghost target = install_steps(plugins_folder@, *info);
    assert(head =~= target.take(4));
    let mut i: usize = 0;
    while i < info.data.len()
        invariant
            i <= info.data@.len(),
            target == install_steps(plugins_folder@, *info),
            dir@ == path_join(plugins_folder@, info.id@),
            data_dir@ == path_join(dir@, info.data_folder@),
            steps@.map_values(|s: InstallStep| s@) == target.take(4 + i),
        decreases info.data@.len() - i,
    {
        let from = join_path(info.path.as_str(), info.data[i].0.as_str());
        let to = join_path(data_dir.as_str(), info.data[i].1.as_str());
        let ghost before = steps@;
        steps.push(InstallStep::CopyData { from, to });
        proof {
            assert(steps@.map_values(|s: InstallStep| s@) =~= before.map_values(|s: InstallStep| s@).push(steps@.last()@));
            assert(target.take(4 + i + 1) =~= target.take(4 + i).push(target[4 + i]));
        }
        i = i + 1;
    }
    proof {
        assert(target.take(4 + info.data@.len() as int) =~= target);
    }
    steps
}

/// Installing a plugin makes its directory `<folder>/<id>`, copies its
/// component there as `plugin.wasm` and its manifest as `plugin.toml`,
/// creates the data folder that its manifest names inside that directory,
/// and copies each data entry from the plugin's own directory into that data
/// folder, in order; nothing else.
pub proof fn law_install_into_manifest_data_folder(folder: Seq<char>, info: PluginBuildInfo)
    ensures
        install_steps(folder, info).len() == 4 + info.data@.len(),
        install_steps(folder, info)[0] == StepModel::CreateDir(path_join(folder, info.id@)),
        install_steps(folder, info)[1] == StepModel::CopyComponent(
            info.component@,
            path_join(path_join(folder, info.id@), "plugin.wasm"@),
        ),
        install_steps(folder, info)[2] == StepModel::CopyManifest(
            path_join(info.path@, "plugin.toml"@),
            path_join(path_join(folder, info.id@), "plugin.toml"@),
        ),
        install_steps(folder, info)[3] == StepModel::CreateDataDir(
            path_join(path_join(folder, info.id@), info.data_folder@),
        ),
        forall|j: int|
            0 <= j < info.data@.len() ==> #[trigger] install_steps(folder, info)[4 + j]
                == StepModel::CopyData(
                path_join(info.path@, info.data@[j].0@),
                path_join(path_join(path_join(folder, info.id@), info.data_folder@), info.data@[j].1@),
            ),
{
}

} // verus!
