//! The `stack` subcommand.

use vstd::prelude::*;

use crate::text::{join_path, path_join};

verus! {

/// What to do with a whole stack.
pub enum StackCommand {
    /// Build every plugin of the stack and install them.
    Build,
    /// Build and install every plugin, then serve the stack and its dashboard.
    Serve,
}

/// The `stack` subcommand's arguments: the command and the stack's directory.
pub struct StackArgs {
    pub command: StackCommand,
    pub manifest_path: String,
}

/// The work that a `stack` invocation asks for.
pub enum StackAction {
    /// Build and install the stack at this directory.
    Build { path: String },
    /// Build and install the stack at this directory, then serve it.
    Serve { path: String },
}

/// Decides the work that the `stack` subcommand does for its arguments.
pub fn run(args: StackArgs) -> (action: StackAction)
    ensures
        match args.command {
            StackCommand::Build => action == StackAction::Build { path: args.manifest_path },
            StackCommand::Serve => action == StackAction::Serve { path: args.manifest_path },
        },
{
    match args.command {
        StackCommand::Build => StackAction::Build { path: args.manifest_path },
        StackCommand::Serve => StackAction::Serve { path: args.manifest_path },
    }
}

/// Where a stack build reads and writes: the stack manifest and the
/// directory that the built plugins are installed into.
pub struct StackBuildPlan {
    pub manifest: String,
    pub plugins_dir: String,
}

/// Plans the build of the stack at `path`: its manifest is `wassel.toml` and
/// its plugins are installed under `plugins`, both inside `path`.
pub fn cmd_build(path: &str) -> (plan: StackBuildPlan)
    ensures
        plan.manifest@ == path_join(path@, "wassel.toml"@),
        plan.plugins_dir@ == path_join(path@, "plugins"@),
{
    StackBuildPlan { manifest: join_path(path, "wassel.toml"), plugins_dir: join_path(path, "plugins") }
}

} // verus!
