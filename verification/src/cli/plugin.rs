//! The `plugin` subcommand.

use vstd::prelude::*;

verus! {

/// What to do with a single plugin.
pub enum PluginCommand {
    /// Build the plugin.
    Build,
    /// Build the plugin, install it alone and serve it.
    Serve,
}

/// The `plugin` subcommand's arguments: the command and the plugin's directory.
pub struct PluginArgs {
    pub command: PluginCommand,
    pub path: String,
}

/// The work that a `plugin` invocation asks for.
pub enum PluginAction {
    /// Build the plugin at this directory.
    Build { path: String },
    /// Build the plugin at this directory, install it and serve it.
    Serve { path: String },
}

/// Decides the work that the `plugin` subcommand does for its arguments.
pub fn run(args: PluginArgs) -> (action: PluginAction)
    ensures
        match args.command {
            PluginCommand::Build => action == PluginAction::Build { path: args.path },
            PluginCommand::Serve => action == PluginAction::Serve { path: args.path },
        },
{
    match args.command {
        PluginCommand::Build => PluginAction::Build { path: args.path },
        PluginCommand::Serve => PluginAction::Serve { path: args.path },
    }
}

} // verus!
