//! The command line: where the data lives and what to do, and how the
//! selector starts from it.
use vstd::prelude::*;

verus! {

/// The parsed command line.
#[derive(Debug, Clone, PartialEq, Eq)]
pub struct Cli {
    /// Path to opencode's SQLite database.
    pub db: Option<String>,
    /// Path to the folders sidecar file.
    pub folders: Option<String>,
    /// Show every session across all projects.
    pub global: bool,
    /// What to do instead of opening the selector.
    pub command: Option<Command>,
}

/// A subcommand.
#[derive(Debug, Clone, PartialEq, Eq)]
pub enum Command {
    /// Launch a specific session by ID.
    Session { id: String },
    /// List sessions as JSON.
    List { archived: bool },
    /// Open the selector on all projects.
    Global,
    /// Replace the installed binary with the newest release.
    Upgrade,
}

/// How the selector opens.
#[derive(Debug, Clone, PartialEq, Eq)]
pub struct Startup {
    /// The project whose sessions are shown, if any.
    pub project_filter: Option<String>,
    pub folders_enabled: bool,
    pub global_mode: bool,
}

/// The selector was asked to show all projects.
pub open spec fn wants_global(cli: Cli) -> bool {
    cli.global || cli.command == Some(Command::Global)
}

/// How the selector opens: in global mode on every project with folders
/// off; otherwise on the project of the working directory (`cwd_project`),
/// with folders as configured.
pub fn startup(cli: &Cli, cwd_project: Option<String>, folders_configured: bool) -> (r: Startup)
    ensures
        wants_global(*cli) ==> r == (Startup { project_filter: None, folders_enabled: false, global_mode: true }),
        !wants_global(*cli) ==> r == (Startup {
            project_filter: cwd_project,
            folders_enabled: folders_configured,
            global_mode: false,
        }),
{
    let global = cli.global || matches!(cli.command, Some(Command::Global));
    if global {
        Startup { project_filter: None, folders_enabled: false, global_mode: true }
    } else {
        Startup { project_filter: cwd_project, folders_enabled: folders_configured, global_mode: false }
    }
}

} // verus!
