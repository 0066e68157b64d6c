//! The command line, as plain values, and what a command line without a
//! subcommand asks for.
use vstd::prelude::*;

verus! {

/// The parsed command line.
pub struct Cli {
    pub command: Option<Commands>,
    /// Sync remote repository index
    pub sync: bool,
    /// Update target package(s) or all packages if none specified
    pub update: bool,
    /// Assume yes to all questions
    pub yes: bool,
    /// Packages to install/update
    pub packages: Vec<String>,
}

/// The subcommands.
pub enum Commands {
    /// Search for packages in VUR
    Search { query: String },
    /// Remove a package
    Remove { package: String },
    /// Manage VUR repositories
    Repo { command: RepoCommands },
    /// List the names of all packages, for shell completion
    ListPackages,
    /// Print a shell completion script
    Completion { shell: CompletionShell },
}

/// The repository subcommands.
pub enum RepoCommands {
    /// List configured repositories
    List,
    /// Add a repository
    Add { name: String, url: String },
    /// Remove a repository
    Remove { name: String },
}

/// The shells that completion scripts are written for.
#[derive(Debug, Clone, Copy, PartialEq, Eq, Structural)]
pub enum CompletionShell {
    Bash,
    Elvish,
    Fish,
    PowerShell,
    Zsh,
}

/// What a command line without a subcommand asks for.
#[derive(Debug, Clone, Copy, PartialEq, Eq, Structural)]
pub enum Plan {
    /// Nothing was asked: print the usage.
    Help,
    /// Only synchronize the index.
    SyncOnly,
    /// Upgrade every installed package that the index holds.
    UpgradeAll,
    /// Install the named packages, one after another.
    InstallPackages,
}

/// What the flags `sync` and `update` ask for, with `has_packages` telling
/// whether packages were named.
pub open spec fn plan_of(sync: bool, update: bool, has_packages: bool) -> Plan {
    if has_packages {
        Plan::InstallPackages
    } else if update {
        Plan::UpgradeAll
    } else if sync {
        Plan::SyncOnly
    } else {
        Plan::Help
    }
}

impl Cli {
    /// What this command line asks for when it has no subcommand. The index is
    /// refreshed by force exactly when `sync` is set.
    pub fn plan(&self) -> (r: Plan)
        ensures
            r == plan_of(self.sync, self.update, self.packages@.len() > 0),
    {
        if self.packages.len() > 0 {
            Plan::InstallPackages
        } else if self.update {
            Plan::UpgradeAll
        } else if self.sync {
            Plan::SyncOnly
        } else {
            Plan::Help
        }
    }
}

} // verus!
