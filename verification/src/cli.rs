//! Plain argument records for each subcommand. Parsing them from a command
//! line, dispatch and presentation live outside the library.

use vstd::prelude::*;

verus! {

/// Arguments of the install subcommand.
#[derive(Debug)]
pub struct InstallArgs {
    pub packages: Vec<String>,
    pub yes: bool,
    pub dry_run: bool,
    pub force: bool,
}

/// Arguments of the search subcommand.
#[derive(Debug)]
pub struct SearchArgs {
    pub query: String,
    pub description: bool,
    pub verbose: bool,
    pub category: Option<String>,
    pub installed: bool,
}

/// Arguments of the list subcommand.
#[derive(Debug)]
pub struct ListArgs {
    pub installed: bool,
    pub available: bool,
    pub category: Option<String>,
    pub verbose: bool,
}

/// Arguments of the update subcommand.
#[derive(Debug)]
pub struct UpdateArgs {
    pub definitions_only: bool,
    pub packages_only: bool,
    pub yes: bool,
    pub check: bool,
}

/// Arguments of the info subcommand.
#[derive(Debug)]
pub struct InfoArgs {
    pub package: String,
    pub dependencies: bool,
    pub installation: bool,
}

/// Arguments of the remove subcommand.
#[derive(Debug)]
pub struct RemoveArgs {
    pub packages: Vec<String>,
    pub yes: bool,
    pub autoremove: bool,
    pub dry_run: bool,
}

/// One configuration action.
#[derive(Debug)]
pub enum ConfigCommand {
    Show,
    SetValue { key: String, value: String },
    Get { key: String },
    AddPath { path: String },
    RemovePath { path: String },
    Reset,
}

/// Arguments of the config subcommand.
#[derive(Debug)]
pub struct ConfigArgs {
    pub command: ConfigCommand,
}

/// The subcommands the tool offers.
#[derive(Debug)]
pub enum Commands {
    Install(InstallArgs),
    Search(SearchArgs),
    List(ListArgs),
    Update(UpdateArgs),
    Info(InfoArgs),
    Remove(RemoveArgs),
    Config(ConfigArgs),
}

/// The parsed command line: global switches and one subcommand.
#[derive(Debug)]
pub struct Cli {
    pub verbose: bool,
    pub no_color: bool,
    pub config: Option<String>,
    pub command: Commands,
}

} // verus!
