//! The commands that a user can select, each with the line that the menu
//! shows for it.

use vstd::prelude::*;

verus! {

/// A command of the mod manager.
#[derive(Clone, Copy, Debug, PartialEq, Eq, Structural)]
pub enum Command {
    Search,
    Install,
    Uninstall,
    PrintConfig,
    EditConfig,
    List,
    Help,
    Quit,
    CreateBackup,
}

impl Command {
    /// The line that the menu shows for the command.
    pub open spec fn description_text(self) -> Seq<char> {
        match self {
            Command::Search => "search for mods"@,
            Command::Install => "install a mod"@,
            Command::Uninstall => "uninstall a mod"@,
            Command::PrintConfig => "print the config"@,
            Command::EditConfig => "edit the config"@,
            Command::List => "list installed mods"@,
            Command::Help => "print this help menu"@,
            Command::Quit => "quit the program"@,
            Command::CreateBackup => "create a backup of the mods folder"@,
        }
    }

    /// The line that the menu shows for the command.
    pub fn description(self) -> (r: &'static str)
        ensures
            r@ == self.description_text(),
    {
        match self {
            Command::Search => "search for mods",
            Command::Install => "install a mod",
            Command::Uninstall => "uninstall a mod",
            Command::PrintConfig => "print the config",
            Command::EditConfig => "edit the config",
            Command::List => "list installed mods",
            Command::Help => "print this help menu",
            Command::Quit => "quit the program",
            Command::CreateBackup => "create a backup of the mods folder",
        }
    }
}

} // verus!
