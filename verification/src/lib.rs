//! Core of a command-line mod manager: the command registry, the dispatch
//! decisions of the interactive loop, the help menu, and the backup archiver.

pub mod archive;
pub mod backup;
pub mod command;
pub mod command_handler;
pub mod dispatch;
pub mod install;
pub mod json;
pub mod registry;
pub mod search;
pub mod text;
pub mod zip_store;
