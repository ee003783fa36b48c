//! What clients send with each command.

use vstd::prelude::*;
use crate::file_picker::FilePickerConfig;
use crate::library::{Library, Parser, ROMMetadata};
use crate::settings::SettingValue;

verus! {

/// The arguments of a command that takes none but the password digest.
#[derive(Debug, PartialEq, Eq)]
pub struct SimpleArgs {
    pub password_hash: String,
}

/// The arguments of the command that logs the user in.
#[derive(Debug, PartialEq, Eq)]
pub struct AuthArgs {
    pub password_hash: String,
    pub user: String,
}

/// The arguments of the command that changes one setting.
#[derive(Debug, PartialEq, Eq)]
pub struct SetSettingArgs {
    pub password_hash: String,
    /// Dotted key of the setting.
    pub key: String,
    pub value: SettingValue,
}

/// The arguments of the command that moves to another library.
#[derive(Debug, PartialEq, Eq)]
pub struct ModifyLibraryArgs {
    pub password_hash: String,
    pub library: Library,
}

/// The arguments of the command that catalogs one added ROM.
#[derive(Debug, PartialEq, Eq)]
pub struct ParseRomArgs {
    pub password_hash: String,
    /// Abbreviation of the parser to use.
    pub parser: String,
    pub rom_path: String,
}

/// The arguments of the command that lists a directory for the file picker.
#[derive(Debug, PartialEq, Eq)]
pub struct FilePickerArgs {
    pub password_hash: String,
    pub path: String,
    pub config: FilePickerConfig,
}

/// The arguments of the command that saves the metadata of ROMs, each under
/// the ROM's identifier.
#[derive(Debug, PartialEq, Eq)]
pub struct MetadataArgs {
    pub password_hash: String,
    pub data: Vec<(String, ROMMetadata)>,
}

/// The arguments of the command that saves parsers.
#[derive(Debug, PartialEq, Eq)]
pub struct ParsersArgs {
    pub password_hash: String,
    pub data: Vec<Parser>,
}

/// The arguments of the command that deletes a parser.
#[derive(Debug, PartialEq, Eq)]
pub struct DeleteParserArgs {
    pub password_hash: String,
    pub abbreviation: String,
}

/// The arguments of the commands that add or delete an extra file of a ROM.
#[derive(Debug, PartialEq, Eq)]
pub struct ModifyExtraFileArgs {
    pub password_hash: String,
    /// `dlc` for downloadable content; anything else for an update.
    pub file_type: String,
    pub rom_id: String,
    pub filename: String,
}

/// The arguments of the command that checks a glob expression.
#[derive(Debug, PartialEq, Eq)]
pub struct GlobArgs {
    pub password_hash: String,
    pub glob: String,
}

} // verus!
