//! Catalog of a game-ROM collection and the bookkeeping of resumable transfers.
//!
//! The crate holds the rules of the system as functions on plain values, each
//! with a contract that Verus checks:
//!
//! - [`admission`], [`pattern`], [`parsers`], [`scanner`]: which files are
//!   ROMs of which system, what they are called, and which parsers may say
//!   so;
//! - [`watcher`]: the requests to watch directories, the table of watched
//!   directories, and the notifications that raw filesystem events call for;
//! - [`transfer`], [`upload`], [`download`], [`archive`]: the progress of
//!   chunked uploads with the sweep of abandoned ones, what is asked of a
//!   request, and where the entries of an archive go;
//! - [`protocol`], [`auth`], [`state`], [`settings`]: the frames between
//!   server and clients, the check in front of every command, and what the
//!   server remembers between commands;
//! - [`igdb`], [`sgdb`], [`grids`], [`file_picker`]: metadata, artwork and the
//!   file picker;
//! - [`text`], [`paths`], [`table`], [`listing`], [`library`], [`extras`],
//!   [`args`]: the values that all of this is stated over.
//!
//! Reading directories, serving HTTP and watching the filesystem are left to
//! the program built around the crate, which hands in what it read and
//! carries out what the crate decides.

pub mod text;
pub mod paths;
pub mod table;
pub mod listing;
pub mod library;
pub mod extras;
pub mod admission;
pub mod pattern;
pub mod parsers;
pub mod scanner;
pub mod watcher;
pub mod transfer;
pub mod upload;
pub mod download;
pub mod archive;
pub mod protocol;
pub mod auth;
pub mod state;
pub mod settings;
pub mod args;
pub mod file_picker;
pub mod grids;
pub mod igdb;
pub mod sgdb;
