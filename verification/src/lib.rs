//! Mod lifecycle management for a dedicated game server: which mods are
//! wanted, how an installation run proceeds, and which launch arguments
//! activate them. The library decides; its caller touches disk, network and
//! processes, and tells the library what it found.
//!
//! - `config`, `cli`: the configuration and the switches of a run.
//! - `collection_fetcher`, `collection_parser`: the mods of a collection
//!   page.
//! - `server`: the run as a whole, from the mods wanted to the arguments
//!   that start the server.
//! - `mods`, `install`: the installation of the mods, one at a time, as
//!   state machines.
//! - `model`: a model of the disk, and what the installations are proved to
//!   do to it.
//! - `steamcmd`: the download tool.
//! - `layout`, `text`, `transfer`, `lock`, `ui`: names on disk, text, what
//!   is asked of the network, the lock file, and what the user is shown.

pub mod cli;
pub mod collection_fetcher;
pub mod collection_parser;
pub mod config;
pub mod install;
pub mod layout;
pub mod lock;
pub mod model;
pub mod mods;
pub mod server;
pub mod steamcmd;
pub mod text;
pub mod transfer;
pub mod ui;
