//! Verified core of a Neovim plugin manager: parsing plugin locations,
//! deciding what installing and updating a plugin has to do, building the
//! lock file, and the queries over the plugin database.

pub mod data;
pub mod database;
pub mod fs;
pub mod git;
pub mod handle;
pub mod lockfile;
pub mod process;
pub mod symlink;
pub mod text;
