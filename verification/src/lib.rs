//! Verified core of the BROKE PROTOCOL ModLoader installer.
//!
//! - [`steam`]: reading Steam's `libraryfolders.vdf`, and the places where
//!   the game may stand.
//! - [`json`], [`patch`]: the JSON lists of Unity that the installer edits,
//!   and the two edits, which only append and are idempotent.
//! - [`installer`]: installing and uninstalling, as a state machine whose
//!   actions (file checks, copies, reads, writes, removals) its caller
//!   performs.
//! - [`disk`]: a model of the game folder as those actions change it, and
//!   what an install and an uninstall leave of it.
//! - [`layout`], [`text`]: names of the game's files, and text functions.

pub mod disk;
pub mod installer;
pub mod json;
pub mod layout;
pub mod patch;
pub mod steam;
pub mod text;
