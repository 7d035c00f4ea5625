//! Add-on reconciliation and installation engine for a game client.
//!
//! The library decides everything the installer does: it parses the remote
//! add-on manifest, decides from directory listings whether an add-on is
//! installed, tracks download progress and integrity, keeps archive
//! extraction inside its scratch directory, classifies the extracted layout,
//! plans content placement and removal, and owns the per-add-on worker state
//! machine.  The surrounding process performs the actual network and
//! filesystem traffic and feeds the results back in as plain values.

pub mod addon;
pub mod archive;
pub mod config;
pub mod download;
pub mod install;
pub mod json;
pub mod listing;
pub mod manifest;
pub mod paths;
pub mod state;
pub mod strutil;
