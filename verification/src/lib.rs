//! Keeps an installed ElvUI add-on up to date.
//!
//! The library holds the decisions of an update run: how versions are read
//! and ordered, how the installed version is found in the add-on's manifest,
//! when an update is due, and in which order the installer touches the disk.
//! Everything that performs I/O is left to the caller, who reports each
//! outcome back as a plain value.

pub mod config;
pub mod decimal;
pub mod decision;
pub mod installer;
pub mod manifest;
pub mod metadata;
pub mod order;
pub mod provider;
pub mod run;
pub mod text;
pub mod version;
