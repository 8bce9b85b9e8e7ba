//! Resolution and assembly logic for materialising a game installation:
//! maven coordinates, download planning, native-library selection,
//! platform-conditional rules and the final profile descriptor.

pub mod error;
pub mod coordinate;
pub mod manifest;
pub mod rules;
pub mod paths;
pub mod base;
pub mod loader;
pub mod natives;
pub mod download;
pub mod profile;
pub mod assembly;
pub mod config;
