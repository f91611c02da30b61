//! Webhooks of Sonarr and Radarr: what they report drives the scanner.

pub mod changes;
pub mod files;
pub mod import;
pub mod payload;
