//! SongHunter's verified core: the decisions of a service that finds the
//! songs in the audio of a link. It cleans up links, prepares the command
//! lines of the download and audio tools, reads the answers of the
//! identification providers, merges and ranks them, drives each task's
//! pipeline, chooses the ads of the page, and guards the API with an origin
//! check and a per-client rate limit.

pub mod ads;
pub mod audio;
pub mod cache;
pub mod config;
pub mod download;
pub mod error;
pub mod identifiers;
pub mod models;
pub mod routes;
pub mod security;
pub mod text;
pub mod worker;
