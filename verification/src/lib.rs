//! Client for Nix binary caches: signing, publishing and pushing of store paths, the
//! configuration of Nix, the push daemon and deployments. What reads and writes files,
//! sends requests and runs programs is left to the program around the library.

pub mod api;
pub mod cli;
pub mod commands;
pub mod config;
pub mod crypto;
pub mod daemon;
pub mod deploy;
pub mod doctor;
pub mod import;
pub mod nix;
pub mod nixconf;
pub mod push;
pub mod text;
