//! What the user asks for on the command line.

use std::path::PathBuf;

use vstd::prelude::*;

verus! {

#[derive(Debug)]
pub enum ConfigCommand {
    /// Get a configuration value.
    Get { key: String },
    /// Set a configuration value.
    Update { key: String, value: String },
}

#[derive(Debug)]
pub enum DeployCommand {
    /// Activate a deployment.
    Activate {
        /// Path to the deploy spec JSON file.
        deploy_spec: PathBuf,
        /// Deploy only to specific agents.
        agent: Vec<String>,
        /// Don't wait for deployment completion.
        async_mode: bool,
    },
    /// Run a deploy agent.
    Agent {
        agent_name: String,
        /// Nix profile path.
        profile: String,
        /// Exit once system agent takes over.
        bootstrap: bool,
    },
}

/// Shared push options.
#[derive(Debug, Clone, Copy)]
pub struct PushArgs {
    /// Compression level (0-16).
    pub compression_level: u32,
    /// Compression method.
    pub compression_method: Option<CompressionMethodArg>,
    /// Multipart upload chunk size in bytes.
    pub chunk_size: usize,
    /// Number of concurrent chunk uploads.
    pub num_concurrent_chunks: usize,
    /// Number of concurrent store path push jobs.
    pub jobs: usize,
    /// Don't publish which derivation built the path.
    pub omit_deriver: bool,
}

#[derive(Debug, Clone, Copy, PartialEq, Eq, Structural)]
pub enum InstallModeArg {
    Nixos,
    RootNixconf,
    UserNixconf,
}

#[derive(Debug, Clone, Copy, PartialEq, Eq, Structural)]
pub enum CompressionMethodArg {
    Xz,
    Zstd,
}

#[derive(Debug, Clone, Copy, PartialEq, Eq, Structural)]
pub enum WatchModeArg {
    Auto,
    Store,
    PostBuildHook,
}

}
