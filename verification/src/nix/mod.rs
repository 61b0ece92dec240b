//! The Nix side: store paths, narinfo signatures and the encodings they use.

pub mod base32;
pub mod sign;
pub mod store;
