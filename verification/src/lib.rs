//! A command-line client that keeps files end-to-end encrypted with
//! AES-256-GCM on a OneDrive account. This crate holds the verified core:
//! text handling, key derivation, encryption framing, credential and
//! remote paths, and the decisions of the login and command flows.

pub mod text;
pub mod encryption;
pub mod key;
pub mod credentials;
pub mod remote;
pub mod drive;
pub mod cli;
