//! A versioned package catalog over object storage.
//!
//! The library parses package identities from request text and from stored
//! file names, builds an in-memory index from a flat bucket listing, and
//! decides version resolution, installation batches and publish requests.
//! Every function carries a proved contract; the surrounding program does
//! the network and file work and hands plain values in and out.

pub mod active_config;
pub mod chars;
pub mod config;
pub mod index;
pub mod install;
pub mod package;
pub mod package_version;
pub mod publish;
pub mod runtime_config;
pub mod semantic_version;
pub mod specifier;
pub mod storage;
