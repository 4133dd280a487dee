//! A self-hosted wiki whose pages live in version-controlled volumes.
//!
//! The crate holds the decisions of the service: how repository status words
//! are classified, how the synchronisation workflows proceed and fail, who may
//! touch a volume and when, how stored credentials are sealed, and how wiki
//! links are recognised in page text. Everything that touches a disk, a socket
//! or a browser is left to the program that embeds the crate.

pub mod access;
pub mod auth;
pub mod git;
pub mod keys;
pub mod pages;
pub mod palette;
pub mod registry;
pub mod routes;
pub mod search;
pub mod status;
pub mod sync;
pub mod text;
pub mod tree;
pub mod wikilink;
