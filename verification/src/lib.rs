//! Storage and change-tracking engine of the Synker file server.
//!
//! The engine never touches the disk itself. It resolves client-visible
//! paths against one storage root, decides what each storage operation has
//! to do, derives the metadata record of an entry from what the caller
//! observed, and orders listings and change feeds.
//!
//! - [`path`] maps client-visible paths to locations under the root and
//!   back; [`path_laws`] holds what is true of that mapping.
//! - [`checksum`] and [`metadata`] make the record of an entry.
//! - [`filesystem`] is the storage service; [`disk`] and
//!   [`filesystem_laws`] follow its operations through.
//! - [`listing`] and [`changes`] put listings and change feeds in order,
//!   by the rules of [`ordering`].
//! - [`config`], [`auth`], [`requests`] and [`mycloud`] hold the rules of
//!   the server around the engine.

pub mod auth;
pub mod changes;
pub mod checksum;
pub mod config;
pub mod disk;
pub mod error;
pub mod filesystem;
pub mod filesystem_laws;
pub mod listing;
pub mod metadata;
pub mod mycloud;
pub mod ordering;
pub mod path;
pub mod path_laws;
pub mod requests;
pub mod text;
pub mod types;
