//! An entity cache that keeps snapshots of chat-platform domain objects
//! (channels, guilds, members, roles, users) as flat byte archives and
//! serves reads straight from those archives.
//!
//! The heart of the crate is the patch-strategy selector: when an update
//! event arrives, the cache compares every variable-length field of the
//! event against the current archive.  If all of them are unchanged, the
//! fixed-width fields are written directly into the existing archive at
//! their constant offsets; otherwise the archive is decoded, mutated and
//! re-encoded as a whole.  Both paths are verified to produce the exact
//! encoding of the patched snapshot, so the two never disagree and a
//! patch can never corrupt the stored byte layout.

use vstd::prelude::*;

pub mod cache;
pub mod channel;
pub mod codec;
pub mod commands;
pub mod config;
pub mod context;
pub mod current_user;
pub mod game;
pub mod guild;
pub mod invoke;
pub mod member;
pub mod overwrite;
pub mod role;
pub mod scores;
pub mod user;

verus! {

/// How the cache failed to carry out an operation.
///
/// Absence of a key is not an error: reads return `Option` instead.
#[derive(Clone, Copy, PartialEq, Eq, Structural, Debug)]
pub enum CacheError {
    /// The stored bytes are not a well-formed archive of the expected kind.
    Decode,
}

/// Which of the two patch paths an update took.
#[derive(Clone, Copy, PartialEq, Eq, Structural, Debug)]
pub enum PatchMode {
    /// Every variable-length field was unchanged: the fixed-width fields
    /// were written into the existing archive at their constant offsets.
    InPlace,
    /// Some variable-length field differed: the archive was decoded,
    /// mutated and re-encoded as a whole.
    Rewrite,
}

} // verus!
