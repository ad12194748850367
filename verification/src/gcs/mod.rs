//! The Google Cloud Storage front door.

use vstd::prelude::*;
use crate::store::UploadSession;
use crate::table::Table;

pub mod adapter;
pub mod auth;
pub mod basics;
pub mod buckets;
pub mod changes;
pub mod checks;
pub mod contents;
pub mod guards;
pub mod json_api;
pub mod listings;
pub mod multipart;
pub mod objects;
pub mod pages;
pub mod replies;
pub mod runs;
pub mod sessions;
pub mod stores;
pub mod uploads;
pub mod xml_api;

verus! {

/// The adapter's memory: upload sessions by their identifier.
pub struct GcsAdapter {
    pub resumable_sessions: Table<UploadSession>,
}

impl GcsAdapter {
    /// An adapter that remembers nothing.
    pub fn new() -> (r: Self)
        ensures
            r.resumable_sessions@.len() == 0,
    {
        GcsAdapter { resumable_sessions: Table::new() }
    }
}

impl Default for GcsAdapter {
    fn default() -> (r: Self)
        ensures
            r.resumable_sessions@.len() == 0,
    {
        Self::new()
    }
}

} // verus!
