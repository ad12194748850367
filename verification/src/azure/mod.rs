//! The Azure Blob front door.

use vstd::prelude::*;
use crate::store::{BlockSession, Blocks};
use crate::table::Table;

pub mod access;
pub mod accounts;
pub mod adapter;
pub mod auth;
pub mod basics;
pub mod blobs;
pub mod blocks;
pub mod commits;
pub mod containers;
pub mod contents;
pub mod deletions;
pub mod guards;
pub mod holdings;
pub mod listings;
pub mod pages;
pub mod replies;
pub mod rules;
pub mod runs;
pub mod states;
pub mod writes;

verus! {

/// The adapter's memory: block sessions and committed blocks by the blob they are for.
pub struct AzureBlobAdapter {
    pub block_sessions: Table<BlockSession>,
    pub committed_blocks: Table<Blocks>,
}

impl AzureBlobAdapter {
    /// An adapter that remembers nothing.
    pub fn new() -> (r: Self)
        ensures
            r.block_sessions@.len() == 0,
            r.committed_blocks@.len() == 0,
    {
        AzureBlobAdapter { block_sessions: Table::new(), committed_blocks: Table::new() }
    }
}

impl Default for AzureBlobAdapter {
    fn default() -> (r: Self)
        ensures
            r.block_sessions@.len() == 0,
            r.committed_blocks@.len() == 0,
    {
        Self::new()
    }
}

} // verus!
