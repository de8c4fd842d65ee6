//! Plain records handed across the boundary to a user interface.
use vstd::prelude::*;
use crate::tree::{LeafCommit, TreeStats, opt_view};

verus! {

/// A catalog item as shown to a user interface.
#[derive(Debug)]
pub struct FfiCatalogItem {
    pub sku: String,
    pub name: String,
    pub aliases: Vec<String>,
    pub concentration: Option<String>,
    pub package_size: Option<String>,
    pub species: Vec<String>,
    pub routes: Vec<String>,
    pub active: bool,
}

/// The outcome of a commit, without its proof.
#[derive(Debug)]
pub struct FfiLeafCommit {
    pub leaf_hash: String,
    pub root_hash: String,
    pub tree_height: u32,
    pub leaf_count: u32,
}

/// Tree statistics.
#[derive(Debug)]
pub struct FfiTreeStats {
    pub root_hash: Option<String>,
    pub height: u32,
    pub leaf_count: u32,
}

impl FfiLeafCommit {
    /// Drops the proof of a commit.
    pub fn from_commit(c: LeafCommit) -> (r: FfiLeafCommit)
        ensures
            r.leaf_hash@ == c.leaf_hash@,
            r.root_hash@ == c.root_hash@,
            r.tree_height == c.tree_height,
            r.leaf_count == c.leaf_count,
    {
        FfiLeafCommit {
            leaf_hash: c.leaf_hash,
            root_hash: c.root_hash,
            tree_height: c.tree_height,
            leaf_count: c.leaf_count,
        }
    }
}

impl FfiTreeStats {
    /// The same statistics.
    pub fn from_stats(s: TreeStats) -> (r: FfiTreeStats)
        ensures
            opt_view(r.root_hash) == opt_view(s.root_hash),
            r.height == s.height,
            r.leaf_count == s.leaf_count,
    {
        FfiTreeStats { root_hash: s.root_hash, height: s.height, leaf_count: s.leaf_count }
    }
}

} // verus!
