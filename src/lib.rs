//! Drug resolution and append-only audit log for veterinary encounters.
pub mod boundary;
pub mod compat;
pub mod export;
pub mod extraction;
pub mod hashing;
pub mod inclusion;
pub mod merkle;
pub mod models;
pub mod normalizer;
pub mod prompts;
pub mod ranking;
pub mod search;
pub mod sync;
pub mod text;
pub mod tree;
