//! A filesystem-backed object store with an S3-like namespace: the storage
//! engine's decisions, stated and proved.
//!
//! The engine keeps the bucket index, validates names and keys, derives
//! on-disk locations, computes content tags, answers prefix/delimiter
//! listings and aggregates statistics. It performs no input or output of its
//! own: every operation takes what was observed on disk as plain values and
//! returns what has to be written or removed.

pub mod address;
pub mod cleanup;
pub mod cli;
pub mod clock;
pub mod config;
pub mod content_type;
pub mod digest;
pub mod error;
pub mod index;
pub mod laws;
pub mod listing;
pub mod models;
pub mod naming;
pub mod objects;
pub mod paths;
pub mod scan;
pub mod size;
pub mod sorting;
pub mod storage;
pub mod text;
