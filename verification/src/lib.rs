//! Core of a terminal manga reader: the concurrent page-prefetch and
//! render-cache pipeline, and the navigation state machine that drives it.
//!
//! The pipeline downloads and decodes chapter pages in the background,
//! deduplicates in-flight work, bounds fetch concurrency with a permit pool,
//! and keeps two caches (decoded bitmaps and pre-built terminal-rendering
//! protocols) coherent with a resizable viewport. Network, decoding and
//! drawing are external collaborators; this crate holds the decisions and
//! the bookkeeping, with their contracts verified.

mod assoc;
pub mod ascii;
pub mod catalog;
pub mod coordinator;
pub mod error;
pub mod geometry;
pub mod manifest;
pub mod nav;
pub mod page_cache;
pub mod proto_cache;
mod text;
