//! Mirrors a remote file tree, listed directory by directory, into local
//! storage: the decisions of the crawl, of each download and of the
//! scheduler, as verified state machines.

pub mod config;
pub mod crawl;
pub mod crawl_laws;
pub mod fetch;
pub mod fetch_laws;
pub mod listing;
pub mod logger;
pub mod metadata;
pub mod queue;
pub mod schedule;
pub mod text;
