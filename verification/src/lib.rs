//! Bookkeeping for a local mirror of workshop items: which files belong to
//! which item, whether they are still intact, and what has to be fetched,
//! moved or removed to bring the mirror in line with its source.

pub mod collection;
pub mod command;
pub mod config;
pub mod digest;
pub mod ingest;
pub mod integrity;
pub mod manager;
pub mod maps;
pub mod model;
pub mod paths;
pub mod policy;
pub mod removal;
pub mod resolve;
pub mod size;
pub mod store;
pub mod sync;
pub mod text;
pub mod transfer;
