//! The ledger, the state derived from it, and the watch on its files.

pub mod id_map;
pub mod state;
pub mod tasks_parser;
pub mod tasks_writer;
pub mod watcher;
