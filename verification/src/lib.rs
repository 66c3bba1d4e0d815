//! A tolerant reader for markdown task ledgers, with the state that a
//! dashboard derives from them.

pub mod app;
pub mod data;
pub mod event;
pub mod text;
pub mod ui;
