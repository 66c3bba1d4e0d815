//! What the panes of the dashboard show. Drawing is left to the program.

pub mod detail;
pub mod gantt;
pub mod help;
pub mod layout;
pub mod retry_modal;
pub mod statusbar;
