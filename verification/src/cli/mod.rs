//! Command layer: error mapping and exit codes, output rendering, time
//! formatting, shell setup text and the helpers of the interactive session.
pub mod error;
pub mod format;
pub mod shell;
pub mod time;
pub mod session;
pub mod state;
pub mod keys;
pub mod flow;
pub mod panes;
pub mod commands;
pub mod report;
