//! An inbox of messages on disk: listing, showing, marking read, leaving notes, and draining
//! what is routine.
//!
//! Everything here decides and words; nothing here touches a file. What the file system, the
//! clock and the rest of the program have to say comes in as plain values or as functions,
//! and each contract states what is done with it.
pub mod archive;
pub mod args;
pub mod command;
pub mod command_laws;
pub mod config;
pub mod decimal;
pub mod drain;
pub mod drain_args;
pub mod drain_args_laws;
pub mod drain_laws;
pub mod drain_report;
pub mod drain_run;
pub mod drain_run_laws;
pub mod list;
pub mod list_laws;
pub mod mark_read;
pub mod model;
pub mod show;
pub mod show_laws;
pub mod table;
pub mod text;
pub mod text_laws;
pub mod value_laws;
pub mod write;
