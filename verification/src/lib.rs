//! Core of a batch video-conversion front end: builds the shell invocation of
//! an external conversion script, parses the script's log lines into typed
//! progress events, aggregates a monotonic completion percentage, and tracks
//! running jobs in a registry so they can be terminated.
pub mod chars;
pub mod command;
pub mod events;
pub mod files;
pub mod ident;
pub mod parse;
pub mod path;
pub mod registry;
pub mod session;
pub mod time;
