//! Archiving of a chat community's text channels, their message history and
//! their attachments into a portable snapshot.
//!
//! The library holds the decisions of an archive run: which channels are
//! archived, how history pages are chained, which links are worth keeping,
//! how harvested files are named, how a transcript is assembled and grouped,
//! how per-channel failures are isolated, and how the archive is laid out on
//! disk. Talking to the chat platform, to the network and to the file system
//! is left to the caller, which feeds the results back in as plain values.

pub mod model;
pub mod selector;
pub mod history;
pub mod text;
pub mod links;
pub mod harvest;
pub mod assemble;
pub mod run;
pub mod layout;
