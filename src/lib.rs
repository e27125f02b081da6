//! Profiles for the Codex command-line tool, and the synchronisation of a
//! chosen profile onto the tool's live configuration files.
//!
//! The library holds the logic: identifier rules, profile bookkeeping, the
//! merge of a profile into the tool's structured configuration and secret
//! document, and the inverse read path. File access stays with the caller.

pub mod assoc;
pub mod model;
pub mod toml_doc;
pub mod codec;
pub mod sync;
pub mod json_doc;
pub mod live;
pub mod paths;
pub mod store;
pub mod listing;
pub mod apply;
pub mod laws;
