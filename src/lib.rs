//! Reading, editing and writing SSH client configuration files.
//!
//! `sshconfig` holds the data model (the key vocabulary and host records),
//! `sshconfigfile` the line grammar and its serialisation, `app` the
//! keyboard-driven editing state machine, `buffer` the field editor's text
//! buffer, and `text` the character-level helpers the grammar is built on.
pub mod app;
pub mod buffer;
pub mod sshconfig;
pub mod sshconfigfile;
pub mod text;
