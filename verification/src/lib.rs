//! Core of a local desktop chat assistant: workspaces, folders and chats kept
//! in JSON index files, and a streaming pipeline that reassembles the model
//! backend's newline-delimited reply records.

pub mod chats;
pub mod codec;
pub mod entities;
pub mod errors;
pub mod folders;
pub mod idgen;
pub mod laws;
pub mod lookup;
pub mod models;
pub mod store;
pub mod stream;
pub mod strutil;
pub mod workspaces;
