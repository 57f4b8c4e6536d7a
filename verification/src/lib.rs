//! Verified core of the Whisper messenger back end: the data model, the
//! rules that turn requests into replies, and the chat server's decisions.
pub mod errors;
pub mod models;
pub mod types;
pub mod server;
pub mod session;
pub mod message_handlers;
pub mod controllers;
