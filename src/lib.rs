//! A typed client library for a generative-AI HTTP API: request configuration
//! per capability, the conversation history of the chat capability, and the
//! reassembly of a streamed chat answer from its server-sent-event lines.
//!
//! The library decides; its caller moves bytes. A caller sends the wire form
//! of a configuration (`wire`) as the body of a request, hands each chunk of a
//! streamed body to `stream` and each decoded event back to a `Reassembler`,
//! and folds the answer into the conversation with the steps of `client`.

pub mod audio;
pub mod chat;
pub mod client;
pub mod decimal;
pub mod embeddings;
pub mod files;
pub mod fine_tunes;
pub mod image;
pub mod misc;
pub mod moderations;
pub mod stream;
pub mod text;
pub mod wire;
