//! A command-line chat client for OpenAI-compatible chat completion servers: the
//! conversation history, the handling of the server's replies, and the configuration.

pub mod text;
pub mod json;
pub mod api;
pub mod config;
pub mod chat;
