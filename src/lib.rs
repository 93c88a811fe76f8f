//! Routing of chat messages to typed commands: a tokenizer for message
//! segments, a schema-driven argument parser that gathers every error, and a
//! tree of command groups that dispatches a token stream.

pub mod token;
pub mod message;
pub mod text;
pub mod error;
pub mod syntax;
pub mod literal;
pub mod parser;
pub mod distributor;
pub mod server;
pub mod fetch;
pub mod data;
pub mod command;
