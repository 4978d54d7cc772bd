//! The logic of a command-line assistant that asks a language model to fix,
//! explain or improve a shell command: the prompt it sends, the reading of
//! the reply, and the decisions around running the suggested command.
pub mod text;
pub mod number;
pub mod config;
pub mod parser;
pub mod shell;
pub mod prompt;
pub mod executor;
pub mod display;
pub mod openai;
