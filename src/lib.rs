//! A small interactive shell: the command pipeline (tokenizing, alias
//! expansion, pipeline building, strategy resolution, the executable index
//! and the process execution plan) as verified logic.

pub mod alias;
pub mod builtins;
pub mod command;
pub mod config;
pub mod env;
pub mod executor;
pub mod handler;
pub mod links;
pub mod prompt;
pub mod table;
pub mod text;
pub mod tokenizer;
