//! Message-handling rules of a small Discord bot: Facebook link rewriting,
//! keyword replies, Open Graph metadata extraction, the replies of the
//! playful commands and the reading of configuration values.

pub mod text;
pub mod string_map;
pub mod data;
pub mod config_reader;
pub mod link_helper;
pub mod rng;
pub mod events;
pub mod commands;
pub mod embed;
pub mod env_variable_error;
pub mod env_variables;
