//! The logic of the Mote coding-assistant server: agent loop, tools, prompts,
//! sessions, configuration and model-provider streams.

pub mod agent;
pub mod auth;
pub mod clock;
pub mod config;
pub mod history;
pub mod json;
pub mod llm;
pub mod paths;
pub mod prompt;
pub mod protocol;
pub mod server;
pub mod session;
pub mod strmap;
pub mod text;
pub mod tools;
