//! Neonmachines: graph-based orchestration of prompt-driven agents.
//!
//! The library holds the verified core: the `config.nm` workflow format,
//! command handling, routing between agents, validation of agent replies,
//! rate limiting, circuit breaking and the extension registry.
pub mod text;
pub mod json;
pub mod paths;
pub mod nm_config;
pub mod session;
pub mod commands;
pub mod runner;
pub mod agents;
pub mod clock;
pub mod error;
pub mod rate_limiter;
pub mod nmmcp;
pub mod tools;
pub mod metrics;
pub mod web;
pub mod state;
pub mod cli;
pub mod graphemes;
pub mod chat;
pub mod let_vars;
