//! Evento: a YAML-described load and integration testing engine.
//!
//! The verified library holds the test-plan language (its document model and
//! decoder), the compiler that turns a plan into a task graph, the decisions of the
//! virtual-user workers, and the small formats of the stores and services.
pub mod keymap;
pub mod text;
pub mod value;
pub mod dsl;
pub mod state;
pub mod compiler;
pub mod context;
pub mod config;
pub mod worker;
pub mod decode;
pub mod reader;
pub mod protocol;
pub mod rules;
pub mod simulator;
pub mod api;
pub mod store;
pub mod admin;
pub mod mcp;
pub mod cli;
