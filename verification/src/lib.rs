pub mod registry;
pub mod text;
pub mod json;
pub mod message;
pub mod workflow;
pub mod manifest;
pub mod manifest_doc;
pub mod project_runtime;
pub mod interactive_cli;
pub mod llm;
pub mod agent;
pub mod commands;
pub mod cli;
pub mod runtime;
pub mod bindings;
pub mod tooling;
pub mod event;
