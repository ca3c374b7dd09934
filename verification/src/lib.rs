//! Provisioning of a web application server, as a verified library: the
//! text handling, the rules for the environment file and the proxy
//! configuration, and the state machine that sequences a deployment.

pub mod action;
pub mod collector;
pub mod commands;
pub mod env_example;
pub mod env_file;
pub mod error;
pub mod pipeline;
pub mod process;
pub mod repository;
pub mod segments;
pub mod settings;
pub mod template;
pub mod text;
