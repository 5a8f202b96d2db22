//! Core of the reloopy self-evolving agent runtime.

pub mod admin;
pub mod agent;
pub mod calendar;
pub mod capability;
pub mod compiler;
pub mod constitution;
pub mod crypto;
pub mod deepseek;
pub mod gitignore;
pub mod ipc_client;
pub mod json;
pub mod judge;
pub mod kernel;
pub mod lease;
pub mod log_err;
pub mod memory;
pub mod memory_writer;
pub mod messages;
pub mod migration;
pub mod msg_types;
pub mod paths;
pub mod protocol;
pub mod repo;
pub mod requests;
pub mod resource;
pub mod router;
pub mod runlevel;
pub mod scan;
pub mod scenario;
pub mod scripted_llm;
pub mod service;
pub mod source;
pub mod split;
pub mod state;
pub mod table;
pub mod text;
pub mod tools;
pub mod update;
pub mod version;
pub mod wire;
