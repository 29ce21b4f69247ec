//! Host-side rules of an agent session manager.

pub mod acp;
pub mod acp_wire;
pub mod automation;
pub mod capability;
pub mod daemon;
pub mod decode;
pub mod events;
pub mod fields;
pub mod host_api;
pub mod hosts;
pub mod ip;
pub mod json;
pub mod launch_file;
pub mod laws;
pub mod order;
pub mod ordered;
pub mod payload;
pub mod plugin_settings;
pub mod profile_config;
pub mod projects;
pub mod protocol;
pub mod serve;
pub mod session;
pub mod session_api;
pub mod session_service;
pub mod session_spawn;
pub mod settings;
pub mod text;
pub mod turns;
