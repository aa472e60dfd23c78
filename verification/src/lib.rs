//! Verified core of the NexusGate tunnelling system: configuration models
//! for the admin panel, the server node and the edge client, the admin hub's
//! peer registry and port planning, the admin proxy's request rewriting and
//! the server's bookkeeping of logs, listeners and visitors waiting for a
//! direct dial.

pub mod text;
pub mod port_plan;
pub mod proxy;
pub mod admin_config;
pub mod registry;
pub mod common;
pub mod edge_config;
pub mod server_config;
pub mod codec;
pub mod hub;
pub mod server_state;
pub mod api;
pub mod admin_api;
pub mod static_files;
pub mod hub_client;
pub mod session;
