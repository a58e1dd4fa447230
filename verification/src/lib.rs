//! A small client/server system: a registry of connected clients, the
//! configuration of both ends, the server's connection and console
//! protocols, the agent's command protocol and sensor text handling.
pub mod text;
pub mod maps;
pub mod pattern;
pub mod agent;
pub mod agent_json;
pub mod clientdata;
pub mod servermod;
pub mod client;
pub mod configcli;
pub mod server;
pub mod tempsensor;
