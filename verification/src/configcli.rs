//! The settings of the client program (read from `configcli.json` next to
//! the program).
use vstd::prelude::*;

use crate::servermod::config::host_port;

verus! {

/// The settings of the client.
#[derive(Debug, PartialEq, Eq)]
pub struct ServerConfig {
    pub clientid: String,
    pub password: String,
    pub host: String,
    pub port1: String,
}

/// The whole settings file.
#[derive(Debug, PartialEq, Eq)]
pub struct Config {
    pub server: ServerConfig,
}

/// The id under which the client registers.
pub fn get_clientid(config: &Config) -> (r: String)
    ensures
        r@ == config.server.clientid@,
{
    config.server.clientid.clone()
}

/// The password the client sends.
pub fn get_password(config: &Config) -> (r: String)
    ensures
        r@ == config.server.password@,
{
    config.server.password.clone()
}

/// The address of the server.
pub fn get_hostip(config: &Config) -> (r: String)
    ensures
        r@ == config.server.host@,
{
    config.server.host.clone()
}

/// The server's port for client connections.
pub fn get_port1(config: &Config) -> (r: String)
    ensures
        r@ == config.server.port1@,
{
    config.server.port1.clone()
}

/// The address to connect to: host, `:`, port.
pub fn server_address(config: &Config) -> (r: String)
    ensures
        r@ == config.server.host@ + ":"@ + config.server.port1@,
{
    host_port(config.server.host.as_str(), config.server.port1.as_str())
}

} // verus!
