//! The client's settings (read from `configcli.json` by the program).
use vstd::prelude::*;

verus! {

/// The settings of the client.
#[derive(Debug, PartialEq, Eq)]
pub struct ServerConfig {
    pub clientid: String,
    pub password: String,
    pub host: String,
    pub port1: String,
    pub port2: String,
}

/// The whole settings file.
#[derive(Debug, PartialEq, Eq)]
pub struct Config {
    pub server: ServerConfig,
}

/// The settings in use.
pub fn get_configuration(config: &Config) -> (r: &Config)
    ensures
        r == config,
{
    config
}

/// The id under which the client registers.
pub fn get_clientid(config: &Config) -> (r: String)
    ensures
        r@ == config.server.clientid@,
{
    config.server.clientid.clone()
}

/// The password the client sends.
pub fn get_password(config: &Config) -> (r: String)
    ensures
        r@ == config.server.password@,
{
    config.server.password.clone()
}

/// The address of the server.
pub fn get_hostip(config: &Config) -> (r: String)
    ensures
        r@ == config.server.host@,
{
    config.server.host.clone()
}

/// The server's port for client connections.
pub fn get_port1(config: &Config) -> (r: String)
    ensures
        r@ == config.server.port1@,
{
    config.server.port1.clone()
}

/// The second port.
pub fn get_port2(config: &Config) -> (r: String)
    ensures
        r@ == config.server.port2@,
{
    config.server.port2.clone()
}

} // verus!
