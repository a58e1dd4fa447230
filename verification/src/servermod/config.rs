//! The server's settings (read from `serv_config.json` by the program).
use vstd::prelude::*;
use vstd::string::StringExecFns;

verus! {

/// The settings of the server.
#[derive(Debug, PartialEq, Eq)]
pub struct ServerConfig {
    pub password: String,
    pub host: String,
    pub port1: String,
    pub port2: String,
    pub port3: String,
}

/// The whole settings file.
#[derive(Debug, PartialEq, Eq)]
pub struct Config {
    pub server: ServerConfig,
}

/// The settings in use.
pub fn get_configuration(config: &Config) -> (r: &Config)
    ensures
        r == config,
{
    config
}

/// The password that clients must send.
pub fn get_password(config: &Config) -> (r: String)
    ensures
        r@ == config.server.password@,
{
    config.server.password.clone()
}

/// The address the server listens on.
pub fn get_hostip(config: &Config) -> (r: String)
    ensures
        r@ == config.server.host@,
{
    config.server.host.clone()
}

/// The port of client connections.
pub fn get_port1(config: &Config) -> (r: String)
    ensures
        r@ == config.server.port1@,
{
    config.server.port1.clone()
}

/// The second port.
pub fn get_port2(config: &Config) -> (r: String)
    ensures
        r@ == config.server.port2@,
{
    config.server.port2.clone()
}

/// The port of the console.
pub fn get_port3(config: &Config) -> (r: String)
    ensures
        r@ == config.server.port3@,
{
    config.server.port3.clone()
}

/// `host:port`, the form in which an address is bound.
pub fn host_port(host: &str, port: &str) -> (r: String)
    ensures
        r@ == host@ + ":"@ + port@,
{
    let mut s = String::from_str(host);
    s.append(":");
    s.append(port);
    s
}

/// The address of client connections: host, `:`, first port.
pub fn client_address(config: &Config) -> (r: String)
    ensures
        r@ == config.server.host@ + ":"@ + config.server.port1@,
{
    host_port(config.server.host.as_str(), config.server.port1.as_str())
}

/// The address of the console: host, `:`, third port.
pub fn console_address(config: &Config) -> (r: String)
    ensures
        r@ == config.server.host@ + ":"@ + config.server.port3@,
{
    host_port(config.server.host.as_str(), config.server.port3.as_str())
}

} // verus!
