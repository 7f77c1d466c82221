//! The gateway's settings.
use vstd::prelude::*;

verus! {

/// The gateway's settings.
#[derive(Debug)]
pub struct Config {
    /// The address that the gateway listens on, written out.
    pub bind_host: String,
    pub bind_port: u16,
    /// The host that clients are sent to for shell access, if it is another one.
    pub ssh_gateway_host: String,
    /// The port that clients are sent to for shell access, if it is another one.
    pub ssh_gateway_port: u16,
    pub ssh_connect_path: String,
    pub ssh_handshake_secret: String,
    pub sandbox_namespace: String,
    pub sandbox_ssh_port: u16,
}

/// Clients are sent to `host` and `port` for shell access.
pub open spec fn is_gateway(config: Config, host: Seq<char>, port: u16) -> bool {
    &&& host == (if config.ssh_gateway_host@.len() == 0 {
        config.bind_host@
    } else {
        config.ssh_gateway_host@
    })
    &&& port == (if config.ssh_gateway_port == 0 {
        config.bind_port
    } else {
        config.ssh_gateway_port
    })
}

/// A host or a port that is set for shell access is where clients are sent to, whatever the
/// other one is, and what is not set is what the gateway listens on.
pub proof fn settings_decide_where_clients_go(config: Config, host: Seq<char>, port: u16)
    requires
        is_gateway(config, host, port),
    ensures
        config.ssh_gateway_host@.len() > 0 ==> host == config.ssh_gateway_host@,
        config.ssh_gateway_host@.len() == 0 ==> host == config.bind_host@,
        config.ssh_gateway_port > 0 ==> port == config.ssh_gateway_port,
        config.ssh_gateway_port == 0 ==> port == config.bind_port,
{
}

/// The host and port that clients are sent to for shell access: the ones that are set
/// for it, else those that the gateway listens on.
pub fn resolve_gateway(config: &Config) -> (r: (String, u16))
    ensures
        r.0 == (if config.ssh_gateway_host@.len() == 0 {
            config.bind_host
        } else {
            config.ssh_gateway_host
        }),
        r.1 == (if config.ssh_gateway_port == 0 {
            config.bind_port
        } else {
            config.ssh_gateway_port
        }),
        is_gateway(*config, r.0@, r.1),
{
    let host = if config.ssh_gateway_host.as_str().is_empty() {
        config.bind_host.clone()
    } else {
        config.ssh_gateway_host.clone()
    };
    let port = if config.ssh_gateway_port == 0 {
        config.bind_port
    } else {
        config.ssh_gateway_port
    };
    (host, port)
}

} // verus!
