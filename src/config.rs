use vstd::prelude::*;

use crate::plugin::{settings_for, ConfigError, PluginConfig};
use tokio_kcp::{KcpConfig, KcpNoDelayConfig};
use tokio_smux::SmuxConfig;

verus! {

#[verifier::external_type_specification]
#[verifier::external_body]
pub struct ExKcpConfig(KcpConfig);

#[verifier::external_type_specification]
#[verifier::external_body]
pub struct ExSmuxConfig(SmuxConfig);

/// Socket buffer size, for sending and for receiving, of the sockets that
/// the server opens towards its target: 4 MiB.
pub const DEFAULT_SOCKBUF: u32 = 4194304;

/// Read timeout, in seconds, on the server's transport streams.
pub const SERVER_READ_TIMEOUT_SECS: u64 = 5;

/// Relies on tokio_kcp's `KcpConfig::default`: the crate's default transport
/// settings.
#[verifier::external_body]
fn default_kcp_config() -> KcpConfig {
    KcpConfig::default()
}

/// Relies on tokio_kcp's `KcpNoDelayConfig::fastest`: the low-latency
/// profile (no delay, 10 ms ticks, fast resend, no congestion window),
/// put in place of `kcp`'s own.
#[verifier::external_body]
fn with_fastest_nodelay(kcp: KcpConfig) -> KcpConfig {
    let mut kcp = kcp;
    kcp.nodelay = KcpNoDelayConfig::fastest();
    kcp
}

/// The settings of one role: its addresses, the transport's settings, and
/// the sizes and timeouts that the relays use.
pub struct Config {
    pub plugin: PluginConfig,
    pub kcp: KcpConfig,
    pub sockbuf: u32,
    pub server_kcp_stream_read_timeout_secs: Option<u64>,
}

impl Config {
    fn default_sockbuf() -> (r: u32)
        ensures
            r == DEFAULT_SOCKBUF,
    {
        DEFAULT_SOCKBUF
    }

    /// The settings of the client role, from the process's environment
    /// variables.
    pub fn new_client(vars: &Vec<(String, String)>) -> (r: Result<Self, ConfigError>)
        ensures
            match r {
                Ok(c) => settings_for(vars@, true) == Some(c.plugin@) && c.sockbuf
                    == DEFAULT_SOCKBUF && c.server_kcp_stream_read_timeout_secs is None,
                Err(e) => settings_for(vars@, true) is None && e == ConfigError::InvalidPort,
            },
    {
        let plugin = PluginConfig::new_client(vars)?;
        let kcp = Config::new_kcp_config();
        Ok(Config {
            plugin,
            kcp,
            sockbuf: Self::default_sockbuf(),
            server_kcp_stream_read_timeout_secs: None,
        })
    }

    /// The settings of the server role, from the process's environment
    /// variables.
    pub fn new_server(vars: &Vec<(String, String)>) -> (r: Result<Self, ConfigError>)
        ensures
            match r {
                Ok(c) => settings_for(vars@, false) == Some(c.plugin@) && c.sockbuf
                    == DEFAULT_SOCKBUF && c.server_kcp_stream_read_timeout_secs == Some(
                    SERVER_READ_TIMEOUT_SECS,
                ),
                Err(e) => settings_for(vars@, false) is None && e == ConfigError::InvalidPort,
            },
    {
        let plugin = PluginConfig::new_server(vars)?;
        let kcp = Config::new_kcp_config();
        Ok(Config {
            plugin,
            kcp,
            sockbuf: Self::default_sockbuf(),
            server_kcp_stream_read_timeout_secs: Some(SERVER_READ_TIMEOUT_SECS),
        })
    }

    fn new_kcp_config() -> KcpConfig {
        with_fastest_nodelay(default_kcp_config())
    }

    /// Relies on tokio_smux's `SmuxConfig::default`: the multiplexer's
    /// default settings.
    #[verifier::external_body]
    pub fn new_smux() -> SmuxConfig {
        SmuxConfig::default()
    }
}

} // verus!
