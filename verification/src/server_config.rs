//! Server configuration: bind address, admission limits, chunking and
//! caching policy.  Intervals are held in milliseconds.

use vstd::prelude::*;
use vstd::string::StrSliceExecFns;
use crate::error::Error;

verus! {

/// What the server runs with.
#[derive(Debug, Clone)]
pub struct ServerConfig {
    /// Host to bind.
    pub host: String,
    /// Port to bind; 0 is invalid.
    pub port: u16,
    /// Global connection cap.
    pub max_connections: usize,
    /// Per-remote-IP connection cap.
    pub max_connections_per_ip: usize,
    /// Outgoing chunk size, within [128, 65536].
    pub chunk_size: u32,
    /// Window acknowledgement size.
    pub window_ack_size: u32,
    /// Peer bandwidth.
    pub peer_bandwidth: u32,
    /// Ping interval in milliseconds.
    pub ping_interval: u64,
    /// Idle timeout in milliseconds.
    pub idle_timeout: u64,
    /// Completed GOPs retained per publisher.
    pub gop_cache_size: usize,
    /// Whether the GOP cache is on.
    pub gop_cache_enabled: bool,
    /// Whether publishing is allowed.
    pub allow_publish: bool,
    /// Whether playing is allowed.
    pub allow_play: bool,
}

/// What a valid configuration satisfies.
pub open spec fn server_config_valid(c: ServerConfig) -> bool {
    &&& c.port != 0
    &&& c.max_connections != 0
    &&& 128 <= c.chunk_size <= 65536
}

impl ServerConfig {
    /// Start building a configuration from the defaults.
    pub fn builder() -> (r: ServerConfigBuilder)
        ensures
            server_config_valid(r.config),
    {
        ServerConfigBuilder::new()
    }

    /// Check the configuration: the port and connection cap must be
    /// non-zero and the chunk size within the protocol bounds.
    pub fn validate(&self) -> (r: Result<(), Error>)
        ensures
            r is Ok <==> server_config_valid(*self),
            r is Err ==> r->Err_0 is Configuration,
    {
        if self.port == 0 {
            return Err(Error::config("Invalid port: 0"));
        }
        if self.max_connections == 0 {
            return Err(Error::config("Invalid max_connections: 0"));
        }
        if self.chunk_size < 128 {
            return Err(Error::config("Chunk size must be at least 128"));
        }
        if self.chunk_size > 65536 {
            return Err(Error::config("Chunk size must not exceed 65536"));
        }
        Ok(())
    }
}

impl Default for ServerConfig {
    /// The defaults: every address, port 1935, a thousand connections,
    /// 4096-byte chunks, a ten-GOP cache, publish and play allowed.
    fn default() -> (r: ServerConfig)
        ensures
            server_config_valid(r),
            r.port == 1935,
            r.max_connections == 1000,
            r.max_connections_per_ip == 10,
            r.chunk_size == 4096,
            r.window_ack_size == 2500000,
            r.peer_bandwidth == 2500000,
            r.ping_interval == 60000,
            r.idle_timeout == 300000,
            r.gop_cache_size == 10,
            r.gop_cache_enabled,
            r.allow_publish,
            r.allow_play,
    {
        ServerConfig {
            host: "0.0.0.0".to_owned(),
            port: 1935,
            max_connections: 1000,
            max_connections_per_ip: 10,
            chunk_size: 4096,
            window_ack_size: 2500000,
            peer_bandwidth: 2500000,
            ping_interval: 60000,
            idle_timeout: 300000,
            gop_cache_size: 10,
            gop_cache_enabled: true,
            allow_publish: true,
            allow_play: true,
        }
    }
}

/// Builds a ServerConfig, validated at the end.
#[derive(Debug)]
pub struct ServerConfigBuilder {
    pub config: ServerConfig,
}

impl ServerConfigBuilder {
    /// Start from the defaults.
    pub fn new() -> (r: ServerConfigBuilder)
        ensures
            server_config_valid(r.config),
    {
        ServerConfigBuilder { config: ServerConfig::default() }
    }

    /// Set the host.
    pub fn host(self, host: &str) -> (r: ServerConfigBuilder)
        ensures
            r.config == (ServerConfig { host: r.config.host, ..self.config }),
            r.config.host@ == host@,
    {
        let mut b = self;
        b.config.host = host.to_owned();
        b
    }

    /// Set the port.
    pub fn port(self, port: u16) -> (r: ServerConfigBuilder)
        ensures
            r.config == (ServerConfig { port, ..self.config }),
    {
        let mut b = self;
        b.config.port = port;
        b
    }

    /// Set the global connection cap.
    pub fn max_connections(self, max: usize) -> (r: ServerConfigBuilder)
        ensures
            r.config == (ServerConfig { max_connections: max, ..self.config }),
    {
        let mut b = self;
        b.config.max_connections = max;
        b
    }

    /// Set the chunk size.
    pub fn chunk_size(self, size: u32) -> (r: ServerConfigBuilder)
        ensures
            r.config == (ServerConfig { chunk_size: size, ..self.config }),
    {
        let mut b = self;
        b.config.chunk_size = size;
        b
    }

    /// Validate and hand out the configuration.
    pub fn build(self) -> (r: Result<ServerConfig, Error>)
        ensures
            r is Ok <==> server_config_valid(self.config),
            r is Ok ==> r->Ok_0 == self.config,
            r is Err ==> r->Err_0 is Configuration,
    {
        match self.config.validate() {
            Ok(()) => Ok(self.config),
            Err(e) => Err(e),
        }
    }
}

} // verus!
