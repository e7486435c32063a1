//! Client configuration and client state.  Intervals are held in
//! milliseconds.

use vstd::prelude::*;
use crate::error::Error;

verus! {

/// What the client runs with.
#[derive(Debug, Clone)]
pub struct ClientConfig {
    /// Connect timeout in milliseconds.
    pub connect_timeout: u64,
    /// Read timeout in milliseconds.
    pub read_timeout: u64,
    /// Write timeout in milliseconds.
    pub write_timeout: u64,
    /// Outgoing chunk size, within [128, 65536].
    pub chunk_size: u32,
    /// Window acknowledgement size.
    pub window_ack_size: u32,
    /// Whether to reconnect on failure.
    pub auto_reconnect: bool,
    /// How many reconnects to attempt.
    pub max_reconnect_attempts: usize,
    /// Delay between reconnects, in milliseconds.
    pub reconnect_delay: u64,
    /// Whether audio is sent.
    pub enable_audio: bool,
    /// Whether video is sent.
    pub enable_video: bool,
    /// Playback buffer time in milliseconds.
    pub buffer_time: u32,
}

/// What a valid client configuration satisfies.
pub open spec fn client_config_valid(c: ClientConfig) -> bool {
    128 <= c.chunk_size <= 65536
}

impl Default for ClientConfig {
    /// The defaults: ten-second connect timeout, 4096-byte chunks, no
    /// auto-reconnect, audio and video on, a one-second buffer.
    fn default() -> (r: ClientConfig)
        ensures
            client_config_valid(r),
            r.connect_timeout == 10000,
            r.chunk_size == 4096,
            !r.auto_reconnect,
            r.buffer_time == 1000,
    {
        ClientConfig {
            connect_timeout: 10000,
            read_timeout: 30000,
            write_timeout: 30000,
            chunk_size: 4096,
            window_ack_size: 2500000,
            auto_reconnect: false,
            max_reconnect_attempts: 3,
            reconnect_delay: 5000,
            enable_audio: true,
            enable_video: true,
            buffer_time: 1000,
        }
    }
}

impl ClientConfig {
    /// Start building a configuration from the defaults.
    pub fn builder() -> (r: ClientConfigBuilder)
        ensures
            client_config_valid(r.config),
    {
        ClientConfigBuilder::new()
    }

    /// Check the configuration: the chunk size must stay within the
    /// protocol bounds.
    pub fn validate(&self) -> (r: Result<(), Error>)
        ensures
            r is Ok <==> client_config_valid(*self),
            r is Err ==> r->Err_0 is Configuration,
    {
        if self.chunk_size < 128 {
            return Err(Error::config("Chunk size must be at least 128"));
        }
        if self.chunk_size > 65536 {
            return Err(Error::config("Chunk size must not exceed 65536"));
        }
        Ok(())
    }
}

/// Builds a ClientConfig, validated at the end.
#[derive(Debug)]
pub struct ClientConfigBuilder {
    pub config: ClientConfig,
}

impl ClientConfigBuilder {
    /// Start from the defaults.
    pub fn new() -> (r: ClientConfigBuilder)
        ensures
            client_config_valid(r.config),
    {
        ClientConfigBuilder { config: ClientConfig::default() }
    }

    /// Set the connect timeout in milliseconds.
    pub fn connect_timeout(self, timeout_ms: u64) -> (r: ClientConfigBuilder)
        ensures
            r.config == (ClientConfig { connect_timeout: timeout_ms, ..self.config }),
    {
        let mut b = self;
        b.config.connect_timeout = timeout_ms;
        b
    }

    /// Set the chunk size.
    pub fn chunk_size(self, size: u32) -> (r: ClientConfigBuilder)
        ensures
            r.config == (ClientConfig { chunk_size: size, ..self.config }),
    {
        let mut b = self;
        b.config.chunk_size = size;
        b
    }

    /// Enable or disable auto-reconnect.
    pub fn auto_reconnect(self, enabled: bool) -> (r: ClientConfigBuilder)
        ensures
            r.config == (ClientConfig { auto_reconnect: enabled, ..self.config }),
    {
        let mut b = self;
        b.config.auto_reconnect = enabled;
        b
    }

    /// Set the playback buffer time in milliseconds.
    pub fn buffer_time(self, ms: u32) -> (r: ClientConfigBuilder)
        ensures
            r.config == (ClientConfig { buffer_time: ms, ..self.config }),
    {
        let mut b = self;
        b.config.buffer_time = ms;
        b
    }

    /// Validate and hand out the configuration.
    pub fn build(self) -> (r: Result<ClientConfig, Error>)
        ensures
            r is Ok <==> client_config_valid(self.config),
            r is Ok ==> r->Ok_0 == self.config,
            r is Err ==> r->Err_0 is Configuration,
    {
        match self.config.validate() {
            Ok(()) => Ok(self.config),
            Err(e) => Err(e),
        }
    }
}

/// A client's lifecycle state.
#[derive(Debug, Clone, Copy, PartialEq, Eq, Structural)]
pub enum ClientState {
    Disconnected,
    Connecting,
    Connected,
    Publishing,
    Playing,
    Error,
}

impl ClientState {
    /// Whether the client is connected (possibly publishing or playing).
    pub fn is_connected(&self) -> (r: bool)
        ensures
            r <==> (*self == ClientState::Connected || *self == ClientState::Publishing || *self
                == ClientState::Playing),
    {
        match self {
            ClientState::Connected => true,
            ClientState::Publishing => true,
            ClientState::Playing => true,
            _ => false,
        }
    }

    /// Whether a publish may start.
    pub fn can_publish(&self) -> (r: bool)
        ensures
            r <==> *self == ClientState::Connected,
    {
        *self == ClientState::Connected
    }

    /// Whether a play may start.
    pub fn can_play(&self) -> (r: bool)
        ensures
            r <==> *self == ClientState::Connected,
    {
        *self == ClientState::Connected
    }

    /// Whether the client is disconnected or failed.
    pub fn is_disconnected(&self) -> (r: bool)
        ensures
            r <==> (*self == ClientState::Disconnected || *self == ClientState::Error),
    {
        match self {
            ClientState::Disconnected => true,
            ClientState::Error => true,
            _ => false,
        }
    }
}

} // verus!
