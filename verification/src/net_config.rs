//! Configuration of the networking layer: defaults, builders and validation.

use vstd::prelude::*;
use std::time::Duration;
use crate::clock::{duration_from_millis, duration_from_secs, millis_duration, secs_duration};
use crate::net_error::NetworkError;
use crate::peer_addr::PeerAddress;
use crate::text::{decimal, u64_to_decimal};

verus! {

/// Certificate and key locations and the accepted protocol versions.
#[derive(Debug, Clone)]
pub struct TlsConfig {
    pub cert_path: String,
    pub key_path: String,
    pub ca_path: Option<String>,
    pub require_client_cert: bool,
    pub allowed_versions: Vec<String>,
    pub cipher_suites: Vec<String>,
}

/// How peers prove who they are.
#[derive(Debug, Clone, Copy, PartialEq, Eq, Structural)]
pub enum AuthMethod {
    NoAuth,
    SharedSecret,
    Token,
    MutualTls,
}

/// Authentication method, credentials and the time allowed for it.
#[derive(Debug, Clone)]
pub struct AuthConfig {
    pub method: AuthMethod,
    pub credentials: String,
    pub timeout: Duration,
}

/// Compression algorithms a connection may use.
#[derive(Debug, Clone, Copy, PartialEq, Eq, Structural)]
pub enum CompressionAlgorithm {
    NoCompression,
    Gzip,
    Deflate,
    Lz4,
    Snappy,
}

/// Whether and how messages are compressed.
#[derive(Debug, Clone, Copy)]
pub struct CompressionConfig {
    pub enabled: bool,
    pub algorithm: CompressionAlgorithm,
    pub level: u8,
    pub min_size: usize,
}

/// Token-bucket limits on messages and bytes.
#[derive(Debug, Clone, Copy)]
pub struct RateLimitConfig {
    pub enabled: bool,
    pub messages_per_second: u64,
    pub bytes_per_second: u64,
    pub burst_size: usize,
}

/// Retries with exponential backoff. The multiplier is held in thousandths
/// (2000 stands for a factor of 2).
#[derive(Debug, Clone, Copy)]
pub struct RetryConfig {
    pub max_attempts: usize,
    pub initial_delay: Duration,
    pub max_delay: Duration,
    pub backoff_multiplier_permille: u32,
    pub jitter: bool,
}

/// Periodic health checks of peers.
#[derive(Debug, Clone, Copy)]
pub struct HealthCheckConfig {
    pub enabled: bool,
    pub interval: Duration,
    pub timeout: Duration,
    pub failure_threshold: usize,
    pub success_threshold: usize,
}

/// All settings of the networking layer.
#[derive(Debug, Clone)]
pub struct NetworkConfig {
    pub bind_address: PeerAddress,
    pub max_connections: usize,
    pub connection_timeout: Duration,
    pub read_timeout: Duration,
    pub write_timeout: Duration,
    pub max_message_size: usize,
    pub buffer_size: usize,
    pub keep_alive_interval: Option<Duration>,
    pub tcp_nodelay: bool,
    pub reuse_address: bool,
    pub tls_config: Option<TlsConfig>,
    pub auth_config: Option<AuthConfig>,
    pub compression: CompressionConfig,
    pub rate_limit: RateLimitConfig,
    pub retry_config: RetryConfig,
    pub health_check: HealthCheckConfig,
}

impl Default for CompressionConfig {
    fn default() -> (res: Self)
        ensures
            !res.enabled,
            res.algorithm == CompressionAlgorithm::NoCompression,
            res.level == 6,
            res.min_size == 1024,
    {
        CompressionConfig { enabled: false, algorithm: CompressionAlgorithm::NoCompression, level: 6, min_size: 1024 }
    }
}

impl Default for RateLimitConfig {
    fn default() -> (res: Self)
        ensures
            !res.enabled,
            res.messages_per_second == 1000,
            res.bytes_per_second == 10 * 1024 * 1024,
            res.burst_size == 100,
    {
        RateLimitConfig {
            enabled: false,
            messages_per_second: 1000,
            bytes_per_second: 10_485_760u64,
            burst_size: 100,
        }
    }
}

impl Default for RetryConfig {
    fn default() -> (res: Self)
        ensures
            res.max_attempts == 3,
            res.initial_delay == millis_duration(100),
            res.max_delay == secs_duration(30),
            res.backoff_multiplier_permille == 2000,
            res.jitter,
    {
        RetryConfig {
            max_attempts: 3,
            initial_delay: duration_from_millis(100),
            max_delay: duration_from_secs(30),
            backoff_multiplier_permille: 2000,
            jitter: true,
        }
    }
}

impl Default for HealthCheckConfig {
    fn default() -> (res: Self)
        ensures
            res.enabled,
            res.interval == secs_duration(30),
            res.timeout == secs_duration(5),
            res.failure_threshold == 3,
            res.success_threshold == 2,
    {
        HealthCheckConfig {
            enabled: true,
            interval: duration_from_secs(30),
            timeout: duration_from_secs(5),
            failure_threshold: 3,
            success_threshold: 2,
        }
    }
}

/// The defaults of every setting but the bind address.
pub open spec fn net_defaults_except_bind(c: NetworkConfig) -> bool {
    &&& c.max_connections == 1000
    &&& c.connection_timeout == secs_duration(30)
    &&& c.read_timeout == secs_duration(30)
    &&& c.write_timeout == secs_duration(30)
    &&& c.max_message_size == 64 * 1024 * 1024
    &&& c.buffer_size == 64 * 1024
    &&& c.keep_alive_interval == Some(secs_duration(60))
    &&& c.tcp_nodelay
    &&& c.reuse_address
    &&& c.tls_config is None
    &&& c.auth_config is None
    &&& !c.compression.enabled
    &&& c.compression.algorithm == CompressionAlgorithm::NoCompression
    &&& c.compression.level == 6
    &&& c.compression.min_size == 1024
    &&& !c.rate_limit.enabled
    &&& c.rate_limit.messages_per_second == 1000
    &&& c.rate_limit.bytes_per_second == 10 * 1024 * 1024
    &&& c.rate_limit.burst_size == 100
    &&& c.retry_config.max_attempts == 3
    &&& c.retry_config.initial_delay == millis_duration(100)
    &&& c.retry_config.max_delay == secs_duration(30)
    &&& c.retry_config.backoff_multiplier_permille == 2000
    &&& c.retry_config.jitter
    &&& c.health_check.enabled
    &&& c.health_check.interval == secs_duration(30)
    &&& c.health_check.timeout == secs_duration(5)
    &&& c.health_check.failure_threshold == 3
    &&& c.health_check.success_threshold == 2
}

impl Default for NetworkConfig {
    /// Binds to `127.0.0.1:0`, the loopback address on a port the system
    /// picks.
    fn default() -> (res: Self)
        ensures
            res.bind_address == PeerAddress::localhost_spec(0),
            net_defaults_except_bind(res),
    {
        NetworkConfig::new(PeerAddress::localhost(0))
    }
}

/// The first rule that the configuration breaks, as the field, the value
/// and the reason that report it, or `None` when it breaks none.
pub open spec fn net_config_problem(c: NetworkConfig) -> Option<(Seq<char>, Seq<char>, Seq<char>)> {
    if c.max_connections == 0 {
        Some(("max_connections"@, "0"@, "must be greater than 0"@))
    } else if c.max_message_size == 0 {
        Some(("max_message_size"@, "0"@, "must be greater than 0"@))
    } else if c.buffer_size == 0 {
        Some(("buffer_size"@, "0"@, "must be greater than 0"@))
    } else if c.compression.enabled && (c.compression.level == 0 || c.compression.level > 9) {
        Some(("compression.level"@, decimal(c.compression.level as nat), "must be between 1 and 9"@))
    } else if c.retry_config.max_attempts == 0 {
        Some(("retry_config.max_attempts"@, "0"@, "must be greater than 0"@))
    } else if c.retry_config.backoff_multiplier_permille == 0 {
        Some(("retry_config.backoff_multiplier"@, "0"@, "must be greater than 0"@))
    } else {
        None
    }
}

fn invalid_config(field: &str, value: String, reason: &str) -> (res: NetworkError)
    ensures
        res matches NetworkError::InvalidConfiguration { field: f, value: v, reason: r }
            && f@ == field@ && v@ == value@ && r@ == reason@,
{
    NetworkError::InvalidConfiguration { field: field.to_owned(), value, reason: reason.to_owned() }
}

impl NetworkConfig {
    /// The default configuration bound to the given address.
    pub fn new(bind_address: PeerAddress) -> (res: Self)
        ensures
            res.bind_address == bind_address,
            net_defaults_except_bind(res),
    {
        NetworkConfig {
            bind_address,
            max_connections: 1000,
            connection_timeout: duration_from_secs(30),
            read_timeout: duration_from_secs(30),
            write_timeout: duration_from_secs(30),
            max_message_size: 67_108_864usize,
            buffer_size: 65_536usize,
            keep_alive_interval: Some(duration_from_secs(60)),
            tcp_nodelay: true,
            reuse_address: true,
            tls_config: None,
            auth_config: None,
            compression: CompressionConfig::default(),
            rate_limit: RateLimitConfig::default(),
            retry_config: RetryConfig::default(),
            health_check: HealthCheckConfig::default(),
        }
    }

    pub fn with_bind_address(self, address: PeerAddress) -> (res: Self)
        ensures
            res == (NetworkConfig { bind_address: address, ..self }),
    {
        let mut c = self;
        c.bind_address = address;
        c
    }

    pub fn with_max_connections(self, max: usize) -> (res: Self)
        ensures
            res == (NetworkConfig { max_connections: max, ..self }),
    {
        let mut c = self;
        c.max_connections = max;
        c
    }

    pub fn with_connection_timeout(self, timeout: Duration) -> (res: Self)
        ensures
            res == (NetworkConfig { connection_timeout: timeout, ..self }),
    {
        let mut c = self;
        c.connection_timeout = timeout;
        c
    }

    pub fn with_tls(self, tls_config: TlsConfig) -> (res: Self)
        ensures
            res == (NetworkConfig { tls_config: Some(tls_config), ..self }),
    {
        let mut c = self;
        c.tls_config = Some(tls_config);
        c
    }

    pub fn with_auth(self, auth_config: AuthConfig) -> (res: Self)
        ensures
            res == (NetworkConfig { auth_config: Some(auth_config), ..self }),
    {
        let mut c = self;
        c.auth_config = Some(auth_config);
        c
    }

    /// Turns compression on with the given algorithm and level.
    pub fn with_compression(self, algorithm: CompressionAlgorithm, level: u8) -> (res: Self)
        ensures
            res == (NetworkConfig {
                compression: CompressionConfig { enabled: true, algorithm, level, ..self.compression },
                ..self
            }),
    {
        let mut c = self;
        c.compression.enabled = true;
        c.compression.algorithm = algorithm;
        c.compression.level = level;
        c
    }

    /// Turns rate limiting on with the given limits.
    pub fn with_rate_limit(self, messages_per_sec: u64, bytes_per_sec: u64) -> (res: Self)
        ensures
            res == (NetworkConfig {
                rate_limit: RateLimitConfig {
                    enabled: true,
                    messages_per_second: messages_per_sec,
                    bytes_per_second: bytes_per_sec,
                    ..self.rate_limit
                },
                ..self
            }),
    {
        let mut c = self;
        c.rate_limit.enabled = true;
        c.rate_limit.messages_per_second = messages_per_sec;
        c.rate_limit.bytes_per_second = bytes_per_sec;
        c
    }

    /// Checks the configuration's rules in order and reports the first one
    /// it breaks as an `InvalidConfiguration` error.
    pub fn validate(&self) -> (res: Result<(), NetworkError>)
        ensures
            match net_config_problem(*self) {
                None => res is Ok,
                Some(p) => res matches Err(NetworkError::InvalidConfiguration { field, value, reason })
                    && field@ == p.0 && value@ == p.1 && reason@ == p.2,
            },
    {
        if self.max_connections == 0 {
            return Err(invalid_config("max_connections", "0".to_owned(), "must be greater than 0"));
        }
        if self.max_message_size == 0 {
            return Err(invalid_config("max_message_size", "0".to_owned(), "must be greater than 0"));
        }
        if self.buffer_size == 0 {
            return Err(invalid_config("buffer_size", "0".to_owned(), "must be greater than 0"));
        }
        if self.compression.enabled {
            if self.compression.level == 0 || self.compression.level > 9 {
                return Err(invalid_config(
                    "compression.level",
                    u64_to_decimal(self.compression.level as u64),
                    "must be between 1 and 9",
                ));
            }
        }
        if self.retry_config.max_attempts == 0 {
            return Err(invalid_config("retry_config.max_attempts", "0".to_owned(), "must be greater than 0"));
        }
        if self.retry_config.backoff_multiplier_permille == 0 {
            return Err(invalid_config("retry_config.backoff_multiplier", "0".to_owned(), "must be greater than 0"));
        }
        Ok(())
    }

    /// Small limits and short timeouts for tests.
    pub fn test_config() -> (res: Self)
        ensures
            res.bind_address == PeerAddress::localhost_spec(0),
            res.max_connections == 10,
            res.connection_timeout == millis_duration(1000),
            res.read_timeout == millis_duration(1000),
            res.write_timeout == millis_duration(1000),
            res.max_message_size == 1024 * 1024,
            res.buffer_size == 8192,
            res.keep_alive_interval == Some(secs_duration(10)),
            res.tcp_nodelay,
            res.reuse_address,
            res.tls_config is None,
            res.auth_config is None,
            !res.compression.enabled,
            res.compression.algorithm == CompressionAlgorithm::NoCompression,
            res.compression.level == 6,
            res.compression.min_size == 1024,
            !res.rate_limit.enabled,
            res.rate_limit.messages_per_second == 1000,
            res.rate_limit.bytes_per_second == 10 * 1024 * 1024,
            res.rate_limit.burst_size == 100,
            res.retry_config.max_attempts == 2,
            res.retry_config.initial_delay == millis_duration(10),
            res.retry_config.max_delay == millis_duration(100),
            res.retry_config.backoff_multiplier_permille == 1500,
            !res.retry_config.jitter,
            !res.health_check.enabled,
            res.health_check.interval == secs_duration(5),
            res.health_check.timeout == secs_duration(1),
            res.health_check.failure_threshold == 2,
            res.health_check.success_threshold == 1,
    {
        NetworkConfig {
            bind_address: PeerAddress::localhost(0),
            max_connections: 10,
            connection_timeout: duration_from_millis(1000),
            read_timeout: duration_from_millis(1000),
            write_timeout: duration_from_millis(1000),
            max_message_size: 1_048_576usize,
            buffer_size: 8192,
            keep_alive_interval: Some(duration_from_secs(10)),
            tcp_nodelay: true,
            reuse_address: true,
            tls_config: None,
            auth_config: None,
            compression: CompressionConfig::default(),
            rate_limit: RateLimitConfig::default(),
            retry_config: RetryConfig {
                max_attempts: 2,
                initial_delay: duration_from_millis(10),
                max_delay: duration_from_millis(100),
                backoff_multiplier_permille: 1500,
                jitter: false,
            },
            health_check: HealthCheckConfig {
                enabled: false,
                interval: duration_from_secs(5),
                timeout: duration_from_secs(1),
                failure_threshold: 2,
                success_threshold: 1,
            },
        }
    }
}

} // verus!
