//! Static application settings and their validation.

use vstd::prelude::*;

verus! {

/// Proxy settings.
#[derive(Debug, Clone, PartialEq, Eq)]
pub struct ProxyConfig {
    /// Socket addresses (`ip:port`) to serve plain HTTP on.
    pub http_bind_addrs: Vec<String>,
    /// Socket addresses (`ip:port`) to serve HTTPS on.
    pub https_bind_addrs: Vec<String>,
    /// Seconds an origin stays marked down after it fails to connect.
    pub origin_down_time: u64,
    /// The most retries of an upstream connection, across origins.
    pub connection_retry_limit: u16,
}

/// Cache settings.
#[derive(Debug, Clone, PartialEq, Eq)]
pub struct CacheConfig {
    /// The size, in bytes, beyond which the least recently used entries are evicted.
    pub max_size: usize,
}

/// Settings of the admin API listener.
#[derive(Debug, Clone, PartialEq, Eq)]
pub struct ApiConfig {
    /// The socket address (`ip:port`) to bind to.
    pub bind_addr: String,
    /// Whether the listener uses TLS.
    pub tls: bool,
    /// With TLS, the path of the certificate file.
    pub cert: Option<String>,
    /// With TLS, the path of the private key file.
    pub key: Option<String>,
    /// Whether clients must present a certificate.
    pub mutual_tls: bool,
    /// With mutual TLS, the path of the accepted client certificate.
    pub client_cert: Option<String>,
}

/// The whole application configuration.
#[derive(Debug, Clone, PartialEq, Eq)]
pub struct AppConfig {
    pub proxy: ProxyConfig,
    pub cache: CacheConfig,
    pub api: ApiConfig,
}

/// Why a configuration was rejected.
#[derive(Debug, Clone, Copy, PartialEq, Eq, Structural)]
pub enum ConfigError {
    /// TLS is enabled without a certificate.
    MissingCert,
    /// TLS is enabled without a private key.
    MissingKey,
    /// Mutual TLS is enabled without TLS.
    MutualTlsWithoutTls,
    /// Mutual TLS is enabled without a client certificate.
    MissingClientCert,
}

impl ConfigError {
    /// A human-readable description of the error.
    pub fn message(&self) -> (r: &'static str)
        ensures
            r@ == match self {
                ConfigError::MissingCert => "API: cert is required when tls is enabled"@,
                ConfigError::MissingKey => "API: key is required when tls is enabled"@,
                ConfigError::MutualTlsWithoutTls => "API: tls must be enabled if mutual_tls is enabled"@,
                ConfigError::MissingClientCert => "API: client cert is required when mutual_tls is enabled"@,
            },
    {
        match self {
            ConfigError::MissingCert => "API: cert is required when tls is enabled",
            ConfigError::MissingKey => "API: key is required when tls is enabled",
            ConfigError::MutualTlsWithoutTls => "API: tls must be enabled if mutual_tls is enabled",
            ConfigError::MissingClientCert => "API: client cert is required when mutual_tls is enabled",
        }
    }
}

pub const DEFAULT_ORIGIN_DOWN_TIME: u64 = 10;

pub const DEFAULT_CONNECTION_RETRY_LIMIT: u16 = 1;

pub const DEFAULT_CACHE_MAX_SIZE: usize = 104857600;

impl Default for ProxyConfig {
    /// HTTP on all interfaces at port 8080, HTTPS at port 4433.
    fn default() -> (r: Self)
        ensures
            r.http_bind_addrs@.len() == 1,
            r.http_bind_addrs@[0]@ == "0.0.0.0:8080"@,
            r.https_bind_addrs@.len() == 1,
            r.https_bind_addrs@[0]@ == "0.0.0.0:4433"@,
            r.origin_down_time == DEFAULT_ORIGIN_DOWN_TIME,
            r.connection_retry_limit == DEFAULT_CONNECTION_RETRY_LIMIT,
    {
        ProxyConfig {
            http_bind_addrs: vec!["0.0.0.0:8080".to_owned()],
            https_bind_addrs: vec!["0.0.0.0:4433".to_owned()],
            origin_down_time: DEFAULT_ORIGIN_DOWN_TIME,
            connection_retry_limit: DEFAULT_CONNECTION_RETRY_LIMIT,
        }
    }
}

impl Default for CacheConfig {
    /// A cache of at most 100 MiB.
    fn default() -> (r: Self)
        ensures
            r.max_size == DEFAULT_CACHE_MAX_SIZE,
    {
        CacheConfig { max_size: DEFAULT_CACHE_MAX_SIZE }
    }
}

impl Default for ApiConfig {
    /// All interfaces at port 5000, without TLS.
    fn default() -> (r: Self)
        ensures
            r.bind_addr@ == "0.0.0.0:5000"@,
            !r.tls,
            r.cert is None,
            r.key is None,
            !r.mutual_tls,
            r.client_cert is None,
    {
        ApiConfig {
            bind_addr: "0.0.0.0:5000".to_owned(),
            tls: false,
            cert: None,
            key: None,
            mutual_tls: false,
            client_cert: None,
        }
    }
}

impl Default for AppConfig {
    /// Every section at its defaults.
    fn default() -> (r: Self)
        ensures
            r.proxy.http_bind_addrs@.len() == 1,
            r.proxy.http_bind_addrs@[0]@ == "0.0.0.0:8080"@,
            r.proxy.https_bind_addrs@.len() == 1,
            r.proxy.https_bind_addrs@[0]@ == "0.0.0.0:4433"@,
            r.proxy.origin_down_time == DEFAULT_ORIGIN_DOWN_TIME,
            r.proxy.connection_retry_limit == DEFAULT_CONNECTION_RETRY_LIMIT,
            r.cache.max_size == DEFAULT_CACHE_MAX_SIZE,
            r.api.bind_addr@ == "0.0.0.0:5000"@,
            !r.api.tls,
            r.api.cert is None,
            r.api.key is None,
            !r.api.mutual_tls,
            r.api.client_cert is None,
    {
        AppConfig { proxy: ProxyConfig::default(), cache: CacheConfig::default(), api: ApiConfig::default() }
    }
}

/// The first rule that `api` breaks, in the order: certificate and key under TLS, then TLS
/// and client certificate under mutual TLS.
pub open spec fn api_violation(api: ApiConfig) -> Option<ConfigError> {
    if api.tls && api.cert is None {
        Some(ConfigError::MissingCert)
    } else if api.tls && api.key is None {
        Some(ConfigError::MissingKey)
    } else if api.mutual_tls && !api.tls {
        Some(ConfigError::MutualTlsWithoutTls)
    } else if api.mutual_tls && api.client_cert is None {
        Some(ConfigError::MissingClientCert)
    } else {
        None
    }
}

impl AppConfig {
    /// Checks the TLS settings of the admin API; returns the configuration unchanged when
    /// they are consistent.
    pub fn validate(self) -> (r: Result<Self, ConfigError>)
        ensures
            match api_violation(self.api) {
                Some(e) => r == Err::<AppConfig, ConfigError>(e),
                None => r == Ok::<AppConfig, ConfigError>(self),
            },
    {
        if self.api.tls {
            if self.api.cert.is_none() {
                return Err(ConfigError::MissingCert);
            }
            if self.api.key.is_none() {
                return Err(ConfigError::MissingKey);
            }
        }
        if self.api.mutual_tls {
            if !self.api.tls {
                return Err(ConfigError::MutualTlsWithoutTls);
            }
            if self.api.client_cert.is_none() {
                return Err(ConfigError::MissingClientCert);
            }
        }
        Ok(self)
    }
}

} // verus!
