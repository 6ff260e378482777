//! The server's configuration and its defaults.

use vstd::prelude::*;

verus! {

/// The whole configuration.
#[derive(Debug, Clone)]
pub struct Config {
    pub server: ServerConfig,
    pub storage: StorageConfig,
    pub logging: LogConfig,
}

/// Where and how the server listens.
#[derive(Debug, Clone)]
pub struct ServerConfig {
    pub host: String,
    pub port: u16,
    pub max_connections: u32,
    pub query_timeout_ms: u64,
}

/// Where the data lives.
#[derive(Debug, Clone)]
pub struct StorageConfig {
    pub db_path: String,
    pub cache_size_mb: u32,
}

/// How the server logs.
#[derive(Debug, Clone)]
pub struct LogConfig {
    pub level: String,
    pub format: String,
}

impl Default for Config {
    /// Listen on 0.0.0.0:8080 with 100 connections and a 5 s timeout, store in
    /// data.db with a 64 MB cache, log at info level as text.
    fn default() -> (r: Self)
        ensures
            r.server.host@ == "0.0.0.0"@,
            r.server.port == 8080,
            r.server.max_connections == 100,
            r.server.query_timeout_ms == 5000,
            r.storage.db_path@ == "data.db"@,
            r.storage.cache_size_mb == 64,
            r.logging.level@ == "info"@,
            r.logging.format@ == "text"@,
    {
        Config {
            server: ServerConfig {
                host: String::from_str("0.0.0.0"),
                port: 8080,
                max_connections: 100,
                query_timeout_ms: 5000,
            },
            storage: StorageConfig { db_path: String::from_str("data.db"), cache_size_mb: 64 },
            logging: LogConfig { level: String::from_str("info"), format: String::from_str("text") },
        }
    }
}

impl Config {
    /// The configuration with another database path.
    pub fn with_db_path(self, path: String) -> (r: Self)
        ensures
            r.storage.db_path == path,
            r.storage.cache_size_mb == self.storage.cache_size_mb,
            r.server == self.server,
            r.logging == self.logging,
    {
        let mut c = self;
        c.storage.db_path = path;
        c
    }

    /// The configuration with another host.
    pub fn with_host(self, host: String) -> (r: Self)
        ensures
            r.server.host == host,
            r.server.port == self.server.port,
            r.server.max_connections == self.server.max_connections,
            r.server.query_timeout_ms == self.server.query_timeout_ms,
            r.storage == self.storage,
            r.logging == self.logging,
    {
        let mut c = self;
        c.server.host = host;
        c
    }

    /// The configuration with another port.
    pub fn with_port(self, port: u16) -> (r: Self)
        ensures
            r.server.port == port,
            r.server.host == self.server.host,
            r.server.max_connections == self.server.max_connections,
            r.server.query_timeout_ms == self.server.query_timeout_ms,
            r.storage == self.storage,
            r.logging == self.logging,
    {
        let mut c = self;
        c.server.port = port;
        c
    }
}

} // verus!
