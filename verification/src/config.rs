//! Static configuration of the honeypot.
//!
//! Loading from a file or from the command line is an external collaborator;
//! the library owns the configuration's shape, its defaults, and the
//! validity rules the rest of the pipeline relies on. IP addresses are
//! carried as 32-bit values so range checks are plain arithmetic.

use vstd::prelude::*;
use vstd::string::StringExecFns;

use crate::errors::ConfigError;

verus! {

/// Storage backend options for the application.
#[derive(Debug, Clone, Copy, PartialEq, Eq, Structural)]
pub enum StorageBackend {
    /// Filesystem-backed persistence.
    FileSystem,
    /// Relational persistence.
    Database,
}

impl Default for StorageBackend {
    fn default() -> (r: Self)
        ensures
            r == StorageBackend::Database,
    {
        StorageBackend::Database
    }
}

/// Transport protocol of a configured service.
#[derive(Debug, Clone, Copy, PartialEq, Eq, Structural)]
pub enum Protocol {
    TCP,
    UDP,
}

/// An inclusive range of IPv4 addresses, numerically.
#[derive(Debug, Clone, Copy, PartialEq, Eq, Structural)]
pub struct IpRange {
    /// First address of the range.
    pub start: u32,
    /// Last address of the range.
    pub end: u32,
}

impl Default for IpRange {
    /// The full address space.
    fn default() -> (r: Self)
        ensures
            r.start == 0 && r.end == 0xFFFF_FFFFu32,
    {
        IpRange { start: 0, end: 0xFFFF_FFFFu32 }
    }
}

/// Allow/block lists over client addresses.
pub struct IpFilter {
    /// Ranges admitted in whitelist mode.
    pub allowed_ranges: Vec<IpRange>,
    /// Ranges always rejected.
    pub blocked_ranges: Vec<IpRange>,
    /// Whether only the allowed ranges are admitted.
    pub whitelist_mode: bool,
}

impl Default for IpFilter {
    /// Allow all: one full allowed range, nothing blocked.
    fn default() -> (r: Self)
        ensures
            r.allowed_ranges@.len() == 1,
            r.allowed_ranges@[0] == (IpRange { start: 0, end: 0xFFFF_FFFFu32 }),
            r.blocked_ranges@.len() == 0,
            !r.whitelist_mode,
    {
        let mut allowed: Vec<IpRange> = Vec::new();
        allowed.push(IpRange { start: 0, end: 0xFFFF_FFFFu32 });
        IpFilter { allowed_ranges: allowed, blocked_ranges: Vec::new(), whitelist_mode: false }
    }
}

/// An inclusive range of TCP ports.
#[derive(Debug, Clone, Copy, PartialEq, Eq, Structural)]
pub struct PortRange {
    /// First port of the range.
    pub start: u16,
    /// Last port of the range.
    pub end: u16,
}

impl Default for PortRange {
    /// Every assignable port.
    fn default() -> (r: Self)
        ensures
            r.start == 1 && r.end == 65535,
    {
        PortRange { start: 1, end: 65535 }
    }
}

/// Allow/block lists over service ports.
pub struct PortFilter {
    /// Ranges admitted.
    pub allowed_ports: Vec<PortRange>,
    /// Ranges always rejected.
    pub blocked_ports: Vec<PortRange>,
}

impl Default for PortFilter {
    /// Allow all ports, block none.
    fn default() -> (r: Self)
        ensures
            r.allowed_ports@.len() == 1,
            r.allowed_ports@[0] == (PortRange { start: 1, end: 65535 }),
            r.blocked_ports@.len() == 0,
    {
        let mut allowed: Vec<PortRange> = Vec::new();
        allowed.push(PortRange { start: 1, end: 65535 });
        PortFilter { allowed_ports: allowed, blocked_ports: Vec::new() }
    }
}

/// A decoy process listed by the in-container process tables.
pub struct FakeProcess {
    /// Process name.
    pub name: String,
    /// Fixed pid, or one derived from the listing position.
    pub pid: Option<u32>,
    /// Resident memory to display, in megabytes.
    pub memory_mb: Option<u32>,
    /// Command line to display.
    pub command: String,
}

/// A decoy file placed into the container.
pub struct FakeFile {
    /// Absolute path inside the container.
    pub path: String,
    /// File content; a placeholder is used when absent.
    pub content: Option<String>,
    /// Apparent size, where content is not given.
    pub size_bytes: Option<u64>,
    /// Whether the file is marked executable.
    pub is_executable: bool,
}

/// Decoration of a container so it resembles a lived-in host.
pub struct ObfuscationConfig {
    /// Whether any decoys are installed.
    pub enabled: bool,
    /// Hostname to present.
    pub fake_hostname: Option<String>,
    /// Decoy processes.
    pub fake_processes: Vec<FakeProcess>,
    /// Decoy files.
    pub fake_files: Vec<FakeFile>,
    /// Decoy user accounts.
    pub fake_users: Vec<String>,
    /// Decoy network interfaces.
    pub fake_network_interfaces: Vec<String>,
    /// Apparent uptime, in days.
    pub system_uptime_days: Option<u32>,
}

impl Default for ObfuscationConfig {
    /// No decoys.
    fn default() -> (r: Self)
        ensures
            !r.enabled,
            r.fake_hostname is None,
            r.fake_processes@.len() == 0,
            r.fake_files@.len() == 0,
            r.fake_users@.len() == 0,
            r.fake_network_interfaces@.len() == 0,
            r.system_uptime_days is None,
    {
        ObfuscationConfig {
            enabled: false,
            fake_hostname: None,
            fake_processes: Vec::new(),
            fake_files: Vec::new(),
            fake_users: Vec::new(),
            fake_network_interfaces: Vec::new(),
            system_uptime_days: None,
        }
    }
}

/// One honeypot service: where it listens, what serves it, and how clients
/// are recognized.
pub struct ServiceConfig {
    /// Service name (e.g. "ssh", "http").
    pub name: String,
    /// Listen port.
    pub port: u16,
    /// Transport; the core serves TCP.
    pub protocol: Protocol,
    /// Container image tag.
    pub container_image: String,
    /// Whether the service is served.
    pub enabled: bool,
    /// Byte-prefix patterns used for protocol sniffing.
    pub header_patterns: Vec<String>,
    /// Banner sent on connect, if any.
    pub banner_response: Option<String>,
    /// Container decoration.
    pub obfuscation: ObfuscationConfig,
}

impl Default for ServiceConfig {
    fn default() -> (r: Self)
        ensures
            r.name@ == "test_service"@,
            r.port == 8000,
            r.protocol == Protocol::TCP,
            r.container_image@ == "container_image"@,
            r.enabled,
            r.header_patterns@.len() == 0,
            r.banner_response is None,
    {
        ServiceConfig {
            name: String::from_str("test_service"),
            port: 8000,
            protocol: Protocol::TCP,
            container_image: String::from_str("container_image"),
            enabled: true,
            header_patterns: Vec::new(),
            banner_response: None,
            obfuscation: ObfuscationConfig::default(),
        }
    }
}

/// The application's configuration.
pub struct Config {
    /// Address the listeners bind to.
    pub bind_address: String,
    /// Root of the persistence storage.
    pub storage_path: String,
    /// Selected persistence backend.
    pub storage_backend: StorageBackend,
    /// Whether the read-only dashboard is served.
    pub web_ui_enabled: bool,
    /// Port of the dashboard.
    pub web_ui_port: u16,
    /// Cap on concurrently active sessions.
    pub max_sessions: usize,
    /// Expiry for ended sessions, in milliseconds.
    pub session_timeout_ms: i64,
    /// Client address filter.
    pub ip_filter: IpFilter,
    /// Port filter.
    pub port_filter: PortFilter,
    /// The configured services.
    pub services: Vec<ServiceConfig>,
}

impl Default for Config {
    fn default() -> (r: Self)
        ensures
            r.bind_address@ == "0.0.0.0"@,
            r.storage_backend == StorageBackend::Database,
            !r.web_ui_enabled,
            r.web_ui_port == 8080,
            r.max_sessions == 10,
            r.session_timeout_ms == 170000000,
            r.services@.len() == 0,
    {
        Config {
            bind_address: String::from_str("0.0.0.0"),
            storage_path: String::new(),
            storage_backend: StorageBackend::Database,
            web_ui_enabled: false,
            web_ui_port: 8080,
            max_sessions: 10,
            session_timeout_ms: 170000000,
            ip_filter: IpFilter::default(),
            port_filter: PortFilter::default(),
            services: Vec::new(),
        }
    }
}

impl Config {
    /// Produces the configuration used when a file supplies no overrides.
    /// Reading and decoding the file itself is the surrounding runtime's
    /// work; it hands any overrides into this record.
    pub fn from_file() -> (r: Result<Config, ConfigError>)
        ensures
            r is Ok,
            r->Ok_0.max_sessions == 10,
            r->Ok_0.session_timeout_ms == 170000000,
            r->Ok_0.storage_backend == StorageBackend::Database,
    {
        Ok(Config::default())
    }

    /// Produces the configuration used when the command line supplies no
    /// overrides.
    pub fn from_args() -> (r: Result<Config, ConfigError>)
        ensures
            r is Ok,
            r->Ok_0.max_sessions == 10,
            r->Ok_0.session_timeout_ms == 170000000,
            r->Ok_0.storage_backend == StorageBackend::Database,
    {
        Ok(Config::default())
    }
}

/// Builds runtime configuration values.
pub struct ConfigurationParser {
    /// Configuration assembled so far.
    pub config: Config,
}

impl ConfigurationParser {
    /// Starts from the default configuration.
    pub fn new() -> (r: ConfigurationParser)
        ensures
            r.config.max_sessions == 10,
            r.config.storage_backend == StorageBackend::Database,
    {
        ConfigurationParser { config: Config::default() }
    }
}

} // verus!
