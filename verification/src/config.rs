//! The relay's settings: five endpoints, each with a default, and the
//! verbosity of the log.

use vstd::prelude::*;
use vstd::string::StringExecFns;

verus! {

/// Where the fan-in socket of the publish/subscribe proxy is bound unless
/// set otherwise.
pub const DEFAULT_PROXY_XSUB_ENDPOINT: &'static str = "tcp://*:5557";

/// Where the fan-out socket of the publish/subscribe proxy is bound unless
/// set otherwise.
pub const DEFAULT_PROXY_XPUB_ENDPOINT: &'static str = "tcp://*:5558";

/// Where the direct-relay socket is bound unless set otherwise.
pub const DEFAULT_CLIENT_TO_CLIENT_ENDPOINT: &'static str = "tcp://*:6565";

/// Where the client-facing socket is bound unless set otherwise.
pub const DEFAULT_CLIENT_FACING_ENDPOINT: &'static str = "tcp://*:5559";

/// Where the worker-facing socket is bound unless set otherwise.
pub const DEFAULT_WORKER_FACING_ENDPOINT: &'static str = "tcp://*:5560";

/// The endpoints that the sockets are bound to.
#[derive(Debug, PartialEq, Eq)]
pub struct NetworkConfig {
    pub proxy_xsub_endpoint: String,
    pub proxy_xpub_endpoint: String,
    pub client_to_client_endpoint: String,
    pub client_facing_endpoint: String,
    pub worker_facing_endpoint: String,
}

/// The endpoints as a settings file gives them: each one may be missing.
#[derive(Debug, PartialEq, Eq)]
pub struct NetworkSettings {
    pub proxy_xsub_endpoint: Option<String>,
    pub proxy_xpub_endpoint: Option<String>,
    pub client_to_client_endpoint: Option<String>,
    pub client_facing_endpoint: Option<String>,
    pub worker_facing_endpoint: Option<String>,
}

/// Where the log goes and how much of it is kept.
#[derive(Debug, PartialEq, Eq)]
pub struct LoggingConfig {
    pub file_path: String,
    pub level: String,
}

/// All settings.
#[derive(Debug, PartialEq, Eq)]
pub struct Config {
    pub logging: LoggingConfig,
    pub network: NetworkConfig,
}

/// How much of the log is kept.
#[derive(Clone, Copy, Debug, PartialEq, Eq, Structural)]
pub enum LogLevel {
    Trace,
    Debug,
    Info,
    Warn,
    Error,
}

/// The value of a setting: what was set, or the default.
pub open spec fn value_or(setting: Option<String>, default: Seq<char>) -> Seq<char> {
    match setting {
        Some(value) => value@,
        None => default,
    }
}

fn setting_or(setting: Option<String>, default: &str) -> (value: String)
    ensures
        value@ == value_or(setting, default@),
{
    match setting {
        Some(value) => value,
        None => String::from_str(default),
    }
}

impl Default for NetworkConfig {
    /// Every endpoint at its default.
    fn default() -> (config: NetworkConfig)
        ensures
            config.proxy_xsub_endpoint@ == DEFAULT_PROXY_XSUB_ENDPOINT@,
            config.proxy_xpub_endpoint@ == DEFAULT_PROXY_XPUB_ENDPOINT@,
            config.client_to_client_endpoint@ == DEFAULT_CLIENT_TO_CLIENT_ENDPOINT@,
            config.client_facing_endpoint@ == DEFAULT_CLIENT_FACING_ENDPOINT@,
            config.worker_facing_endpoint@ == DEFAULT_WORKER_FACING_ENDPOINT@,
    {
        NetworkConfig {
            proxy_xsub_endpoint: String::from_str(DEFAULT_PROXY_XSUB_ENDPOINT),
            proxy_xpub_endpoint: String::from_str(DEFAULT_PROXY_XPUB_ENDPOINT),
            client_to_client_endpoint: String::from_str(DEFAULT_CLIENT_TO_CLIENT_ENDPOINT),
            client_facing_endpoint: String::from_str(DEFAULT_CLIENT_FACING_ENDPOINT),
            worker_facing_endpoint: String::from_str(DEFAULT_WORKER_FACING_ENDPOINT),
        }
    }
}

impl NetworkConfig {
    /// The endpoints to use: each one as it is set, or its default where it
    /// is missing.
    pub fn resolve(settings: NetworkSettings) -> (config: NetworkConfig)
        ensures
            config.proxy_xsub_endpoint@ == value_or(
                settings.proxy_xsub_endpoint,
                DEFAULT_PROXY_XSUB_ENDPOINT@,
            ),
            config.proxy_xpub_endpoint@ == value_or(
                settings.proxy_xpub_endpoint,
                DEFAULT_PROXY_XPUB_ENDPOINT@,
            ),
            config.client_to_client_endpoint@ == value_or(
                settings.client_to_client_endpoint,
                DEFAULT_CLIENT_TO_CLIENT_ENDPOINT@,
            ),
            config.client_facing_endpoint@ == value_or(
                settings.client_facing_endpoint,
                DEFAULT_CLIENT_FACING_ENDPOINT@,
            ),
            config.worker_facing_endpoint@ == value_or(
                settings.worker_facing_endpoint,
                DEFAULT_WORKER_FACING_ENDPOINT@,
            ),
    {
        NetworkConfig {
            proxy_xsub_endpoint: setting_or(
                settings.proxy_xsub_endpoint,
                DEFAULT_PROXY_XSUB_ENDPOINT,
            ),
            proxy_xpub_endpoint: setting_or(
                settings.proxy_xpub_endpoint,
                DEFAULT_PROXY_XPUB_ENDPOINT,
            ),
            client_to_client_endpoint: setting_or(
                settings.client_to_client_endpoint,
                DEFAULT_CLIENT_TO_CLIENT_ENDPOINT,
            ),
            client_facing_endpoint: setting_or(
                settings.client_facing_endpoint,
                DEFAULT_CLIENT_FACING_ENDPOINT,
            ),
            worker_facing_endpoint: setting_or(
                settings.worker_facing_endpoint,
                DEFAULT_WORKER_FACING_ENDPOINT,
            ),
        }
    }
}

/// What `str::to_lowercase` of std returns for a text: its lowercase
/// equivalent.
pub uninterp spec fn lowercased(text: Seq<char>) -> Seq<char>;

/// Calls `str::to_lowercase`.
#[verifier::external_body]
fn lowercase(text: &str) -> (lower: String)
    ensures
        lower@ == lowercased(text@),
{
    text.to_lowercase()
}

/// The level that a name in lower case stands for; `Info` for any other
/// text.
pub open spec fn level_named(name: Seq<char>) -> LogLevel {
    if name == "trace"@ {
        LogLevel::Trace
    } else if name == "debug"@ {
        LogLevel::Debug
    } else if name == "info"@ {
        LogLevel::Info
    } else if name == "warn"@ {
        LogLevel::Warn
    } else if name == "error"@ {
        LogLevel::Error
    } else {
        LogLevel::Info
    }
}

/// The level that a name in lower case stands for.
pub fn level_of_lowercase(name: &String) -> (level: LogLevel)
    ensures
        level == level_named(name@),
{
    if *name == String::from_str("trace") {
        LogLevel::Trace
    } else if *name == String::from_str("debug") {
        LogLevel::Debug
    } else if *name == String::from_str("info") {
        LogLevel::Info
    } else if *name == String::from_str("warn") {
        LogLevel::Warn
    } else if *name == String::from_str("error") {
        LogLevel::Error
    } else {
        LogLevel::Info
    }
}

/// The level that the settings ask for: the name is read without regard to
/// case.
pub fn log_level(logging: &LoggingConfig) -> (level: LogLevel)
    ensures
        level == level_named(lowercased(logging.level@)),
{
    let lower = lowercase(logging.level.as_str());
    level_of_lowercase(&lower)
}

} // verus!
