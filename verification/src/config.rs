//! Cloud Run configuration.

use vstd::prelude::*;
use vstd::string::*;
use crate::health::opt_view;
use crate::text::{decimal, lemma_decimal_digits, lemma_decimal_shortest, lemma_parse_decimal_round_trip, parse_unsigned, parse_unsigned_spec, write_decimal};

verus! {

/// Cloud Run configuration.
///
/// Cloud Run itself only sets a handful of the variables it is read from
/// (`PORT`, `K_SERVICE`, `K_REVISION`, `K_CONFIGURATION`); the remaining
/// fields are user-supplied overrides. The CPU limit is held as `C`, a
/// number of CPUs that the caller parses.
#[derive(Debug, Clone)]
pub struct CloudRunConfig<C> {
    /// Port to listen on (from the `PORT` env var set by Cloud Run).
    pub port: u16,
    /// Host to bind to.
    pub host: String,
    /// Service name (from the `K_SERVICE` env var set by Cloud Run).
    pub service: Option<String>,
    /// Revision name (from the `K_REVISION` env var set by Cloud Run).
    pub revision: Option<String>,
    /// Configuration name (from the `K_CONFIGURATION` env var set by Cloud Run).
    pub configuration: Option<String>,
    /// Project ID. User-supplied via `GOOGLE_CLOUD_PROJECT`.
    pub project_id: Option<String>,
    /// Region. User-supplied via `GOOGLE_CLOUD_REGION`.
    pub region: Option<String>,
    /// Service URL. User-supplied via `CLOUD_RUN_URL`.
    pub url: Option<String>,
    /// Memory limit in MB. User-supplied override via `MEMORY_LIMIT_MB`.
    pub memory_limit_mb: Option<u32>,
    /// CPU limit. User-supplied override via `CPU_LIMIT`.
    pub cpu_limit: Option<C>,
    /// Request timeout in seconds. User-supplied override via
    /// `CLOUD_RUN_TIMEOUT_SECONDS`; 300 by default.
    pub timeout_seconds: u32,
    /// Maximum concurrent requests per instance. User-supplied override via
    /// `CLOUD_RUN_CONCURRENCY`; 80 by default.
    pub max_concurrent_requests: u32,
}

/// The raw values of the environment variables that the configuration is
/// read from (`None` where a variable is unset).
#[derive(Debug, Clone)]
pub struct ConfigEnv {
    /// `PORT`.
    pub port: Option<String>,
    /// `K_SERVICE`.
    pub k_service: Option<String>,
    /// `K_REVISION`.
    pub k_revision: Option<String>,
    /// `K_CONFIGURATION`.
    pub k_configuration: Option<String>,
    /// `GOOGLE_CLOUD_PROJECT`.
    pub google_cloud_project: Option<String>,
    /// `GOOGLE_CLOUD_REGION`.
    pub google_cloud_region: Option<String>,
    /// `CLOUD_RUN_URL`.
    pub cloud_run_url: Option<String>,
    /// `MEMORY_LIMIT_MB`.
    pub memory_limit_mb: Option<String>,
    /// `CLOUD_RUN_TIMEOUT_SECONDS`.
    pub cloud_run_timeout_seconds: Option<String>,
    /// `CLOUD_RUN_CONCURRENCY`.
    pub cloud_run_concurrency: Option<String>,
}

/// Default port.
pub open spec fn default_port() -> u16 {
    8080
}

/// Default request timeout in seconds.
pub open spec fn default_timeout_seconds() -> u32 {
    300
}

/// Default maximum of concurrent requests per instance.
pub open spec fn default_concurrency() -> u32 {
    80
}

/// The number that an optional variable value holds, if it is set and
/// parses as an unsigned number no larger than `max`.
pub open spec fn parsed(value: Option<String>, max: nat) -> Option<nat> {
    match value {
        Some(s) => parse_unsigned_spec(s@, max),
        None => None,
    }
}

/// The number that an optional variable value holds, or `default` where it
/// is unset or does not parse.
pub open spec fn parsed_or(value: Option<String>, max: nat, default: nat) -> nat {
    match parsed(value, max) {
        Some(n) => n,
        None => default,
    }
}

fn parse_value(value: &Option<String>, max: u64) -> (r: Option<u64>)
    ensures
        match parsed(*value, max as nat) {
            Some(n) => r == Some(n as u64),
            None => r is None,
        },
{
    match value {
        Some(s) => parse_unsigned(s.as_str(), max),
        None => None,
    }
}

/// The bind address of a host and port: `host:port`.
pub open spec fn bind_address_of(host: Seq<char>, port: u16) -> Seq<char> {
    host + ":"@ + decimal(port as nat)
}

impl<C> CloudRunConfig<C> {
    /// Configuration from the values of its environment variables, with the
    /// CPU limit already read. A number that is unset or does not parse
    /// leaves its field at the default (`None` for the memory limit).
    pub fn from_env_values(env: ConfigEnv, cpu_limit: Option<C>) -> (r: Self)
        ensures
            r.port == parsed_or(env.port, u16::MAX as nat, default_port() as nat),
            r.host@ == "0.0.0.0"@,
            r.service == env.k_service,
            r.revision == env.k_revision,
            r.configuration == env.k_configuration,
            r.project_id == env.google_cloud_project,
            r.region == env.google_cloud_region,
            r.url == env.cloud_run_url,
            match parsed(env.memory_limit_mb, u32::MAX as nat) {
                Some(n) => r.memory_limit_mb == Some(n as u32),
                None => r.memory_limit_mb is None,
            },
            r.cpu_limit == cpu_limit,
            r.timeout_seconds == parsed_or(
                env.cloud_run_timeout_seconds,
                u32::MAX as nat,
                default_timeout_seconds() as nat,
            ),
            r.max_concurrent_requests == parsed_or(
                env.cloud_run_concurrency,
                u32::MAX as nat,
                default_concurrency() as nat,
            ),
    {
        let port: u16 = match parse_value(&env.port, 65535) {
            Some(p) => p as u16,
            None => 8080,
        };
        let memory_limit_mb: Option<u32> = match parse_value(&env.memory_limit_mb, 4294967295) {
            Some(m) => Some(m as u32),
            None => None,
        };
        let timeout_seconds: u32 = match parse_value(&env.cloud_run_timeout_seconds, 4294967295) {
            Some(t) => t as u32,
            None => 300,
        };
        let max_concurrent_requests: u32 = match parse_value(
            &env.cloud_run_concurrency,
            4294967295,
        ) {
            Some(c) => c as u32,
            None => 80,
        };
        CloudRunConfig {
            port,
            host: String::from_str("0.0.0.0"),
            service: env.k_service,
            revision: env.k_revision,
            configuration: env.k_configuration,
            project_id: env.google_cloud_project,
            region: env.google_cloud_region,
            url: env.cloud_run_url,
            memory_limit_mb,
            cpu_limit,
            timeout_seconds,
            max_concurrent_requests,
        }
    }

    /// Set the port.
    pub fn port(self, port: u16) -> (r: Self)
        ensures
            r == (CloudRunConfig { port, ..self }),
    {
        CloudRunConfig { port, ..self }
    }

    /// Set the host.
    pub fn host(self, host: String) -> (r: Self)
        ensures
            r == (CloudRunConfig { host, ..self }),
    {
        CloudRunConfig { host, ..self }
    }

    /// Get the bind address: `host:port`.
    pub fn bind_address(&self) -> (r: String)
        ensures
            r@ == bind_address_of(self.host@, self.port),
    {
        let mut address = String::from_str(self.host.as_str());
        address.append(":");
        write_decimal(self.port as u128, &mut address);
        address
    }

    /// Check if running on Cloud Run.
    pub fn is_cloud_run(&self) -> (r: bool)
        ensures
            r == self.service is Some,
    {
        self.service.is_some()
    }

    /// Get the service URL, if known: exactly the URL provided out-of-band
    /// via `CLOUD_RUN_URL`, and none otherwise (never a fabricated URL).
    pub fn service_url(&self) -> (r: Option<String>)
        ensures
            opt_view(r) == opt_view(self.url),
    {
        match &self.url {
            Some(u) => Some(u.clone()),
            None => None,
        }
    }
}

impl<C> Default for CloudRunConfig<C> {
    fn default() -> (r: Self)
        ensures
            r.port == default_port(),
            r.host@ == "0.0.0.0"@,
            r.service is None,
            r.revision is None,
            r.configuration is None,
            r.project_id is None,
            r.region is None,
            r.url is None,
            r.memory_limit_mb is None,
            r.cpu_limit is None,
            r.timeout_seconds == default_timeout_seconds(),
            r.max_concurrent_requests == default_concurrency(),
    {
        CloudRunConfig {
            port: 8080,
            host: String::from_str("0.0.0.0"),
            service: None,
            revision: None,
            configuration: None,
            project_id: None,
            region: None,
            url: None,
            memory_limit_mb: None,
            cpu_limit: None,
            timeout_seconds: 300,
            max_concurrent_requests: 80,
        }
    }
}

/// The bind address is the host, a `:`, and then the port written in
/// decimal: only ASCII digits, `0` for port zero and no leading zero
/// otherwise, reading back as the port.
pub proof fn lemma_bind_address_round_trip(host: Seq<char>, port: u16)
    ensures
        bind_address_of(host, port).subrange(0, host.len() as int) == host,
        bind_address_of(host, port)[host.len() as int] == ':',
        ({
            let a = bind_address_of(host, port);
            let digits = a.subrange(host.len() as int + 1, a.len() as int);
            &&& digits.len() > 0
            &&& forall|i: int| 0 <= i < digits.len() ==> 48 <= (#[trigger] digits[i]) as u32 <= 57
            &&& port == 0 ==> digits == seq!['0']
            &&& port > 0 ==> digits[0] != '0'
            &&& parse_unsigned_spec(digits, u16::MAX as nat) == Some(port as nat)
        }),
{
    let a = bind_address_of(host, port);
    reveal_strlit(":");
    assert(a.subrange(0, host.len() as int) =~= host);
    assert(a.subrange(host.len() as int + 1, a.len() as int) =~= decimal(port as nat));
    lemma_parse_decimal_round_trip(port as nat, u16::MAX as nat);
    lemma_decimal_digits(port as nat);
    lemma_decimal_shortest(port as nat);
}

/// A variable set to the decimal text of any number within the field's
/// range gives that number (so `MEMORY_LIMIT_MB=1024` is 1024 and
/// `CLOUD_RUN_TIMEOUT_SECONDS=3600` is 3600), whatever the default; in
/// general a set variable gives what parsing its text gives.
pub proof fn lemma_parsed_decimal(s: String, n: nat, max: nat, default: nat)
    requires
        s@ == decimal(n),
        n <= max,
    ensures
        parsed(Some(s), max) == Some(n),
        parsed_or(Some(s), max, default) == n,
        parsed(Some(s), max) == parse_unsigned_spec(s@, max),
        parsed(None, max) is None,
        parsed_or(None, max, default) == default,
{
    lemma_parse_decimal_round_trip(n, max);
}

/// The defaults: port 8080, a 300-second request timeout, and 80
/// concurrent requests per instance.
pub proof fn lemma_config_defaults()
    ensures
        default_port() == 8080,
        default_timeout_seconds() == 300,
        default_concurrency() == 80,
{
}

} // verus!
