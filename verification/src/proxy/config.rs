//! What the proxy is told at the start.
use vstd::prelude::*;

verus! {

/// The settings of a proxy.
pub struct ProxyConfig {
    upstream_addresses: Vec<String>,
    active_health_check_interval: usize,
    active_health_check_path: String,
    max_requests_per_minute: usize,
}

/// The value of a [`ProxyConfig`].
pub struct ProxyConfigView {
    /// The addresses of the servers to forward requests to. A server is known by its index here.
    pub upstream_addresses: Seq<Seq<char>>,
    /// How many seconds pass between two rounds of health checks.
    pub active_health_check_interval: usize,
    /// The path that a health check asks for.
    pub active_health_check_path: Seq<char>,
    /// How many requests a client may make in a minute; 0 means any number.
    pub max_requests_per_minute: usize,
}

impl View for ProxyConfig {
    type V = ProxyConfigView;

    closed spec fn view(&self) -> ProxyConfigView {
        ProxyConfigView {
            upstream_addresses: self.upstream_addresses.deep_view(),
            active_health_check_interval: self.active_health_check_interval,
            active_health_check_path: self.active_health_check_path@,
            max_requests_per_minute: self.max_requests_per_minute,
        }
    }
}

impl ProxyConfigView {
    /// There is at least one upstream server, and no more than a machine word can count.
    pub open spec fn wf(self) -> bool {
        0 < self.upstream_addresses.len() <= usize::MAX
    }
}

/// Why a proxy does not start.
pub struct ConfigError {
    /// The line to be logged.
    pub message: String,
    /// The exit code of the program.
    pub code: i32,
}

impl ProxyConfig {
    /// Takes the settings, unless there is no upstream server among them.
    pub fn new(
        upstream_addresses: Vec<String>,
        active_health_check_interval: usize,
        active_health_check_path: String,
        max_requests_per_minute: usize,
    ) -> (made: Result<ProxyConfig, ConfigError>)
        ensures
            match made {
                Ok(config) => {
                    &&& upstream_addresses@.len() > 0
                    &&& config@ == (ProxyConfigView {
                        upstream_addresses: upstream_addresses.deep_view(),
                        active_health_check_interval,
                        active_health_check_path: active_health_check_path@,
                        max_requests_per_minute,
                    })
                    &&& config@.wf()
                },
                Err(error) => {
                    &&& upstream_addresses@.len() == 0
                    &&& error.message@
                        == "At least one upstream server must be specified using the --upstream option."@
                    &&& error.code == 1
                },
            },
    {
        if upstream_addresses.len() < 1 {
            return Err(
                ConfigError {
                    message:
                        "At least one upstream server must be specified using the --upstream option.".to_owned(),
                    code: 1,
                },
            );
        }
        Ok(
            ProxyConfig {
                upstream_addresses,
                active_health_check_interval,
                active_health_check_path,
                max_requests_per_minute,
            },
        )
    }

    /// How many upstream servers there are.
    pub fn upstream_count(&self) -> (count: usize)
        ensures
            count == self@.upstream_addresses.len(),
    {
        self.upstream_addresses.len()
    }

    /// The address of one upstream server.
    pub fn upstream_address(&self, index: usize) -> (address: &str)
        requires
            index < self@.upstream_addresses.len(),
        ensures
            address@ == self@.upstream_addresses[index as int],
    {
        self.upstream_addresses[index].as_str()
    }

    /// How many seconds pass between two rounds of health checks.
    pub fn active_health_check_interval(&self) -> (seconds: usize)
        ensures
            seconds == self@.active_health_check_interval,
    {
        self.active_health_check_interval
    }

    /// The path that a health check asks for.
    pub fn active_health_check_path(&self) -> (path: &str)
        ensures
            path@ == self@.active_health_check_path,
    {
        self.active_health_check_path.as_str()
    }

    /// How many requests a client may make in a minute; 0 means any number.
    pub fn max_requests_per_minute(&self) -> (max: usize)
        ensures
            max == self@.max_requests_per_minute,
    {
        self.max_requests_per_minute
    }
}

} // verus!
