//! The validated configuration of a load test, and parsing of its settings.

use vstd::prelude::*;
use crate::error::ConfigError;
use crate::method::{HttpMethod, Order, equals_lowercased, lower_chars};

verus! {

/// A file given by the user, and whether it was found to be a regular file.
pub struct PathCheck {
    pub path: String,
    pub is_file: bool,
}

/// The first problem with a configuration, in the order in which they are
/// checked; `None` when there is none. A client certificate and key are only
/// checked when both are given.
pub open spec fn config_problem(
    url: Seq<char>,
    requests: u32,
    concurrency: u32,
    ca_cert: Option<PathCheck>,
    cert: Option<PathCheck>,
    key: Option<PathCheck>,
) -> Option<ConfigError> {
    if url.len() == 0 {
        Some(ConfigError::EmptyUrl)
    } else if requests == 0 {
        Some(ConfigError::ZeroRequests)
    } else if concurrency == 0 {
        Some(ConfigError::ZeroConcurrency)
    } else if concurrency > requests {
        Some(ConfigError::ConcurrencyExceedsRequests { concurrency, requests })
    } else if ca_cert is Some && !ca_cert->0.is_file {
        Some(ConfigError::MissingCaCert(ca_cert->0.path))
    } else if cert is Some && key is Some && !cert->0.is_file {
        Some(ConfigError::MissingCert(cert->0.path))
    } else if cert is Some && key is Some && !key->0.is_file {
        Some(ConfigError::MissingKey(key->0.path))
    } else {
        None
    }
}

/// What a load test sends: `requests` requests to `url`, at most
/// `concurrency` at a time.
pub struct LoadTestRunner {
    /// Target URL.
    pub url: String,
    /// Total number of requests to send.
    pub requests: u32,
    /// Number of requests in flight at a time.
    pub concurrency: u32,
}

impl LoadTestRunner {
    /// A non-empty URL, and `0 < concurrency <= requests`.
    pub open spec fn well_formed(&self) -> bool {
        &&& self.url@.len() > 0
        &&& 0 < self.concurrency <= self.requests
    }

    /// Validates a configuration. Certificate files are given with the result
    /// of looking them up on disk.
    pub fn new(
        url: &str,
        requests: u32,
        concurrency: u32,
        ca_cert: &Option<PathCheck>,
        cert: &Option<PathCheck>,
        key: &Option<PathCheck>,
    ) -> (r: Result<LoadTestRunner, ConfigError>)
        ensures
            match config_problem(url@, requests, concurrency, *ca_cert, *cert, *key) {
                Some(e) => r == Err::<LoadTestRunner, ConfigError>(e),
                None => r matches Ok(runner) && runner.well_formed() && runner.url@ == url@
                    && runner.requests == requests && runner.concurrency == concurrency,
            },
    {
        if url.is_empty() {
            return Err(ConfigError::EmptyUrl);
        }
        if requests == 0 {
            return Err(ConfigError::ZeroRequests);
        }
        if concurrency == 0 {
            return Err(ConfigError::ZeroConcurrency);
        }
        if concurrency > requests {
            return Err(ConfigError::ConcurrencyExceedsRequests { concurrency, requests });
        }
        if let Some(ca) = ca_cert {
            if !ca.is_file {
                return Err(ConfigError::MissingCaCert(ca.path.clone()));
            }
        }
        if let (Some(c), Some(k)) = (cert, key) {
            if !c.is_file {
                return Err(ConfigError::MissingCert(c.path.clone()));
            }
            if !k.is_file {
                return Err(ConfigError::MissingKey(k.path.clone()));
            }
        }
        Ok(LoadTestRunner { url: String::from_str(url), requests, concurrency })
    }
}

/// The method named by `s`, in any letter case.
pub open spec fn method_named(s: Seq<char>) -> Option<HttpMethod> {
    let l = lower_chars(s);
    if l == "get"@ {
        Some(HttpMethod::Get)
    } else if l == "post"@ {
        Some(HttpMethod::Post)
    } else if l == "put"@ {
        Some(HttpMethod::Put)
    } else if l == "delete"@ {
        Some(HttpMethod::Delete)
    } else if l == "patch"@ {
        Some(HttpMethod::Patch)
    } else if l == "head"@ {
        Some(HttpMethod::Head)
    } else {
        None
    }
}

/// Parses an HTTP method name, ignoring ASCII letter case.
pub fn parse_http_method(s: &str) -> (r: Result<HttpMethod, ConfigError>)
    ensures
        match method_named(s@) {
            Some(m) => r == Ok::<HttpMethod, ConfigError>(m),
            None => r matches Err(ConfigError::InvalidMethod(v)) && v@ == s@,
        },
{
    if equals_lowercased(s, "get") {
        Ok(HttpMethod::Get)
    } else if equals_lowercased(s, "post") {
        Ok(HttpMethod::Post)
    } else if equals_lowercased(s, "put") {
        Ok(HttpMethod::Put)
    } else if equals_lowercased(s, "delete") {
        Ok(HttpMethod::Delete)
    } else if equals_lowercased(s, "patch") {
        Ok(HttpMethod::Patch)
    } else if equals_lowercased(s, "head") {
        Ok(HttpMethod::Head)
    } else {
        Err(ConfigError::InvalidMethod(String::from_str(s)))
    }
}

/// The read order named by `s`, in any letter case.
pub open spec fn order_named(s: Seq<char>) -> Option<Order> {
    let l = lower_chars(s);
    if l == "sequential"@ {
        Some(Order::Sequential)
    } else if l == "random"@ {
        Some(Order::Random)
    } else {
        None
    }
}

/// Parses a read order, ignoring ASCII letter case.
pub fn parse_order(s: &str) -> (r: Result<Order, ConfigError>)
    ensures
        match order_named(s@) {
            Some(o) => r == Ok::<Order, ConfigError>(o),
            None => r matches Err(ConfigError::InvalidOrder(v)) && v@ == s@,
        },
{
    if equals_lowercased(s, "sequential") {
        Ok(Order::Sequential)
    } else if equals_lowercased(s, "random") {
        Ok(Order::Random)
    } else {
        Err(ConfigError::InvalidOrder(String::from_str(s)))
    }
}

} // verus!
