//! Errors that stop a run before any request is sent.

use vstd::prelude::*;
use crate::method::{HttpMethod, method_name};
use crate::text::{decimal, push_decimal};

verus! {

/// A configuration that cannot be run.
#[derive(Debug, Clone, PartialEq, Eq)]
pub enum ConfigError {
    EmptyUrl,
    ZeroRequests,
    ZeroConcurrency,
    ConcurrencyExceedsRequests { concurrency: u32, requests: u32 },
    MissingCaCert(String),
    MissingCert(String),
    MissingKey(String),
    MissingDataFile(String),
    NoBodyFiles(String),
    EmptyManifest(String),
    MethodNotSupported(HttpMethod),
    InvalidMethod(String),
    InvalidOrder(String),
    InvalidHeader(String),
    InvalidHeaderName(String),
    InvalidHeaderValue(String),
}

/// `prefix'path'suffix`
pub open spec fn quoted(prefix: Seq<char>, path: Seq<char>, suffix: Seq<char>) -> Seq<char> {
    prefix + seq!['\''] + path + seq!['\''] + suffix
}

/// The human-readable text of each error.
pub open spec fn error_message(e: ConfigError) -> Seq<char> {
    match e {
        ConfigError::EmptyUrl => "URL cannot be empty"@,
        ConfigError::ZeroRequests => "Number of requests cannot be zero"@,
        ConfigError::ZeroConcurrency => "Number of concurrency cannot be zero"@,
        ConfigError::ConcurrencyExceedsRequests { concurrency, requests } => "Number of concurrency: "@
            + decimal(concurrency as nat) + " must be less than number of requests: "@ + decimal(
            requests as nat,
        ),
        ConfigError::MissingCaCert(p) => quoted(
            "CA certificate "@,
            p@,
            " does not exist or is not a file"@,
        ),
        ConfigError::MissingCert(p) => quoted(
            "Certificate "@,
            p@,
            " does not exist or is not a file"@,
        ),
        ConfigError::MissingKey(p) => quoted(
            "Private key "@,
            p@,
            " does not exist or is not a file"@,
        ),
        ConfigError::MissingDataFile(p) => quoted(
            "Data file "@,
            p@,
            " does not exist or is not a file"@,
        ),
        ConfigError::NoBodyFiles(p) => quoted("Directory "@, p@, " holds no files"@),
        ConfigError::EmptyManifest(p) => quoted("Manifest "@, p@, " holds no entries"@),
        ConfigError::MethodNotSupported(m) => quoted(
            "HTTP method "@,
            method_name(m),
            " not supported"@,
        ),
        ConfigError::InvalidMethod(s) => quoted(""@, s@, " is not a valid HTTP method"@),
        ConfigError::InvalidOrder(s) => quoted(""@, s@, " is not a valid read order"@),
        ConfigError::InvalidHeader(s) => "Invalid header format: "@ + s@,
        ConfigError::InvalidHeaderName(s) => quoted("Invalid header name "@, s@, ""@),
        ConfigError::InvalidHeaderValue(s) => quoted("Invalid header value "@, s@, ""@),
    }
}

fn push_quoted(s: &mut String, prefix: &str, path: &str, suffix: &str)
    ensures
        final(s)@ == old(s)@ + quoted(prefix@, path@, suffix@),
{
    s.append(prefix);
    s.append("'");
    s.append(path);
    s.append("'");
    s.append(suffix);
    proof {
        reveal_strlit("'");
        assert(s@ =~= old(s)@ + quoted(prefix@, path@, suffix@));
    }
}

impl ConfigError {
    /// The human-readable text of the error.
    pub fn message(&self) -> (r: String)
        ensures
            r@ == error_message(*self),
    {
        let mut s = String::new();
        match self {
            ConfigError::EmptyUrl => s.append("URL cannot be empty"),
            ConfigError::ZeroRequests => s.append("Number of requests cannot be zero"),
            ConfigError::ZeroConcurrency => s.append("Number of concurrency cannot be zero"),
            ConfigError::ConcurrencyExceedsRequests { concurrency, requests } => {
                s.append("Number of concurrency: ");
                push_decimal(&mut s, *concurrency as u64);
                s.append(" must be less than number of requests: ");
                push_decimal(&mut s, *requests as u64);
            },
            ConfigError::MissingCaCert(p) => push_quoted(
                &mut s,
                "CA certificate ",
                p.as_str(),
                " does not exist or is not a file",
            ),
            ConfigError::MissingCert(p) => push_quoted(
                &mut s,
                "Certificate ",
                p.as_str(),
                " does not exist or is not a file",
            ),
            ConfigError::MissingKey(p) => push_quoted(
                &mut s,
                "Private key ",
                p.as_str(),
                " does not exist or is not a file",
            ),
            ConfigError::MissingDataFile(p) => push_quoted(
                &mut s,
                "Data file ",
                p.as_str(),
                " does not exist or is not a file",
            ),
            ConfigError::NoBodyFiles(p) => push_quoted(
                &mut s,
                "Directory ",
                p.as_str(),
                " holds no files",
            ),
            ConfigError::EmptyManifest(p) => push_quoted(
                &mut s,
                "Manifest ",
                p.as_str(),
                " holds no entries",
            ),
            ConfigError::MethodNotSupported(m) => push_quoted(
                &mut s,
                "HTTP method ",
                m.name(),
                " not supported",
            ),
            ConfigError::InvalidMethod(v) => push_quoted(
                &mut s,
                "",
                v.as_str(),
                " is not a valid HTTP method",
            ),
            ConfigError::InvalidOrder(v) => push_quoted(
                &mut s,
                "",
                v.as_str(),
                " is not a valid read order",
            ),
            ConfigError::InvalidHeader(v) => {
                s.append("Invalid header format: ");
                s.append(v.as_str());
            },
            ConfigError::InvalidHeaderName(v) => push_quoted(
                &mut s,
                "Invalid header name ",
                v.as_str(),
                "",
            ),
            ConfigError::InvalidHeaderValue(v) => push_quoted(
                &mut s,
                "Invalid header value ",
                v.as_str(),
                "",
            ),
        }
        proof {
            assert(s@ =~= error_message(*self));
        }
        s
    }
}

} // verus!
