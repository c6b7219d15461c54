//! A load-generation engine: request scheduling under a concurrency bound,
//! statistics aggregation, body sourcing and response-file naming.

pub mod text;
pub mod stats;
pub mod output;
pub mod run;
pub mod method;
pub mod error;
pub mod config;
pub mod body;
pub mod header;
pub mod record;

pub use body::Body;
pub use config::LoadTestRunner;
pub use error::ConfigError;
pub use method::{HttpMethod, Order};
pub use run::LoadTestRun;
pub use stats::LoadTestResult;
