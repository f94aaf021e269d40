//! Batch image downloading: what to request, when to try again, which
//! connection to use, what to call the file and what to report.
//!
//! Every decision is made here on plain values. Sockets, timers and the file
//! system are driven by the code around this library, which performs the
//! actions that are asked for and reports back what happened.

pub mod batch;
pub mod config;
pub mod connect;
pub mod dns;
pub mod download;
pub mod hash;
pub mod headers;
pub mod host_pool;
pub mod orchestrator;
pub mod output;
pub mod pool;
pub mod python;
pub mod retry;
pub mod stub;
pub mod text;
pub mod time;
pub mod transport;
pub mod types;
pub mod uri;

pub use config::{Config, NamingStrategy};
pub use orchestrator::Downloader;
pub use types::{DownloadError, DownloadOutcome, DownloadResult};
