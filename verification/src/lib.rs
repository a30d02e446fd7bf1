//! Decision logic of a segmented HTTP downloader.
//!
//! The crate holds everything the downloader decides or computes: how a
//! resource is cut into byte ranges, how the answer to a header-only request
//! is read, what is asked of the network and the file system next, and how
//! the fetched parts are put back together. It performs no I/O itself: a
//! caller carries out each [`orchestrator::Action`] and hands the outcome
//! back as an [`orchestrator::Event`].

pub mod config;
pub mod decimal;
pub mod fetch;
pub mod merge;
pub mod orchestrator;
pub mod parts;
pub mod plan;
pub mod probe;
pub mod text;
pub mod uri;

pub use config::{Config, ConfigError};
pub use orchestrator::{run, start, Action, Download, DownloadError, Event, Phase, Step};
