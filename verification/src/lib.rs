//! A lightweight anonymous HTTP client core built around a flat-file,
//! pre-signed Tor directory cache.
//!
//! The crate verifies the logic of the directory subsystem: loading and
//! checking a side-loaded consensus, certificate, microdescriptors and churn
//! delta; classifying the freshness of the on-disk cache; assembling an
//! in-memory network directory; and framing one-shot HTTP/1.0 requests and
//! responses.  Network and file I/O live outside the library; callers hand in
//! file contents and timestamps as plain values.

pub mod authority;
pub mod cache;
pub mod calendar;
pub mod churn;
pub mod directory;
pub mod docs;
pub mod errors;
pub mod hexcode;
pub mod http;
pub mod idlist;
pub mod lines;
pub mod send;

pub use cache::check_directory;
pub use cache::AUTHORITY_FILENAME;
pub use cache::CERTIFICATE_FILENAME;
pub use cache::CHURN_FILENAME;
pub use cache::CONSENSUS_FILENAME;
pub use cache::MICRODESCRIPTORS_FILENAME;
