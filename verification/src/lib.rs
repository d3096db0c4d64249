//! Shared machinery of a bibliographic-search server: the rules of an
//! embedding-similarity cache with time-based eviction, and the rules of a
//! rate-limited, retrying request executor.
//!
//! Everything here works on plain values. Disk, network and sleeping are left
//! to the caller, which hands in what it read and carries out what is
//! returned.

pub mod cache;
pub mod dirs;
pub mod error;
pub mod json;
pub mod limiter;
pub mod operation;
pub mod rank;
pub mod request;
pub mod single;
pub mod time;
pub mod url;

pub use cache::{Cache, CacheEntry, LocalCache, Query};
pub use dirs::database_dir;
pub use error::Error;
pub use json::Json;
pub use limiter::RateLimiter;
pub use request::make_request;
pub use single::Single;
pub use time::{Span, Timestamp};
