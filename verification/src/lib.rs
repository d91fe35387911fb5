//! A small completed-work journal: records "completed item" events (an
//! instant plus a free-text label) and answers time-windowed queries,
//! through two interchangeable stores — an append-only textual log and a
//! relational table — that share one canonical line format.

pub mod db;
pub mod file;
pub mod instant;
pub mod item;

pub use instant::days_ago;
pub use instant::weeks_ago;
pub use instant::Instant;
