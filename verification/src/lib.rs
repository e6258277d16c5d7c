//! Payment-routing gateway core.
//!
//! Verified logic of a gateway that accepts payment submissions, routes each
//! to one of two redundant downstream processors (a preferred default and a
//! fallback), records which processor accepted it, and answers time-windowed
//! summary queries over those records.
//!
//! Money is carried as whole cents and time as whole microseconds since the
//! Unix epoch, so every quantity the logic decides on is a plain integer.

pub mod clock;
pub mod codec;
pub mod models;
pub mod pool;
pub mod router;
pub mod store;
pub mod summary;
