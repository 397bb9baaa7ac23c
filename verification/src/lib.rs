//! Keeps a team's calendar on an event platform in step with the fixtures
//! that its league publishes.
//!
//! [`full_time`] reads fixtures from the rows of the league's listing,
//! [`mapper`] turns fixtures into the platform's events and back, and
//! [`diff`] works out what has to be created, updated and deleted, and
//! [`sync`] lists the operations that do so. [`listing`] finds the rows in
//! the league's page, and [`query`] writes the question put to the platform.
pub mod diff;
pub mod error;
pub mod full_time;
pub mod listing;
pub mod mapper;
pub mod query;
pub mod spond;
pub mod sync;
pub mod team;
pub mod text;
pub mod time;

pub use diff::Diff;
pub use sync::SyncType;
pub use team::Team;
