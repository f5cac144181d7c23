//! What the operations are for, stated apart from how they are written.

pub mod changes;
pub mod details;
pub mod event_data;
pub mod failures;
pub mod further;
pub mod journal_reading;
pub mod json_reading;
pub mod keeping;
pub mod limits;
pub mod lists;
pub mod mounts;
pub mod numbers;
pub mod observing;
pub mod operations;
pub mod places;
pub mod policies;
pub mod processes;
pub mod readings;
pub mod reports;
pub mod restrictions;
pub mod runs;
pub mod sessions;
pub mod snapshots;
pub mod stores;
pub mod telemetry;
pub mod texts;
