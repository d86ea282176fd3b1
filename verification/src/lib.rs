//! Development-time tracking: sessions per project, the commits made during
//! them, weekly reports, stand-up notes and saved work contexts.
pub mod clock;
pub mod dashboard;
pub mod editing;
pub mod git;
pub mod history_log;
pub mod model;
pub mod report;
pub mod snapshot;
pub mod standup;
pub mod style;
pub mod text;
pub mod tracker;
