//! The admin dashboard's decisions: plugin statistics, the system-stats
//! event stream and the web assets it serves.

pub mod router;
pub mod stats;
pub mod web;
