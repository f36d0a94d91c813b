//! The Redis interface of plugins: replies of the Redis server become
//! component values whose nested parts are lazy values held in the
//! component's resource table.

pub mod convert;
pub mod host;
pub mod table;
pub mod types;
