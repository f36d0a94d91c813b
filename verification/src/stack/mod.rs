//! The plugin stack: its configuration, the routing of requests to
//! plugins, and the answer to a request.

pub mod config;
pub mod routing;
pub mod service;
