//! Host-side logic of the Wassel plugin runtime: server-sent event framing,
//! the plugin stack's configuration and routing, the conversion of Redis
//! replies into component values, and the command-line build planning.

pub mod admin;
pub mod cli;
pub mod component;
pub mod http_client;
pub mod pairs;
pub mod postgres;
pub mod redis;
pub mod report;
pub mod router;
pub mod sse;
pub mod substitute;
pub mod stack;
pub mod text;
