//! Verified core of PED, a Kindle e-ink display runtime: frame diffing,
//! rotation and the frame pipeline, refresh scheduling, configuration policy
//! and live reloads, the control, Kindle API and static file protocols, the
//! decisions around the framebuffer takeover and kernel entropy, and the
//! command lines of the memory logger and the control client.
mod wrappers;
pub mod text;
pub mod display;
pub mod memlog;
pub mod static_server;
pub mod url_parts;
pub mod config;
pub mod device;
pub mod runtime;
pub mod control;
pub mod commands;
pub mod pipeline;
pub mod kindle_lifecycle;
pub mod entropy;
pub mod cli;
