//! A gateway between a conversation and the backends that can answer it,
//! with the registry through which a streamed answer is polled, and the
//! helpers of the application around it.
//!
//! - [`ai`]: the backends, their wire formats, the selection of a backend
//!   from the configuration, the registry of streams and the gateway itself.
//! - [`json`]: JSON values as the decoders read them.
//! - [`text`]: characters, white space, lines and searches in text.
//! - [`bridge`]: storage for the apps and the script that is put into them.
//! - [`config`]: the lines of a configuration file.
//! - [`theme`], [`types`], [`tools`], [`views`]: what the interface and the
//!   tools of an agent build on.

pub mod ai;
pub mod bridge;
pub mod config;
pub mod json;
pub mod text;
pub mod theme;
pub mod tools;
pub mod types;
pub mod views;
