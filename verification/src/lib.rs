//! Observes a structured build-event stream and turns it into progress
//! updates, per-unit log transcripts and failure-aware render decisions.
//!
//! The core is a router over typed events: a unit registry with per-unit
//! log buffers, a stats aggregator, a failure attributor and a verbosity
//! policy. Rendering itself is left to the caller, which receives a list
//! of render actions for each event handled.

pub mod cargo_logs;
pub mod json;
pub mod kv;
pub mod laws;
pub mod logone;
pub mod logs;
pub mod misc;
pub mod nix_build_statistics;
pub mod parse;
pub mod pattern;
pub mod policy;
pub mod text;

pub use crate::logone::{LogError, LogLevel, LogOne, LogStatus, NixMessage, RenderAction, StatsSnapshot};
pub use crate::parse::Event;
