//! The verbosity policy: pure decisions from the configured mode and an
//! event's kind or severity, applied at ingestion time and again at
//! flush time.

use vstd::prelude::*;
use crate::logone::LogLevel;
use crate::text;

verus! {

/// A free-text diagnostic counts as a failure signal when its severity
/// reaches the threshold or it carries one of the fixed failure
/// keywords.
pub open spec fn spec_is_error_text(level: u64, msg: Seq<char>) -> bool {
    ||| level >= 3
    ||| text::seq_contains(msg, "error"@)
    ||| text::seq_contains(msg, "failed"@)
    ||| text::seq_contains(msg, "Error"@)
    ||| text::seq_contains(msg, "Failed"@)
    ||| text::seq_contains(msg, "FAILED"@)
    ||| text::seq_contains(msg, "cannot"@)
    ||| text::seq_contains(msg, "Could not"@)
}

pub fn is_error_text(level: u64, msg: &str) -> (r: bool)
    ensures
        r == spec_is_error_text(level, msg@),
{
    level >= 3 || text::text_contains(msg, "error") || text::text_contains(msg, "failed")
        || text::text_contains(msg, "Error") || text::text_contains(msg, "Failed")
        || text::text_contains(msg, "FAILED") || text::text_contains(msg, "cannot")
        || text::text_contains(msg, "Could not")
}

/// Builder-family unit events (start, line, phase) are ingested in the
/// errors-only and verbose modes, never in compiler-only mode.
pub open spec fn spec_nix_units_visible(level: LogLevel) -> bool {
    level != LogLevel::Cargo
}

pub fn nix_units_visible(level: LogLevel) -> (r: bool)
    ensures
        r == spec_nix_units_visible(level),
{
    !matches!(level, LogLevel::Cargo)
}

/// Compiler-family events are handled only in compiler-only mode.
pub open spec fn spec_cargo_visible(level: LogLevel) -> bool {
    level == LogLevel::Cargo
}

pub fn cargo_visible(level: LogLevel) -> (r: bool)
    ensures
        r == spec_cargo_visible(level),
{
    matches!(level, LogLevel::Cargo)
}

/// Whether a stopped unit's transcript is flushed: always in verbose
/// mode, only for failed units in errors-only mode, never in
/// compiler-only mode.
pub open spec fn spec_flush_on_stop(level: LogLevel, failed: bool) -> bool {
    match level {
        LogLevel::Verbose => true,
        LogLevel::Errors => failed,
        LogLevel::Cargo => false,
    }
}

pub fn flush_on_stop(level: LogLevel, failed: bool) -> (r: bool)
    ensures
        r == spec_flush_on_stop(level, failed),
{
    match level {
        LogLevel::Verbose => true,
        LogLevel::Errors => failed,
        LogLevel::Cargo => false,
    }
}

/// Whether a free-text message is printed at all: severity must fall in
/// the warn-to-info range.
pub open spec fn spec_message_printed(level: u64) -> bool {
    1 <= level <= 3
}

pub fn message_printed(level: u64) -> (r: bool)
    ensures
        r == spec_message_printed(level),
{
    1 <= level && level <= 3
}

/// Whether a message event is handled at all in the given mode: never
/// in compiler-only mode, only failure signals in errors-only mode,
/// every message in verbose mode.
pub open spec fn spec_msg_handled(mode: LogLevel, level: u64, msg: Seq<char>) -> bool {
    match mode {
        LogLevel::Cargo => false,
        LogLevel::Errors => spec_is_error_text(level, msg),
        LogLevel::Verbose => true,
    }
}

pub fn msg_handled(mode: LogLevel, level: u64, msg: &str) -> (r: bool)
    ensures
        r == spec_msg_handled(mode, level, msg@),
{
    match mode {
        LogLevel::Cargo => false,
        LogLevel::Errors => is_error_text(level, msg),
        LogLevel::Verbose => true,
    }
}

} // verus!
