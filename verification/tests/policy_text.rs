//! Unit tests of the verbosity policy and the text utilities it rests
//! on.

use logone::LogLevel;
use logone::policy::{flush_on_stop, is_error_text, message_printed, msg_handled};
use logone::text::{concat2, concat3, str_eq, str_starts_with, strip_prefix_of, text_contains};

#[test]
fn failure_keywords_are_detected_exactly() {
    assert!(is_error_text(0, "the build failed today"));
    assert!(is_error_text(0, "error: something"));
    assert!(is_error_text(0, "Error while linking"));
    assert!(is_error_text(0, "Build Failed"));
    assert!(is_error_text(0, "FAILED"));
    assert!(is_error_text(0, "cannot open file"));
    assert!(is_error_text(0, "Could not resolve"));
    assert!(!is_error_text(0, "all good"));
    assert!(!is_error_text(2, "still fine"));
    // Severity at or above the threshold counts by itself.
    assert!(is_error_text(3, "anything at all"));
    assert!(is_error_text(7, ""));
    // Keyword matching is case-sensitive per keyword.
    assert!(!is_error_text(0, "ERRORS"));
    assert!(is_error_text(0, "xErrorx"));
}

#[test]
fn flush_decision_by_mode_and_failure() {
    assert!(flush_on_stop(LogLevel::Verbose, false));
    assert!(flush_on_stop(LogLevel::Verbose, true));
    assert!(!flush_on_stop(LogLevel::Errors, false));
    assert!(flush_on_stop(LogLevel::Errors, true));
    assert!(!flush_on_stop(LogLevel::Cargo, false));
    assert!(!flush_on_stop(LogLevel::Cargo, true));
}

#[test]
fn message_severity_window() {
    assert!(!message_printed(0));
    assert!(message_printed(1));
    assert!(message_printed(2));
    assert!(message_printed(3));
    assert!(!message_printed(4));
}

#[test]
fn message_handling_by_mode() {
    assert!(!msg_handled(LogLevel::Cargo, 3, "error"));
    assert!(msg_handled(LogLevel::Errors, 0, "error in unit"));
    assert!(!msg_handled(LogLevel::Errors, 0, "benign"));
    assert!(msg_handled(LogLevel::Verbose, 0, "benign"));
}

#[test]
fn substring_search() {
    assert!(text_contains("hello world", "lo wo"));
    assert!(text_contains("abc", ""));
    assert!(text_contains("abc", "abc"));
    assert!(!text_contains("abc", "abcd"));
    assert!(!text_contains("abab", "bb"));
    assert!(text_contains("aaab", "aab"));
}

#[test]
fn prefix_handling() {
    assert!(str_starts_with("@nix {}", "@nix "));
    assert!(!str_starts_with("@ni", "@nix "));
    assert_eq!(strip_prefix_of("@nix payload", "@nix "), Some("payload"));
    assert_eq!(strip_prefix_of("other", "@nix "), None);
    assert_eq!(strip_prefix_of("@cargo", "@cargo "), None);
}

#[test]
fn string_equality_and_concatenation() {
    assert!(str_eq("same", "same"));
    assert!(!str_eq("same", "samf"));
    assert!(!str_eq("same", "sam"));
    assert_eq!(concat2("Phase: ", "build"), "Phase: build");
    assert_eq!(
        concat3("building '/nix/store/", "tok", ".drv'"),
        "building '/nix/store/tok.drv'"
    );
}
