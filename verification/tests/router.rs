//! End-to-end scenarios through the decoder and router, with the real
//! JSON and pattern crates linked.

use logone::{LogError, LogLevel, LogOne, RenderAction};
use logone::parse::parse_nix_line;

fn transcript_names(actions: &[RenderAction]) -> Vec<String> {
    let mut names = Vec::new();
    for a in actions {
        if let RenderAction::Transcript { name, .. } = a {
            names.push(name.clone());
        }
    }
    names
}

fn transcript_lines(actions: &[RenderAction]) -> Vec<Vec<String>> {
    let mut all = Vec::new();
    for a in actions {
        if let RenderAction::Transcript { lines, .. } = a {
            all.push(lines.iter().map(|m| m.content.clone()).collect());
        }
    }
    all
}

fn progress_entries(actions: &[RenderAction]) -> Vec<(u64, u64, u64, u64, Vec<(String, u64)>)> {
    let mut all = Vec::new();
    for a in actions {
        if let RenderAction::Progress { done, expected, running, failed, targets } = a {
            all.push((*done, *expected, *running, *failed, targets.clone()));
        }
    }
    all
}

#[test]
fn verbose_transcript_in_order_and_flushed_once() {
    let mut l = LogOne::new(false, LogLevel::Verbose);
    parse_nix_line(
        r#"@nix {"action":"start","id":2,"type":105,"text":"building '/nix/store/unit-A.drv'"}"#,
        &mut l,
    )
    .unwrap();
    parse_nix_line(r#"@nix {"action":"result","id":2,"type":101,"fields":["line one"]}"#, &mut l)
        .unwrap();
    parse_nix_line(r#"@nix {"action":"result","id":2,"type":101,"fields":["line two"]}"#, &mut l)
        .unwrap();
    let out = parse_nix_line(r#"@nix {"action":"stop","id":2}"#, &mut l).unwrap();
    assert_eq!(transcript_names(&out), vec!["building '/nix/store/unit-A.drv'".to_string()]);
    assert_eq!(
        transcript_lines(&out),
        vec![vec!["line one".to_string(), "line two".to_string()]]
    );
    // A second stop for the same id is a no-op.
    let again = parse_nix_line(r#"@nix {"action":"stop","id":2}"#, &mut l).unwrap();
    assert!(again.is_empty());
}

#[test]
fn verbose_phase_markers_are_buffered() {
    let mut l = LogOne::new(false, LogLevel::Verbose);
    parse_nix_line(r#"@nix {"action":"start","id":3,"type":105,"text":"u"}"#, &mut l).unwrap();
    parse_nix_line(r#"@nix {"action":"result","id":3,"type":104,"fields":["buildPhase"]}"#, &mut l)
        .unwrap();
    parse_nix_line(r#"@nix {"action":"result","id":3,"type":104,"fields":[]}"#, &mut l).unwrap();
    let out = parse_nix_line(r#"@nix {"action":"stop","id":3}"#, &mut l).unwrap();
    assert_eq!(
        transcript_lines(&out),
        vec![vec!["Phase: buildPhase".to_string(), "Phase: unknown".to_string()]]
    );
}

#[test]
fn errors_mode_unfailed_unit_is_silent() {
    let mut l = LogOne::new(false, LogLevel::Errors);
    parse_nix_line(
        r#"@nix {"action":"start","id":5,"type":105,"text":"building '/nix/store/quiet.drv'"}"#,
        &mut l,
    )
    .unwrap();
    parse_nix_line(r#"@nix {"action":"result","id":5,"type":101,"fields":["noise"]}"#, &mut l)
        .unwrap();
    let out = parse_nix_line(r#"@nix {"action":"stop","id":5}"#, &mut l).unwrap();
    assert!(out.is_empty());
    // The buffer was discarded unread: nothing holds it any more, and
    // a later error message naming the unit cannot print it.
    assert!(!logone::logs::has_log_buffer(5, &l));
    let late = parse_nix_line(
        r#"@nix {"action":"msg","level":0,"msg":"error in '/nix/store/quiet.drv' later"}"#,
        &mut l,
    )
    .unwrap();
    assert!(transcript_names(&late).is_empty());
}

#[test]
fn errors_mode_stop_payload_failure_flushes_transcript() {
    let mut l = LogOne::new(false, LogLevel::Errors);
    parse_nix_line(r#"@nix {"action":"start","id":5,"type":105,"text":"bad"}"#, &mut l).unwrap();
    parse_nix_line(r#"@nix {"action":"result","id":5,"type":101,"fields":["boom"]}"#, &mut l)
        .unwrap();
    let out = parse_nix_line(r#"@nix {"action":"stop","id":5,"exitCode":1}"#, &mut l).unwrap();
    assert_eq!(transcript_names(&out), vec!["bad".to_string()]);
    assert_eq!(transcript_lines(&out), vec![vec!["boom".to_string()]]);
}

#[test]
fn attribution_marks_exactly_the_named_unit() {
    let mut l = LogOne::new(false, LogLevel::Errors);
    parse_nix_line(
        r#"@nix {"action":"start","id":1,"type":105,"text":"building '/nix/store/unit-A.drv'"}"#,
        &mut l,
    )
    .unwrap();
    parse_nix_line(
        r#"@nix {"action":"start","id":2,"type":105,"text":"building '/nix/store/unit-B.drv'"}"#,
        &mut l,
    )
    .unwrap();
    parse_nix_line(r#"@nix {"action":"result","id":1,"type":101,"fields":["a-log"]}"#, &mut l)
        .unwrap();
    // The failing message names unit A; its transcript comes out at the
    // message, and only unit A was marked failed.
    let out = parse_nix_line(
        r#"@nix {"action":"msg","level":0,"msg":"error: builder for '/nix/store/unit-A.drv' failed"}"#,
        &mut l,
    )
    .unwrap();
    assert_eq!(transcript_names(&out), vec!["building '/nix/store/unit-A.drv'".to_string()]);
    // Unit B never failed: its stop is silent.
    let out_b = parse_nix_line(r#"@nix {"action":"stop","id":2}"#, &mut l).unwrap();
    assert!(out_b.is_empty());
    // Unit A's buffer is already gone: its stop adds nothing.
    let out_a = parse_nix_line(r#"@nix {"action":"stop","id":1}"#, &mut l).unwrap();
    assert!(out_a.is_empty());
}

#[test]
fn stats_update_from_unregistered_stream_is_rejected() {
    let mut l = LogOne::new(false, LogLevel::Errors);
    let r = parse_nix_line(
        r#"@nix {"action":"result","id":9,"type":105,"fields":[5,10,2,0]}"#,
        &mut l,
    );
    assert_eq!(r.unwrap_err(), LogError::UnknownStream);
    // After registration the same update goes through and renders.
    parse_nix_line(r#"@nix {"action":"start","id":9,"type":104}"#, &mut l).unwrap();
    let out = parse_nix_line(
        r#"@nix {"action":"result","id":9,"type":105,"fields":[5,10,2,0]}"#,
        &mut l,
    )
    .unwrap();
    assert_eq!(progress_entries(&out), vec![(5, 10, 2, 0, Vec::new())]);
}

#[test]
fn identical_stats_update_renders_at_most_once() {
    let mut l = LogOne::new(false, LogLevel::Errors);
    parse_nix_line(r#"@nix {"action":"start","id":9,"type":104}"#, &mut l).unwrap();
    let first = parse_nix_line(
        r#"@nix {"action":"result","id":9,"type":105,"fields":[5,10,2,0]}"#,
        &mut l,
    )
    .unwrap();
    assert_eq!(progress_entries(&first).len(), 1);
    let second = parse_nix_line(
        r#"@nix {"action":"result","id":9,"type":105,"fields":[5,10,2,0]}"#,
        &mut l,
    )
    .unwrap();
    assert!(second.is_empty());
    // A stop keeps the snapshot and suppresses the unchanged redraw.
    let at_stop = parse_nix_line(r#"@nix {"action":"stop","id":9}"#, &mut l).unwrap();
    assert!(at_stop.is_empty());
}

#[test]
fn stats_update_with_wrong_field_count_is_malformed() {
    let mut l = LogOne::new(false, LogLevel::Errors);
    parse_nix_line(r#"@nix {"action":"start","id":9,"type":104}"#, &mut l).unwrap();
    let r = parse_nix_line(r#"@nix {"action":"result","id":9,"type":105,"fields":[5,10]}"#, &mut l);
    assert_eq!(r.unwrap_err(), LogError::MalformedEvent);
    let r2 = parse_nix_line(r#"@nix {"action":"result","id":9,"type":105}"#, &mut l);
    assert_eq!(r2.unwrap_err(), LogError::MalformedEvent);
}

#[test]
fn end_to_end_errors_mode_scenario() {
    let mut l = LogOne::new(false, LogLevel::Errors);
    // Compiler-family start is invisible outside compiler-only mode.
    let c = parse_nix_line(
        r#"@nix {"action":"result","id":1,"type":101,"fields":["@cargo {\"type\":0,\"crate_name\":\"foo\"}"]}"#,
        &mut l,
    )
    .unwrap();
    assert!(c.is_empty());
    parse_nix_line(
        r#"@nix {"action":"start","id":2,"type":105,"text":"building '/nix/store/unit-A.drv'"}"#,
        &mut l,
    )
    .unwrap();
    parse_nix_line(r#"@nix {"action":"result","id":2,"type":101,"fields":["compile error"]}"#, &mut l)
        .unwrap();
    // The failing message flushes unit A's transcript.
    let at_msg = parse_nix_line(
        r#"@nix {"action":"msg","level":0,"msg":"error: build of '/nix/store/unit-A.drv' failed"}"#,
        &mut l,
    )
    .unwrap();
    assert_eq!(transcript_names(&at_msg), vec!["building '/nix/store/unit-A.drv'".to_string()]);
    assert_eq!(transcript_lines(&at_msg), vec![vec!["compile error".to_string()]]);
    // The stop finds the buffer already flushed: nothing more.
    let at_stop = parse_nix_line(r#"@nix {"action":"stop","id":2}"#, &mut l).unwrap();
    assert!(at_stop.is_empty());
    // The compiler exit is invisible too, and "foo" never reached the
    // active-target display.
    let at_exit = parse_nix_line(
        r#"@nix {"action":"result","id":1,"type":101,"fields":["@cargo {\"type\":2,\"crate_name\":\"foo\",\"rustc_exit_code\":0}"]}"#,
        &mut l,
    )
    .unwrap();
    assert!(at_exit.is_empty());
    parse_nix_line(r#"@nix {"action":"start","id":9,"type":104}"#, &mut l).unwrap();
    let out = parse_nix_line(
        r#"@nix {"action":"result","id":9,"type":105,"fields":[1,1,0,0]}"#,
        &mut l,
    )
    .unwrap();
    assert_eq!(progress_entries(&out), vec![(1, 1, 0, 0, Vec::new())]);
}

#[test]
fn cargo_mode_tracks_compile_targets() {
    let mut l = LogOne::new(false, LogLevel::Cargo);
    // Builder-family unit logs are invisible in compiler-only mode.
    parse_nix_line(r#"@nix {"action":"start","id":2,"type":105,"text":"u"}"#, &mut l).unwrap();
    assert!(!logone::logs::has_log_buffer(2, &l));
    // An embedded compiler start announces the crate and adds a target.
    let started = parse_nix_line(
        r#"@nix {"action":"result","id":7,"type":101,"fields":["@cargo {\"type\":0,\"crate_name\":\"foo\"}"]}"#,
        &mut l,
    )
    .unwrap();
    assert_eq!(
        started,
        vec![RenderAction::Message {
            level: 0,
            text: "   Compiling foo".to_string(),
            file: None
        }]
    );
    parse_nix_line(r#"@nix {"action":"start","id":9,"type":104}"#, &mut l).unwrap();
    let with_target = parse_nix_line(
        r#"@nix {"action":"result","id":9,"type":105,"fields":[0,1,1,0]}"#,
        &mut l,
    )
    .unwrap();
    assert_eq!(
        progress_entries(&with_target),
        vec![(0, 1, 1, 0, vec![("foo".to_string(), 1)])]
    );
    // The exit prints the rendered diagnostics and removes the target.
    let exited = parse_nix_line(
        r#"@nix {"action":"result","id":7,"type":101,"fields":["@cargo {\"type\":2,\"crate_name\":\"foo\",\"rustc_exit_code\":0,\"rustc_messages\":[{\"rendered\":\"warning: unused\"}]}"]}"#,
        &mut l,
    )
    .unwrap();
    assert_eq!(
        exited,
        vec![RenderAction::Message {
            level: 0,
            text: "warning: unused".to_string(),
            file: None
        }]
    );
    let after = parse_nix_line(
        r#"@nix {"action":"result","id":9,"type":105,"fields":[1,1,0,0]}"#,
        &mut l,
    )
    .unwrap();
    assert_eq!(progress_entries(&after), vec![(1, 1, 0, 0, Vec::new())]);
}

#[test]
fn cargo_messages_are_dropped_outside_cargo_mode() {
    let mut l = LogOne::new(false, LogLevel::Verbose);
    let r = parse_nix_line(
        r#"@nix {"action":"result","id":7,"type":101,"fields":["@cargo {\"type\":0,\"crate_name\":\"foo\"}"]}"#,
        &mut l,
    )
    .unwrap();
    assert!(r.is_empty());
}

#[test]
fn verbose_messages_in_printable_range_are_shown() {
    let mut l = LogOne::new(false, LogLevel::Verbose);
    let shown = parse_nix_line(
        r#"@nix {"action":"msg","level":2,"msg":"plain notice","file":"some.nix"}"#,
        &mut l,
    )
    .unwrap();
    assert_eq!(
        shown,
        vec![RenderAction::Message {
            level: 2,
            text: "plain notice".to_string(),
            file: Some("some.nix".to_string())
        }]
    );
    // Severity outside the warn-to-info range is not printed.
    let hidden = parse_nix_line(r#"@nix {"action":"msg","level":0,"msg":"quiet"}"#, &mut l)
        .unwrap();
    assert!(hidden.is_empty());
    // In errors-only mode a benign message is not handled at all.
    let mut e = LogOne::new(false, LogLevel::Errors);
    let skipped = parse_nix_line(r#"@nix {"action":"msg","level":2,"msg":"all fine"}"#, &mut e)
        .unwrap();
    assert!(skipped.is_empty());
}

#[test]
fn malformed_lines_are_rejected_and_inert_lines_ignored() {
    let mut l = LogOne::new(false, LogLevel::Verbose);
    assert!(parse_nix_line("plain build output", &mut l).unwrap().is_empty());
    assert_eq!(
        parse_nix_line("@nix not json at all", &mut l).unwrap_err(),
        LogError::MalformedEvent
    );
    assert_eq!(parse_nix_line("@nix [1,2,3]", &mut l).unwrap_err(), LogError::MalformedEvent);
    assert_eq!(parse_nix_line(r#"@nix {"foo":1}"#, &mut l).unwrap_err(), LogError::MalformedEvent);
    // An unrecognized action is silently dropped.
    assert!(parse_nix_line(r#"@nix {"action":"wibble","id":4}"#, &mut l).unwrap().is_empty());
}

#[test]
fn color_escapes_are_stripped_before_parsing() {
    let mut l = LogOne::new(false, LogLevel::Verbose);
    let line = "@nix \u{1b}[32m{\"action\":\"start\",\"id\":9,\"type\":104}\u{1b}[0m";
    assert!(parse_nix_line(line, &mut l).unwrap().is_empty());
    // The registration took effect, so an update now renders.
    let out = parse_nix_line(
        r#"@nix {"action":"result","id":9,"type":105,"fields":[1,2,1,0]}"#,
        &mut l,
    )
    .unwrap();
    assert_eq!(progress_entries(&out).len(), 1);
}

#[test]
fn verbose_shutdown_force_flushes_outstanding_units() {
    let mut l = LogOne::new(false, LogLevel::Verbose);
    parse_nix_line(r#"@nix {"action":"start","id":1,"type":105,"text":"left-open"}"#, &mut l)
        .unwrap();
    parse_nix_line(r#"@nix {"action":"result","id":1,"type":101,"fields":["tail"]}"#, &mut l)
        .unwrap();
    let out = l.shutdown();
    assert_eq!(transcript_names(&out), vec!["left-open".to_string()]);
    assert_eq!(transcript_lines(&out), vec![vec!["tail".to_string()]]);
    // Shutdown happens once.
    assert!(l.shutdown().is_empty());
}

#[test]
fn errors_shutdown_discards_outstanding_units() {
    let mut l = LogOne::new(false, LogLevel::Errors);
    parse_nix_line(r#"@nix {"action":"start","id":1,"type":105,"text":"left-open"}"#, &mut l)
        .unwrap();
    assert!(l.shutdown().is_empty());
}

#[test]
fn non_numeric_stats_fields_default_to_zero() {
    let mut l = LogOne::new(false, LogLevel::Errors);
    parse_nix_line(r#"@nix {"action":"start","id":9,"type":104}"#, &mut l).unwrap();
    let out = parse_nix_line(
        r#"@nix {"action":"result","id":9,"type":105,"fields":["oops",10,2,0]}"#,
        &mut l,
    )
    .unwrap();
    assert_eq!(progress_entries(&out), vec![(0, 10, 2, 0, Vec::new())]);
}

#[test]
fn almost_cargo_marker_is_inert() {
    let mut l = LogOne::new(false, LogLevel::Cargo);
    // The embedded line carries the compiler marker without its
    // trailing space: recognized as compiler chatter, but inert.
    let out = parse_nix_line(
        r#"@nix {"action":"result","id":7,"type":101,"fields":["@cargonono"]}"#,
        &mut l,
    )
    .unwrap();
    assert!(out.is_empty());
}

#[test]
fn verbose_message_naming_a_unit_flushes_its_transcript() {
    let mut l = LogOne::new(false, LogLevel::Verbose);
    parse_nix_line(
        r#"@nix {"action":"start","id":4,"type":105,"text":"building '/nix/store/noisy.drv'"}"#,
        &mut l,
    )
    .unwrap();
    parse_nix_line(r#"@nix {"action":"result","id":4,"type":101,"fields":["tick"]}"#, &mut l)
        .unwrap();
    let out = parse_nix_line(
        r#"@nix {"action":"msg","level":1,"msg":"note about '/nix/store/noisy.drv' here"}"#,
        &mut l,
    )
    .unwrap();
    assert_eq!(transcript_names(&out), vec!["building '/nix/store/noisy.drv'".to_string()]);
    // The message itself is in the printable range and follows the
    // transcript.
    match out.last().unwrap() {
        RenderAction::Message { level, text, .. } => {
            assert_eq!(*level, 1);
            assert_eq!(text, "note about '/nix/store/noisy.drv' here");
        },
        other => panic!("expected a message, got {:?}", other),
    }
}

#[test]
fn stop_for_unknown_id_is_silently_dropped() {
    let mut l = LogOne::new(false, LogLevel::Verbose);
    assert!(parse_nix_line(r#"@nix {"action":"stop","id":77}"#, &mut l).unwrap().is_empty());
    assert!(parse_nix_line(r#"@nix {"action":"stop"}"#, &mut l).unwrap().is_empty());
}

#[test]
fn verbose_shutdown_flushes_units_whose_name_was_overwritten() {
    let mut l = LogOne::new(false, LogLevel::Verbose);
    // Two units claim the same name: the second start re-points it,
    // leaving the first unit nameless. Shutdown must still flush both.
    parse_nix_line(r#"@nix {"action":"start","id":1,"type":105,"text":"shared"}"#, &mut l)
        .unwrap();
    parse_nix_line(r#"@nix {"action":"result","id":1,"type":101,"fields":["from one"]}"#, &mut l)
        .unwrap();
    parse_nix_line(r#"@nix {"action":"start","id":2,"type":105,"text":"shared"}"#, &mut l)
        .unwrap();
    parse_nix_line(r#"@nix {"action":"result","id":2,"type":101,"fields":["from two"]}"#, &mut l)
        .unwrap();
    let out = l.shutdown();
    let mut names = transcript_names(&out);
    names.sort();
    assert_eq!(names, vec!["shared".to_string(), "unknown unit".to_string()]);
    let mut lines = transcript_lines(&out);
    lines.sort();
    assert_eq!(lines, vec![vec!["from one".to_string()], vec!["from two".to_string()]]);
    assert!(!logone::logs::has_log_buffer(1, &l));
    assert!(!logone::logs::has_log_buffer(2, &l));
}

#[test]
fn progress_targets_come_out_in_ascending_name_order() {
    let mut l = LogOne::new(false, LogLevel::Cargo);
    for (id, name) in [(1, "zeta"), (2, "alpha"), (3, "midway")] {
        let line = format!(
            "@nix {{\"action\":\"result\",\"id\":{},\"type\":101,\"fields\":[\"@cargo {{\\\"type\\\":0,\\\"crate_name\\\":\\\"{}\\\"}}\"]}}",
            id, name
        );
        parse_nix_line(&line, &mut l).unwrap();
    }
    parse_nix_line(r#"@nix {"action":"start","id":9,"type":104}"#, &mut l).unwrap();
    let out = parse_nix_line(
        r#"@nix {"action":"result","id":9,"type":105,"fields":[0,3,3,0]}"#,
        &mut l,
    )
    .unwrap();
    assert_eq!(
        progress_entries(&out),
        vec![(0, 3, 3, 0, vec![
            ("alpha".to_string(), 1),
            ("midway".to_string(), 1),
            ("zeta".to_string(), 1),
        ])]
    );
}
