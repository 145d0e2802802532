//! Direct tests of the owning context and its verified containers.

use logone::{LogLevel, LogOne, NixMessage, RenderAction};
use logone::kv::{IdMap, IdSet, NameMap, TargetList, snapshots_equal};

fn msg(content: &str) -> NixMessage {
    NixMessage {
        action: "result".to_string(),
        message_type: Some(101),
        content: content.to_string(),
        level: None,
        file: None,
    }
}

#[test]
fn construction_records_mode_and_color() {
    let l = LogOne::new(true, LogLevel::Errors);
    assert_eq!(l.level(), LogLevel::Errors);
    assert!(l.is_colored());
    let p = LogOne::new(false, LogLevel::Cargo);
    assert_eq!(p.level(), LogLevel::Cargo);
    assert!(!p.is_colored());
}

#[test]
fn flushing_an_id_with_no_buffer_returns_no_transcript() {
    let mut l = LogOne::new(false, LogLevel::Verbose);
    assert!(l.print_log_buffer_by_id(42).is_empty());
    assert!(l.print_log_buffer_by_drv("nowhere".to_string()).is_empty());
}

#[test]
fn flush_happens_exactly_once_per_lifecycle() {
    let mut l = LogOne::new(false, LogLevel::Verbose);
    l.log_start(7, "unit".to_string());
    l.append_line(7, msg("only line"));
    let first = l.print_log_buffer_by_id(7);
    assert_eq!(first.len(), 1);
    match &first[0] {
        RenderAction::Transcript { name, lines } => {
            assert_eq!(name, "unit");
            assert_eq!(lines.len(), 1);
            assert_eq!(lines[0].content, "only line");
        },
        other => panic!("expected a transcript, got {:?}", other),
    }
    // The buffer moved out: a second flush finds nothing.
    assert!(l.print_log_buffer_by_id(7).is_empty());
    assert!(l.print_log_buffer_by_drv("unit".to_string()).is_empty());
}

#[test]
fn appending_to_a_missing_buffer_is_ignored() {
    let mut l = LogOne::new(false, LogLevel::Verbose);
    l.append_line(3, msg("dropped"));
    assert!(!logone::logs::has_log_buffer(3, &l));
    assert!(logone::logs::query_logs_by_id(3, &l).is_none());
}

#[test]
fn query_returns_buffered_lines_without_consuming_them() {
    let mut l = LogOne::new(false, LogLevel::Verbose);
    l.log_start(3, "q".to_string());
    l.append_line(3, msg("a"));
    l.append_line(3, msg("b"));
    let seen = logone::logs::query_logs_by_id(3, &l).unwrap();
    assert_eq!(seen.iter().map(|m| m.content.clone()).collect::<Vec<_>>(), vec!["a", "b"]);
    // Still there afterwards.
    assert!(logone::logs::has_log_buffer(3, &l));
}

#[test]
fn recycled_id_overwrites_stale_state() {
    let mut l = LogOne::new(false, LogLevel::Verbose);
    l.log_start(1, "first-life".to_string());
    l.append_line(1, msg("old"));
    l.log_start(1, "second-life".to_string());
    l.append_line(1, msg("new"));
    let out = l.print_log_buffer_by_id(1);
    match &out[0] {
        RenderAction::Transcript { name, lines } => {
            assert_eq!(name, "first-life");
            assert_eq!(lines.len(), 1);
            assert_eq!(lines[0].content, "new");
        },
        other => panic!("expected a transcript, got {:?}", other),
    }
}

#[test]
fn update_stats_renders_on_change_and_on_target_change() {
    let mut l = LogOne::new(true, LogLevel::Cargo);
    assert_eq!(l.update_stats(1, 2, 1, 0).len(), 1);
    assert!(l.update_stats(1, 2, 1, 0).is_empty());
    l.target_add("alpha".to_string());
    // Same counters, different target list: must redraw.
    assert_eq!(l.update_stats(1, 2, 1, 0).len(), 1);
    l.target_remove("alpha".to_string());
    assert_eq!(l.update_stats(1, 2, 1, 0).len(), 1);
    assert!(l.update_stats(1, 2, 1, 0).is_empty());
}

#[test]
fn target_counts_are_reference_counted() {
    let mut l = LogOne::new(false, LogLevel::Cargo);
    l.target_add("dup".to_string());
    l.target_add("dup".to_string());
    let once = l.update_stats(0, 0, 0, 0);
    match &once[0] {
        RenderAction::Progress { targets, .. } => {
            assert_eq!(targets, &vec![("dup".to_string(), 2)]);
        },
        other => panic!("expected progress, got {:?}", other),
    }
    l.target_remove("dup".to_string());
    let still = l.update_stats(0, 0, 0, 0);
    match &still[0] {
        RenderAction::Progress { targets, .. } => {
            assert_eq!(targets, &vec![("dup".to_string(), 1)]);
        },
        other => panic!("expected progress, got {:?}", other),
    }
    l.target_remove("dup".to_string());
    let gone = l.update_stats(0, 0, 0, 0);
    match &gone[0] {
        RenderAction::Progress { targets, .. } => assert!(targets.is_empty()),
        other => panic!("expected progress, got {:?}", other),
    }
    // Removing an unknown target is a no-op, and nothing changed, so
    // nothing is redrawn.
    l.target_remove("dup".to_string());
    assert!(l.update_stats(0, 0, 0, 0).is_empty());
}

#[test]
fn id_map_overwrites_and_removes() {
    let mut m: IdMap<u64> = IdMap::new();
    assert!(!m.contains_key(1));
    m.insert(1, 10);
    m.insert(2, 20);
    m.insert(1, 11);
    assert_eq!(m.get(1), Some(&11));
    assert_eq!(m.get(2), Some(&20));
    assert_eq!(m.keys(), vec![1, 2]);
    assert_eq!(m.remove(1), Some(11));
    assert_eq!(m.remove(1), None);
    assert!(!m.contains_key(1));
    assert!(m.contains_key(2));
}

#[test]
fn id_set_membership() {
    let mut s = IdSet::new();
    s.insert(4);
    s.insert(4);
    assert!(s.contains(4));
    s.remove(4);
    assert!(!s.contains(4));
    s.remove(4);
    assert!(!s.contains(4));
}

#[test]
fn name_map_resolves_both_ways() {
    let mut nm = NameMap::new();
    nm.insert("alpha".to_string(), 1);
    nm.insert("beta".to_string(), 2);
    nm.insert("alpha".to_string(), 3);
    assert_eq!(nm.get("alpha"), Some(3));
    assert_eq!(nm.get("beta"), Some(2));
    assert_eq!(nm.get("gamma"), None);
    assert_eq!(nm.first_name_for(2), Some("beta".to_string()));
    assert_eq!(nm.first_name_for(1), None);
}

#[test]
fn target_list_snapshots_compare_structurally() {
    let mut t = TargetList::new();
    t.add("a".to_string());
    t.add("b".to_string());
    t.add("a".to_string());
    let s1 = t.snapshot();
    assert_eq!(s1, vec![("a".to_string(), 2), ("b".to_string(), 1)]);
    let s2 = t.snapshot();
    assert!(snapshots_equal(&s1, &s2));
    t.remove("a");
    let s3 = t.snapshot();
    assert!(!snapshots_equal(&s1, &s3));
    assert_eq!(s3, vec![("a".to_string(), 1), ("b".to_string(), 1)]);
}
