use rustconn_window::session_exit::{
    classify_exit_status, decide_child_exit, exit_failure_message, plan_reconnect_overlay,
    ChildExitPlan, ExitedSession, HistoryRecord, ReconnectOverlayPlan,
};
use rustconn_window::session_log::{
    activity_tick, log_file_name, log_header, log_input, new_output_lines, partial_input_due,
    sanitize_log_name, ActivityCounters, InputLogEntry,
};
use rustconn_window::session_log::{
    activity_log_line, input_log_line, output_log_block, partial_input_line,
};

#[test]
fn classifies_waitpid_statuses() {
    let c = classify_exit_status(0);
    assert!(!c.is_failure);
    let c = classify_exit_status(1 << 8);
    assert_eq!((c.term_sig, c.exit_code, c.is_failure), (0, 1, true));
    let c = classify_exit_status(130 << 8);
    assert!(!c.is_failure);
    let c = classify_exit_status(15);
    assert_eq!((c.term_sig, c.is_failure), (15, false));
    let c = classify_exit_status(11);
    assert_eq!((c.term_sig, c.is_failure), (11, true));
    let c = classify_exit_status(255 << 8);
    assert_eq!((c.exit_code, c.is_failure), (255, true));
    let c = classify_exit_status(-1);
    assert_eq!((c.term_sig, c.exit_code), (127, 255));
}

#[test]
fn failure_message_text() {
    assert_eq!(exit_failure_message(256), "Exit status: 256 (Signal: 0, Code: 1)");
    assert_eq!(exit_failure_message(11), "Exit status: 11 (Signal: 11, Code: 0)");
}

#[test]
fn child_exit_plans() {
    assert_eq!(decide_child_exit(0, false, false, true).plan, ChildExitPlan::TabAlreadyClosed);
    assert_eq!(decide_child_exit(256, true, true, true).plan, ChildExitPlan::ShuttingDown);
    assert_eq!(decide_child_exit(256, true, true, true).record, HistoryRecord::Nothing);
    let d = decide_child_exit(0, true, false, true);
    assert_eq!(d.plan, ChildExitPlan::CloseTab);
    assert_eq!(d.record, HistoryRecord::End);
    let d = decide_child_exit(256, true, false, true);
    assert_eq!(d.plan, ChildExitPlan::ShowReconnect);
    assert_eq!(d.record, HistoryRecord::Failed("Exit status: 256 (Signal: 0, Code: 1)".to_string()));
    assert_eq!(decide_child_exit(0, true, false, false).plan, ChildExitPlan::ShowReconnect);
}

#[test]
fn reconnect_overlay_plans() {
    let s = |p: &str, e: i64| Some(ExitedSession { protocol: p.to_string(), elapsed_secs: e });
    assert_eq!(plan_reconnect_overlay(None, true, 1, Some(true)), ReconnectOverlayPlan::SessionGone);
    assert_eq!(plan_reconnect_overlay(s("ssh", 60), true, 1, Some(true)), ReconnectOverlayPlan::OverlayAndPoll);
    assert_eq!(plan_reconnect_overlay(s("ssh", 60), true, 255, Some(true)), ReconnectOverlayPlan::OverlayOnly);
    assert_eq!(plan_reconnect_overlay(s("telnet", 60), true, 255, Some(true)), ReconnectOverlayPlan::OverlayAndPoll);
    assert_eq!(plan_reconnect_overlay(s("ssh", 3), true, 1, Some(true)), ReconnectOverlayPlan::OverlayOnly);
    assert_eq!(plan_reconnect_overlay(s("ssh", 60), false, 0, Some(true)), ReconnectOverlayPlan::OverlayOnly);
    assert_eq!(plan_reconnect_overlay(s("ssh", 60), true, 1, Some(false)), ReconnectOverlayPlan::OverlayOnly);
    assert_eq!(plan_reconnect_overlay(s("ssh", 60), true, 1, None), ReconnectOverlayPlan::OverlayOnly);
}

#[test]
fn log_names_and_headers() {
    let n: String = sanitize_log_name("my server/prod").into_iter().collect();
    assert_eq!(n, "my_server_prod");
    let long = "x".repeat(80);
    assert_eq!(sanitize_log_name(&long).len(), 64);
    assert_eq!(log_file_name("web-1", "20240101_120000"), "web-1_20240101_120000.log");
    let h = log_header("web", 1, 2, "2024-01-01");
    assert_eq!(
        h,
        "=== Session Log ===\nConnection: web\nConnection ID: 00000000-0000-0000-0000-000000000001\nSession ID: 00000000-0000-0000-0000-000000000002\nStarted: 2024-01-01\n\n"
    );
}

fn cmd(e: &InputLogEntry) -> Option<String> {
    match e {
        InputLogEntry::Command(c) => Some(c.iter().collect()),
        _ => None,
    }
}

#[test]
fn input_logging() {
    let mut buf: Vec<char> = Vec::new();
    let e = log_input(&mut buf, "lss\x7f -la\r");
    assert_eq!(e.len(), 1);
    assert_eq!(cmd(&e[0]).as_deref(), Some("ls -la"));
    assert!(buf.is_empty());
    let e = log_input(&mut buf, "top\x03\x04\x1b");
    assert!(matches!(e[0], InputLogEntry::Interrupt));
    assert!(matches!(e[1], InputLogEntry::EndOfInput));
    assert!(buf.is_empty());
    // input in pieces logs as a whole
    let mut b1: Vec<char> = Vec::new();
    let mut all = log_input(&mut b1, "ech");
    all.extend(log_input(&mut b1, "o hi\n"));
    let mut b2: Vec<char> = Vec::new();
    let whole = log_input(&mut b2, "echo hi\n");
    assert_eq!(all.iter().map(cmd).collect::<Vec<_>>(), whole.iter().map(cmd).collect::<Vec<_>>());
    assert!(partial_input_due(30, &vec!['a']));
    assert!(!partial_input_due(29, &vec!['a']));
    assert!(!partial_input_due(40, &vec![]));
}

#[test]
fn activity_logging() {
    let t = activity_tick(ActivityCounters { changes: 98, since_flush: 3 }, 1, true);
    assert_eq!(t.log_changes, None);
    assert_eq!(t.counters.changes, 99);
    let t = activity_tick(ActivityCounters { changes: 99, since_flush: 9 }, 1, true);
    assert_eq!(t.log_changes, Some(100));
    assert!(t.flush && t.reset_clock);
    assert_eq!(t.counters, ActivityCounters { changes: 0, since_flush: 0 });
    let t = activity_tick(ActivityCounters { changes: 3, since_flush: 2 }, 6, false);
    assert_eq!(t.log_changes, None);
    assert!(t.reset_clock && !t.flush);
    assert_eq!(t.counters.changes, 0);
}

#[test]
fn output_lines() {
    let l = new_output_lines("a\nb\n", "a\nb\nc\r\nd");
    let l: Vec<String> = l.into_iter().map(|v| v.into_iter().collect()).collect();
    assert_eq!(l, vec!["c".to_string(), "d".to_string()]);
    assert!(new_output_lines("a\nb\nc", "a").is_empty());
}

#[test]
fn log_lines_are_stamped() {
    assert_eq!(
        input_log_line("2024-01-02 03:04:05", &InputLogEntry::Command("ls -l".chars().collect())),
        "[2024-01-02 03:04:05] INPUT: ls -l\n"
    );
    assert_eq!(input_log_line("T", &InputLogEntry::Interrupt), "[T] INPUT: ^C\n");
    assert_eq!(input_log_line("T", &InputLogEntry::EndOfInput), "[T] INPUT: ^D\n");
    assert_eq!(partial_input_line("T", &['t', 'o', 'p']), "[T] INPUT (partial): top\n");
    assert_eq!(activity_log_line("T", 100), "[T] Terminal activity (100 changes)\n");
    assert_eq!(
        output_log_block("T", &[vec!['a'], vec!['b', 'c']]),
        "[T] OUTPUT:\n  a\n  bc\n"
    );
    assert_eq!(output_log_block("T", &[]), "[T] OUTPUT:\n");
}
