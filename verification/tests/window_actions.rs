use rustconn_window::actions::{
    broadcast_targets, clipboard_clear_due, cluster_sessions, next_tab, parse_undo_target,
    password_copy, prev_tab, remove_by_id, replace_by_id, session_from_row_name, session_row_name,
    stale_dynamic_connections, still_recording, sync_error_hint, undo_param, username_to_copy,
    variables_for_vault, variables_without_secrets, FolderEntry, Keyed, PasswordCopy,
    SessionRecording, SyncErrorHint, UndoKind, VariableRecord,
};
use rustconn_window::actions::{host_poll_timing, jump_host_candidates, session_info_line, session_uses_terminal_icon};

const ID: u128 = 0x550e8400_e29b_41d4_a716_446655440000;

#[test]
fn undo_parameter_round_trip() {
    let p = undo_param(UndoKind::Connection, ID);
    assert_eq!(p, "connection:550e8400-e29b-41d4-a716-446655440000");
    assert_eq!(parse_undo_target(&p), Some((UndoKind::Connection, ID)));
    let p = undo_param(UndoKind::Group, 7);
    assert_eq!(parse_undo_target(&p), Some((UndoKind::Group, 7)));
    assert_eq!(parse_undo_target("snippet:550e8400-e29b-41d4-a716-446655440000"), None);
    assert_eq!(parse_undo_target("connection:not-a-uuid"), None);
    assert_eq!(parse_undo_target("connection:550e8400-e29b-41d4-a716-446655440000:x"), None);
    // the uuid crate also accepts the simple form
    assert_eq!(parse_undo_target("group:550e8400e29b41d4a716446655440000"), Some((UndoKind::Group, ID)));
}

#[test]
fn session_row_round_trip() {
    let n = session_row_name(ID);
    assert_eq!(n, "session-550e8400-e29b-41d4-a716-446655440000");
    assert_eq!(session_from_row_name(&n), Some(ID));
    assert_eq!(session_from_row_name("row-1"), None);
}

#[test]
fn tab_switching_wraps_and_round_trips() {
    assert_eq!(next_tab(2, 3), 0);
    assert_eq!(next_tab(0, 3), 1);
    assert_eq!(prev_tab(0, 3), 2);
    assert_eq!(prev_tab(2, 3), 1);
    for n in 1..6u32 {
        for c in 0..n {
            assert_eq!(prev_tab(next_tab(c, n), n), c);
            assert_eq!(next_tab(prev_tab(c, n), n), c);
        }
    }
}

#[test]
fn copying_credentials() {
    assert_eq!(username_to_copy(Some("cached"), Some("stored")).as_deref(), Some("cached"));
    assert_eq!(username_to_copy(Some(""), Some("stored")).as_deref(), Some("stored"));
    assert_eq!(username_to_copy(None, Some("")), None);
    assert_eq!(username_to_copy(None, None), None);
    assert!(matches!(password_copy(None), PasswordCopy::NotCached));
    assert!(matches!(password_copy(Some("")), PasswordCopy::Empty));
    match password_copy(Some("s3cret")) {
        PasswordCopy::Copy(p) => assert_eq!(p, "s3cret"),
        _ => panic!("expected copy"),
    }
    assert!(clipboard_clear_due(Some("s3cret"), "s3cret"));
    assert!(!clipboard_clear_due(Some("other"), "s3cret"));
    assert!(!clipboard_clear_due(None, "s3cret"));
}

#[test]
fn smart_folder_edits() {
    let mut v = vec![Keyed { id: 1, item: "a" }, Keyed { id: 2, item: "b" }, Keyed { id: 2, item: "c" }];
    replace_by_id(&mut v, Keyed { id: 2, item: "B" });
    assert_eq!(v.iter().map(|k| k.item).collect::<Vec<_>>(), vec!["a", "B", "c"]);
    replace_by_id(&mut v, Keyed { id: 9, item: "z" });
    assert_eq!(v.len(), 3);
    remove_by_id(&mut v, 2);
    assert_eq!(v.iter().map(|k| k.id).collect::<Vec<_>>(), vec![1]);
}

#[test]
fn broadcast_goes_to_the_others() {
    assert_eq!(broadcast_targets(&[1, 2, 3, 2], 2), vec![1, 3]);
    assert_eq!(broadcast_targets(&[5], 5), Vec::<u128>::new());
    assert_eq!(cluster_sessions(&[Some(1), None, Some(3)], true), (vec![1, 3], true));
    assert_eq!(cluster_sessions(&[None], true), (vec![], false));
    assert_eq!(cluster_sessions(&[Some(4)], false), (vec![4], false));
}

fn var(name: &str, value: &str, secret: bool, path: Option<&str>) -> VariableRecord {
    VariableRecord { name: name.into(), value: value.into(), is_secret: secret, kdbx_entry_path: path.map(String::from) }
}

#[test]
fn secret_variables() {
    let vars = vec![
        var("a", "1", false, None),
        var("b", "pw", true, None),
        var("c", "pw", true, Some("KeePass/entry")),
        var("d", "pw", true, Some("  ")),
        var("e", "", true, None),
    ];
    assert_eq!(variables_for_vault(&vars), vec![1, 3]);
    let saved = variables_without_secrets(&vars);
    assert_eq!(saved.iter().map(|v| v.value.as_str()).collect::<Vec<_>>(), vec!["1", "", "", "", ""]);
    assert_eq!(saved[2].kdbx_entry_path.as_deref(), Some("KeePass/entry"));
    assert_eq!(saved[1].name, "b");
}

#[test]
fn sync_errors_dynamic_and_recording() {
    assert_eq!(sync_error_hint("sync dir not configured", true), SyncErrorHint::NotConfiguredInFlatpak);
    assert_eq!(sync_error_hint("sync dir not configured", false), SyncErrorHint::Plain);
    assert_eq!(sync_error_hint("/x not writable", true), SyncErrorHint::NotWritableInFlatpak);
    let entries = [
        FolderEntry { connection_id: 1, is_dynamic: true },
        FolderEntry { connection_id: 2, is_dynamic: false },
        FolderEntry { connection_id: 3, is_dynamic: true },
    ];
    assert_eq!(stale_dynamic_connections(&entries), vec![1, 3]);
    let sessions = [SessionRecording { connection_id: 1, recording: false }, SessionRecording { connection_id: 2, recording: true }];
    assert!(still_recording(true, &sessions, 1));
    assert!(!still_recording(false, &sessions, 1));
    assert!(still_recording(false, &sessions, 2));
}

#[test]
fn sessions_manager_rows_and_polling() {
    assert_eq!(session_info_line(true, None, "local").as_deref(), Some("LOCAL"));
    assert_eq!(session_info_line(false, Some("db1"), "ssh").as_deref(), Some("db1 (SSH)"));
    assert_eq!(session_info_line(false, None, "ssh"), None);
    assert!(session_uses_terminal_icon("local"));
    assert!(!session_uses_terminal_icon("rdp"));
    assert_eq!(host_poll_timing(true), (3, 5, 300));
    assert_eq!(host_poll_timing(false), (3, 5, 120));
    assert_eq!(jump_host_candidates(&[1, 2, 3], 2), vec![1, 3]);
}
