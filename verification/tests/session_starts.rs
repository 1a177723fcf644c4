use rustconn_window::actions::{
    has_variable_reference, substitute_variables, variable_entry_paths, VariableEntry,
};
use rustconn_window::commands::mosh_probe_port;
use rustconn_window::credentials::ProtocolKind;
use rustconn_window::groups::context_group;
use rustconn_window::remote_desktop::{
    rdp_display_plan, vnc_display_plan, ClientMode, DisplayPlan, WindowMode,
};
use rustconn_window::ssh_session::{auto_recording_row, output_trigger_step};

#[test]
fn variable_references_are_detected() {
    assert!(has_variable_reference("${HOST}.example.com"));
    assert!(!has_variable_reference("$HOST"));
    assert!(!has_variable_reference("plain"));
}

#[test]
fn substitution_keeps_plain_text_and_failed_substitution() {
    assert_eq!(substitute_variables("db01", Some("ignored")), "db01");
    assert_eq!(substitute_variables("${HOST}", Some("db01")), "db01");
    assert_eq!(substitute_variables("${HOST}", None), "${HOST}");
}

fn entry(name: &str, kdbx: Option<&str>, vault: Option<&str>) -> VariableEntry {
    VariableEntry {
        name: name.to_string(),
        kdbx_entry_path: kdbx.map(|s| s.to_string()),
        vault_entry_name: vault.map(|s| s.to_string()),
    }
}

#[test]
fn variable_entry_paths_use_the_first_variable_of_the_name() {
    let vars = vec![
        entry("other", Some("x"), None),
        entry("bastion_pw", Some("Servers/bastion"), None),
        entry("bastion_pw", None, Some("later")),
    ];
    assert_eq!(
        variable_entry_paths(&vars, "bastion_pw"),
        (Some("Servers/bastion".to_string()), None)
    );
    assert_eq!(variable_entry_paths(&vars, "missing"), (None, None));
}

#[test]
fn recording_waits_for_the_protocols_row() {
    assert_eq!(auto_recording_row(ProtocolKind::Ssh), Some(2));
    assert_eq!(auto_recording_row(ProtocolKind::Mosh), Some(2));
    assert_eq!(auto_recording_row(ProtocolKind::Telnet), Some(0));
    assert_eq!(auto_recording_row(ProtocolKind::Kubernetes), Some(0));
    assert_eq!(auto_recording_row(ProtocolKind::Serial), None);
}

#[test]
fn output_trigger_fires_once() {
    let rows = [None, Some(1), Some(3), Some(5), Some(9)];
    let mut started = false;
    let mut fired = 0;
    for row in rows {
        let (next, now) = output_trigger_step(started, row, 2);
        started = next;
        if now {
            fired += 1;
        }
    }
    assert!(started);
    assert_eq!(fired, 1);
    assert_eq!(output_trigger_step(false, Some(2), 2), (false, false));
    assert_eq!(output_trigger_step(false, Some(1), 0), (true, true));
}

#[test]
fn vnc_external_window_forces_external_viewer() {
    assert_eq!(
        vnc_display_plan(WindowMode::External, ClientMode::Embedded),
        DisplayPlan { client: ClientMode::External, maximize: false }
    );
    assert_eq!(
        vnc_display_plan(WindowMode::Fullscreen, ClientMode::Embedded),
        DisplayPlan { client: ClientMode::Embedded, maximize: true }
    );
    assert_eq!(
        vnc_display_plan(WindowMode::InTab, ClientMode::External),
        DisplayPlan { client: ClientMode::External, maximize: false }
    );
}

#[test]
fn rdp_maximizes_only_embedded_fullscreen() {
    assert_eq!(
        rdp_display_plan(WindowMode::Fullscreen, ClientMode::Embedded),
        DisplayPlan { client: ClientMode::Embedded, maximize: true }
    );
    assert_eq!(
        rdp_display_plan(WindowMode::Fullscreen, ClientMode::External),
        DisplayPlan { client: ClientMode::External, maximize: false }
    );
    assert_eq!(
        rdp_display_plan(WindowMode::External, ClientMode::Embedded),
        DisplayPlan { client: ClientMode::Embedded, maximize: false }
    );
}

#[test]
fn context_menu_group_choice() {
    assert_eq!(context_group(Some(5), true, Some(9)), Some(5));
    assert_eq!(context_group(Some(5), false, Some(9)), Some(9));
    assert_eq!(context_group(Some(5), false, None), None);
    assert_eq!(context_group(None, true, Some(9)), None);
}

#[test]
fn mosh_probes_the_ssh_port() {
    assert_eq!(mosh_probe_port(None), 22);
    assert_eq!(mosh_probe_port(Some(2222)), 2222);
}
