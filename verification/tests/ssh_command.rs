use rustconn_window::ssh_args::{
    eq_ignore_ascii_case, flag_value, remove_flag, ssh_command_args, user_sets_known_hosts,
    JumpWiring, SshArgInputs,
};
use rustconn_window::ssh_session::{
    allow_target_autofill, autofill_step, bastion_may_prompt_for_password, contains_ssh_failure,
    has_jump_host, ssh_display_command, status_detect_step, AutofillEvent, AutofillState,
};
use rustconn_window::jump::{HostRecord, JumpSettings};

fn strings(v: &[&str]) -> Vec<String> {
    v.iter().map(|s| s.to_string()).collect()
}

fn cv(v: &[&str]) -> Vec<Vec<char>> {
    v.iter().map(|s| s.chars().collect()).collect()
}

fn wiring(askpass: Option<Vec<String>>) -> JumpWiring {
    JumpWiring {
        askpass_prefix: askpass,
        nested_proxy_command: "'ssh -W %h:%p c'".to_string(),
        first_hop_destination: strings(&["-p", "2200", "u@a"]),
        proxy_jump_arg: "c,b,a".to_string(),
    }
}

#[test]
fn remove_flag_drops_flag_and_value() {
    let r = remove_flag(&cv(&["-o", "X", "-i", "/k", "-v"]), &['-', 'i']);
    assert_eq!(r, cv(&["-o", "X", "-v"]));
    let r = remove_flag(&cv(&["-v", "-i"]), &['-', 'i']);
    assert_eq!(r, cv(&["-v"]));
    let r = remove_flag(&cv(&["-v"]), &['-', 'i']);
    assert_eq!(r, cv(&["-v"]));
}

#[test]
fn flag_value_reads_first_value() {
    assert_eq!(flag_value(&cv(&["-i", "/a", "-i", "/b"]), &['-', 'i']), Some("/a".chars().collect()));
    assert_eq!(flag_value(&cv(&["-i"]), &['-', 'i']), None);
}

#[test]
fn known_hosts_option_is_case_insensitive() {
    assert!(eq_ignore_ascii_case(&['a', 'B'], &['A', 'b']));
    assert!(!eq_ignore_ascii_case(&['a'], &['a', 'b']));
    assert!(user_sets_known_hosts(&strings(&["ServerAlive", "userknownhostsfile"])));
    assert!(!user_sets_known_hosts(&strings(&["ServerAlive"])));
}

#[test]
fn ssh_args_without_chain_strip_identity_and_add_known_hosts() {
    let inputs = SshArgInputs {
        base_args: strings(&["-i", "/k", "-C"]),
        identity_file: Some("/k".to_string()),
        custom_option_keys: vec![],
        proxy_jump_set: false,
        flatpak_known_hosts: Some("/kh".to_string()),
    };
    let r = ssh_command_args(&inputs, &[], None, &wiring(None));
    assert_eq!(r.extra_args, strings(&["-C", "-o", "UserKnownHostsFile=/kh"]));
    assert_eq!(r.jump_host_chain, None);
    assert!(!r.askpass_wired);
}

#[test]
fn ssh_args_user_known_hosts_wins_over_flatpak() {
    let inputs = SshArgInputs {
        base_args: strings(&["-C"]),
        identity_file: None,
        custom_option_keys: strings(&["UserKnownHostsFile"]),
        proxy_jump_set: false,
        flatpak_known_hosts: Some("/kh".to_string()),
    };
    let r = ssh_command_args(&inputs, &strings(&["a", "b"]), None, &wiring(None));
    assert_eq!(r.extra_args, strings(&["-C", "-J", "c,b,a"]));
    assert_eq!(r.jump_host_chain.as_deref(), Some("a,b"));
}

#[test]
fn ssh_args_replace_manual_j_with_proxy_command() {
    let inputs = SshArgInputs {
        base_args: strings(&["-J", "manual", "-i", "/k2"]),
        identity_file: None,
        custom_option_keys: vec![],
        proxy_jump_set: true,
        flatpak_known_hosts: Some("/kh".to_string()),
    };
    let r = ssh_command_args(
        &inputs,
        &strings(&["u@a:2200", "b"]),
        Some(" /p11.so "),
        &wiring(Some(strings(&["env", "SSH_ASKPASS=/s"]))),
    );
    assert_eq!(
        r.extra_args,
        strings(&[
            "-i",
            "/k2",
            "-o",
            "UserKnownHostsFile=/kh",
            "-o",
            "ProxyCommand=env SSH_ASKPASS=/s ssh -W %h:%p -i /k2 -o IdentitiesOnly=yes -o PKCS11Provider=/p11.so -o UserKnownHostsFile=/kh -o ProxyCommand='ssh -W %h:%p c' -p 2200 u@a"
        ])
    );
    assert_eq!(r.jump_host_chain.as_deref(), Some("u@a:2200,b"));
    assert!(r.askpass_wired);
}

#[test]
fn resolved_key_reaches_the_first_hop() {
    let inputs = SshArgInputs {
        base_args: strings(&["-i", "/stale", "-C"]),
        identity_file: Some("/resolved".to_string()),
        custom_option_keys: vec![],
        proxy_jump_set: false,
        flatpak_known_hosts: Some("/kh".to_string()),
    };
    let r = ssh_command_args(&inputs, &strings(&["u@a:2200"]), None, &wiring(None));
    assert_eq!(
        r.extra_args,
        strings(&[
            "-C",
            "-o",
            "UserKnownHostsFile=/kh",
            "-o",
            "ProxyCommand=ssh -W %h:%p -i /resolved -o IdentitiesOnly=yes -o UserKnownHostsFile=/kh -p 2200 u@a"
        ])
    );
    assert!(!r.askpass_wired);
}

#[test]
fn display_command_lists_all_parts() {
    let c = ssh_display_command(true, 2222, Some("/k"), &strings(&["-C"]), Some("me"), "host");
    assert_eq!(c, "waypipe ssh -p 2222 -i /k -C me@host");
    let c = ssh_display_command(false, 22, None, &[], None, "host");
    assert_eq!(c, "ssh host");
}

#[test]
fn failure_patterns_match_ignoring_case() {
    assert!(contains_ssh_failure("ssh: CONNECT TO HOST x port 22: Connection refused"));
    assert!(contains_ssh_failure("Permission denied (publickey)."));
    assert!(!contains_ssh_failure("Welcome to Ubuntu"));
}

#[test]
fn status_detection_counts_once() {
    assert_eq!(status_detect_step(false, Some(3), false, None), (true, true));
    assert_eq!(status_detect_step(true, Some(3), false, None), (true, false));
    assert_eq!(status_detect_step(false, Some(2), false, None), (false, false));
    assert_eq!(status_detect_step(false, None, false, None), (false, false));
    assert_eq!(status_detect_step(false, Some(5), true, Some("Connection timed out")), (false, false));
    assert_eq!(status_detect_step(false, Some(5), true, Some("$ ")), (true, true));
}

fn rec(id: u128, has_pw: bool, jump: Option<u128>) -> HostRecord {
    HostRecord {
        id,
        host: "h".to_string(),
        username: None,
        port: 22,
        has_password_source: has_pw,
        ssh: Some(JumpSettings { jump_host_id: jump, proxy_jump: None, pkcs11_provider: None, proxy_command: None }),
    }
}

#[test]
fn bastion_prompt_and_autofill_guard() {
    let store = vec![rec(1, false, None), rec(2, true, None)];
    assert!(!bastion_may_prompt_for_password(&rec(9, true, Some(1)), &store));
    assert!(bastion_may_prompt_for_password(&rec(9, true, Some(2)), &store));
    assert!(bastion_may_prompt_for_password(&rec(9, true, Some(3)), &store));
    assert!(bastion_may_prompt_for_password(&rec(9, true, None), &store));
    let mut other = rec(9, true, None);
    other.ssh = None;
    assert!(!bastion_may_prompt_for_password(&other, &store));
    assert!(allow_target_autofill(false, false, true));
    assert!(allow_target_autofill(true, true, true));
    assert!(allow_target_autofill(true, false, false));
    assert!(!allow_target_autofill(true, false, true));
    assert!(has_jump_host(&rec(1, true, Some(4)).ssh, false));
    assert!(!has_jump_host(&rec(1, true, None).ssh, false));
    assert!(has_jump_host(&None, true));
}

#[test]
fn autofill_sends_once_and_rechecks_once() {
    let mut s = AutofillState { password_sent: false, recheck_scheduled: false };
    let mut sends = 0;
    let mut rechecks = 0;
    let events = [
        AutofillEvent::TerminalChanged { prompt_visible: false },
        AutofillEvent::TerminalChanged { prompt_visible: false },
        AutofillEvent::RecheckDue { prompt_visible: true },
        AutofillEvent::TerminalChanged { prompt_visible: true },
        AutofillEvent::RecheckDue { prompt_visible: true },
    ];
    for e in events {
        let step = autofill_step(s, e);
        if step.send_password {
            sends += 1;
        }
        if step.schedule_recheck {
            rechecks += 1;
        }
        s = step.state;
    }
    assert_eq!(sends, 1);
    assert_eq!(rechecks, 1);
    assert!(s.password_sent);
}

#[test]
fn autofill_sends_on_first_visible_prompt() {
    let s = AutofillState { password_sent: false, recheck_scheduled: false };
    let step = autofill_step(s, AutofillEvent::TerminalChanged { prompt_visible: true });
    assert!(step.send_password);
    assert!(!step.schedule_recheck);
}
