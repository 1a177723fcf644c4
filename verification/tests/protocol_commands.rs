use rustconn_window::commands::{
    activity_notice, command_line, embedded_endpoint, embedded_reaction, escape_single_quotes,
    flatpak_generic_spawn_command, flatpak_local_shell_command, host_resize_command,
    host_shell_choice, kubernetes_target, local_shell_argv, mc_password_warning, mc_path_env,
    mc_tab_name, provider_key, session_feedback, sftp_uses_mc, telnet_display_command,
    text_to_send, tunnel_restart_due, tunnel_starts, zero_trust_tab_protocol,
    ActivityKind, EmbeddedReaction, EmbeddedState, TunnelConnection, TunnelRecord, ZeroTrustProvider,
};

fn strings(v: &[&str]) -> Vec<String> {
    v.iter().map(|s| s.to_string()).collect()
}

#[test]
fn telnet_and_generic_commands() {
    assert_eq!(telnet_display_command(&strings(&["-8"]), "h", 23), "telnet -8 h 23");
    assert_eq!(telnet_display_command(&[], "h", 2323), "telnet h 2323");
    assert_eq!(command_line("aws", &strings(&["ssm", "start-session"])), "aws ssm start-session");
    assert_eq!(command_line("tsh", &[]), "tsh");
}

#[test]
fn zero_trust_keys() {
    assert_eq!(provider_key(ZeroTrustProvider::AzureSsh), "azure_ssh");
    assert_eq!(provider_key(ZeroTrustProvider::HoopDev), "hoop");
    assert_eq!(zero_trust_tab_protocol(ZeroTrustProvider::GcpIap), "zerotrust:gcloud");
}

#[test]
fn quoting_for_flatpak() {
    assert_eq!(escape_single_quotes("it's"), "it'\\''s");
    assert_eq!(
        flatpak_generic_spawn_command("sh -c echo 'hi'"),
        "flatpak-spawn --host --env=TERM=xterm-256color -- script -qfc 'echo '\\''hi'\\''' /dev/null"
    );
    assert_eq!(
        flatpak_generic_spawn_command("ssh host"),
        "flatpak-spawn --host --env=TERM=xterm-256color -- script -qfc 'ssh host' /dev/null"
    );
    assert_eq!(
        flatpak_local_shell_command("/bin/zsh", ""),
        "flatpak-spawn --host --env=TERM=xterm-256color -- script -qfc '/bin/zsh --login' /dev/null"
    );
    assert_eq!(
        flatpak_local_shell_command("/bin/zsh", "htop"),
        "flatpak-spawn --host --env=TERM=xterm-256color -- script -qfc '/bin/zsh -c '\"'\"'htop'\"'\"'' /dev/null"
    );
    assert_eq!(local_shell_argv("/bin/bash", ""), strings(&["/bin/bash"]));
    assert_eq!(local_shell_argv("/bin/bash", "top"), strings(&["/bin/bash", "-c", "top"]));
    assert_eq!(host_shell_choice(true, " /bin/fish\n"), "/bin/fish");
    assert_eq!(host_shell_choice(true, "  "), "/bin/bash");
    assert_eq!(host_shell_choice(false, "/bin/fish"), "/bin/bash");
    assert_eq!(host_resize_command(24, 80), "flatpak-spawn --host -- stty rows 24 cols 80");
}

#[test]
fn small_texts() {
    assert_eq!(kubernetes_target(true, "busybox:1.36", Some("pod")), "busybox (busybox:1.36)");
    assert_eq!(kubernetes_target(false, "x", Some("web-0")), "web-0");
    assert_eq!(kubernetes_target(false, "x", None), "");
    assert_eq!(session_feedback("Connecting", "$ ssh h"), "Connecting\r\n$ ssh h\r\n\r\n");
    assert_eq!(text_to_send("ls", true).as_deref(), Some("ls\n"));
    assert_eq!(text_to_send("ls", false).as_deref(), Some("ls"));
    assert_eq!(text_to_send("", true), None);
    assert_eq!(mc_tab_name("web"), "mc: web");
    assert_eq!(mc_path_env("/w", "/usr/bin"), "PATH=/w:/usr/bin");
    assert!(sftp_uses_mc(false, true));
    assert!(!sftp_uses_mc(false, false));
    assert!(mc_password_warning(true, false));
    assert!(!mc_password_warning(true, true));
}

#[test]
fn embedded_sessions() {
    assert_eq!(embedded_reaction(EmbeddedState::Connected, false), EmbeddedReaction::MarkConnected);
    assert_eq!(embedded_reaction(EmbeddedState::Disconnected, true), EmbeddedReaction::MarkDisconnected { failed: false });
    assert_eq!(embedded_reaction(EmbeddedState::Error, true), EmbeddedReaction::MarkDisconnected { failed: true });
    assert_eq!(embedded_reaction(EmbeddedState::Error, false), EmbeddedReaction::Nothing);
    assert_eq!(embedded_endpoint("h", 5900, Some(40000)), ("127.0.0.1".to_string(), 40000));
    assert_eq!(embedded_endpoint("h", 5900, None), ("h".to_string(), 5900));
}

#[test]
fn activity_and_tunnels() {
    let n = activity_notice(ActivityKind::Silence, false);
    assert_eq!(n.icon, "dialog-warning-symbolic");
    assert!(n.warning && n.desktop);
    let n = activity_notice(ActivityKind::Activity, true);
    assert_eq!(n.icon, "dialog-information-symbolic");
    assert!(!n.warning && !n.desktop);
    let t = |enabled, auto_start| TunnelRecord { id: 1, connection_id: 2, enabled, auto_start, auto_reconnect: true };
    assert!(tunnel_restart_due(&t(true, false), false));
    assert!(!tunnel_restart_due(&t(true, false), true));
    assert!(!tunnel_restart_due(&t(false, false), false));
}

#[test]
fn auto_started_tunnels_need_their_connection() {
    let t = |connection_id, enabled, auto_start| TunnelRecord { id: 1, connection_id, enabled, auto_start, auto_reconnect: false };
    let conns = vec![
        TunnelConnection { id: 7, cached_password: Some("pw".to_string()) },
        TunnelConnection { id: 8, cached_password: Some(String::new()) },
        TunnelConnection { id: 7, cached_password: None },
    ];
    let tunnels = [t(7, true, true), t(9, true, true), t(8, true, true), t(7, false, true), t(8, true, false), t(7, true, true)];
    let starts = tunnel_starts(&tunnels, &conns);
    let got: Vec<(usize, usize, Option<String>)> =
        starts.into_iter().map(|s| (s.tunnel, s.connection, s.password)).collect();
    assert_eq!(
        got,
        vec![(0, 0, Some("pw".to_string())), (2, 1, None), (5, 0, Some("pw".to_string()))]
    );
}
