//! Command texts of the terminal protocols: what is shown before a session
//! starts and what is spawned, and how embedded (VNC, SPICE) sessions react
//! to their state changes.
use vstd::prelude::*;
use crate::text::{
    append_all, char_vecs_of, chars_of, concat_chars, decimal_spec, decimal_u64, join_exec, join_spec,
    push_piece, push_text, replace_char_exec, replace_char_spec, starts_with, str_views, string_of,
    strip_prefix_exec, views, append_pieces,
};

verus! {

/// The words of the `telnet` command shown before a session:
/// `telnet <custom args> <host> <port>`.
pub open spec fn telnet_words(extra_args: Seq<Seq<char>>, host: Seq<char>, port: u16) -> Seq<Seq<char>> {
    seq!["telnet"@] + extra_args + seq![host, decimal_spec(port as nat)]
}

/// The `telnet` command text shown before a session starts.
pub fn telnet_display_command(extra_args: &[String], host: &str, port: u16) -> (r: String)
    ensures
        r@ == join_spec(telnet_words(str_views(extra_args@), host@, port), " "@),
{
    let mut words: Vec<Vec<char>> = Vec::new();
    push_text(&mut words, "telnet");
    let extra = char_vecs_of(extra_args);
    append_pieces(&mut words, &extra);
    push_text(&mut words, host);
    push_piece(&mut words, decimal_u64(port as u64));
    assert(views(words@) =~= telnet_words(str_views(extra_args@), host@, port));
    string_of(&join_exec(&words, &chars_of(" ")))
}

/// A program followed by its arguments, separated by spaces.
pub fn command_line(program: &str, args: &[String]) -> (r: String)
    ensures
        r@ == join_spec(seq![program@] + str_views(args@), " "@),
{
    let mut words: Vec<Vec<char>> = Vec::new();
    push_text(&mut words, program);
    let extra = char_vecs_of(args);
    append_pieces(&mut words, &extra);
    assert(views(words@) =~= seq![program@] + str_views(args@));
    string_of(&join_exec(&words, &chars_of(" ")))
}

/// The Zero Trust providers.
#[derive(Clone, Copy, Debug, PartialEq, Eq, Structural)]
pub enum ZeroTrustProvider {
    AwsSsm,
    GcpIap,
    AzureBastion,
    AzureSsh,
    OciBastion,
    CloudflareAccess,
    Teleport,
    TailscaleSsh,
    Boundary,
    HoopDev,
    Generic,
}

/// The short key of a provider, used in the tab's protocol name.
pub open spec fn provider_key_spec(p: ZeroTrustProvider) -> Seq<char> {
    match p {
        ZeroTrustProvider::AwsSsm => "aws"@,
        ZeroTrustProvider::GcpIap => "gcloud"@,
        ZeroTrustProvider::AzureBastion => "azure"@,
        ZeroTrustProvider::AzureSsh => "azure_ssh"@,
        ZeroTrustProvider::OciBastion => "oci"@,
        ZeroTrustProvider::CloudflareAccess => "cloudflare"@,
        ZeroTrustProvider::Teleport => "teleport"@,
        ZeroTrustProvider::TailscaleSsh => "tailscale"@,
        ZeroTrustProvider::Boundary => "boundary"@,
        ZeroTrustProvider::HoopDev => "hoop"@,
        ZeroTrustProvider::Generic => "generic"@,
    }
}

/// The short key of a Zero Trust provider.
pub fn provider_key(p: ZeroTrustProvider) -> (r: &'static str)
    ensures
        r@ == provider_key_spec(p),
{
    match p {
        ZeroTrustProvider::AwsSsm => "aws",
        ZeroTrustProvider::GcpIap => "gcloud",
        ZeroTrustProvider::AzureBastion => "azure",
        ZeroTrustProvider::AzureSsh => "azure_ssh",
        ZeroTrustProvider::OciBastion => "oci",
        ZeroTrustProvider::CloudflareAccess => "cloudflare",
        ZeroTrustProvider::Teleport => "teleport",
        ZeroTrustProvider::TailscaleSsh => "tailscale",
        ZeroTrustProvider::Boundary => "boundary",
        ZeroTrustProvider::HoopDev => "hoop",
        ZeroTrustProvider::Generic => "generic",
    }
}

/// The protocol name of a Zero Trust tab: `zerotrust:<key>`.
pub fn zero_trust_tab_protocol(p: ZeroTrustProvider) -> (r: String)
    ensures
        r@ == "zerotrust:"@ + provider_key_spec(p),
{
    string_of(&concat_chars(&chars_of("zerotrust:"), &chars_of(provider_key(p))))
}

/// `s` with every `'` written as `'\''`, for use inside single quotes.
pub fn escape_single_quotes(s: &str) -> (r: String)
    ensures
        r@ == replace_char_spec(s@, '\'', "'\\''"@),
{
    string_of(&replace_char_exec(&chars_of(s), '\'', &chars_of("'\\''")))
}

/// The generic command without a leading `sh -c `.
pub open spec fn generic_template(full_command: Seq<char>) -> Seq<char> {
    if starts_with(full_command, "sh -c "@) {
        full_command.subrange(6, full_command.len() as int)
    } else {
        full_command
    }
}

/// The host command that runs a generic Zero Trust command from inside
/// Flatpak, under `script` so that it gets a terminal.
pub open spec fn flatpak_generic_spawn_spec(full_command: Seq<char>) -> Seq<char> {
    "flatpak-spawn --host --env=TERM=xterm-256color -- script -qfc '"@
        + replace_char_spec(generic_template(full_command), '\'', "'\\''"@) + "' /dev/null"@
}

/// The command spawned for a generic Zero Trust connection under Flatpak.
pub fn flatpak_generic_spawn_command(full_command: &str) -> (r: String)
    ensures
        r@ == flatpak_generic_spawn_spec(full_command@),
{
    let full = chars_of(full_command);
    let prefix = chars_of("sh -c ");
    proof {
        reveal_strlit("sh -c ");
    }
    let template = match strip_prefix_exec(&full, &prefix) {
        Some(t) => t,
        None => full,
    };
    let escaped = replace_char_exec(&template, '\'', &chars_of("'\\''"));
    let head = concat_chars(&chars_of("flatpak-spawn --host --env=TERM=xterm-256color -- script -qfc '"), &escaped);
    string_of(&concat_chars(&head, &chars_of("' /dev/null")))
}

/// The port probed before a Mosh session: its SSH port, 22 by default
/// (the Mosh handshake goes over SSH).
pub fn mosh_probe_port(ssh_port: Option<u16>) -> (r: u16)
    ensures
        r == (match ssh_port {
            Some(p) => p,
            None => 22u16,
        }),
{
    match ssh_port {
        Some(p) => p,
        None => 22,
    }
}

/// What a Kubernetes session targets: the busybox image, else the pod.
pub fn kubernetes_target(use_busybox: bool, busybox_image: &str, pod: Option<&str>) -> (r: String)
    ensures
        r@ == (if use_busybox {
            "busybox ("@ + busybox_image@ + ")"@
        } else {
            match pod {
                Some(p) => p@,
                None => Seq::<char>::empty(),
            }
        }),
{
    if use_busybox {
        let a = concat_chars(&chars_of("busybox ("), &chars_of(busybox_image));
        string_of(&concat_chars(&a, &chars_of(")")))
    } else {
        match pod {
            Some(p) => string_of(&chars_of(p)),
            None => String::new(),
        }
    }
}

/// The text shown before a command runs: the connection line, the command
/// line, then an empty line, each ended by `\r\n`.
pub fn session_feedback(connection_message: &str, command_message: &str) -> (r: String)
    ensures
        r@ == connection_message@ + "\r\n"@ + command_message@ + "\r\n\r\n"@,
{
    let a = concat_chars(&chars_of(connection_message), &chars_of("\r\n"));
    let b = concat_chars(&a, &chars_of(command_message));
    string_of(&concat_chars(&b, &chars_of("\r\n\r\n")))
}

/// The text typed into a session: the entered text, with a newline when
/// asked; nothing for empty text.
pub fn text_to_send(text: &str, append_newline: bool) -> (r: Option<String>)
    ensures
        match r {
            Some(t) => text@.len() > 0 && t@ == (if append_newline { text@.push('\n') } else { text@ }),
            None => text@.len() == 0,
        },
{
    let t = chars_of(text);
    if t.len() == 0 {
        return None;
    }
    let mut out: Vec<char> = Vec::new();
    append_all(&mut out, &t);
    if append_newline {
        out.push('\n');
    }
    Some(string_of(&out))
}

// ---------------------------------------------------------------------------
// Embedded sessions
// ---------------------------------------------------------------------------

/// The states an embedded (VNC or SPICE) session reports.
#[derive(Clone, Copy, Debug, PartialEq, Eq, Structural)]
pub enum EmbeddedState {
    Connecting,
    Connected,
    Disconnected,
    Error,
}

/// What the window does on a state change of an embedded session.
#[derive(Clone, Copy, Debug, PartialEq, Eq, Structural)]
pub enum EmbeddedReaction {
    /// Mark the tab connected and count the session.
    MarkConnected,
    /// Stop recording, mark the tab disconnected, uncount the session
    /// (flagging a failure), and close its history entry (as failed).
    MarkDisconnected { failed: bool },
    Nothing,
}

/// The reaction to a state change; `error_counts` says whether the session
/// kind reports errors (SPICE does, VNC only disconnects).
pub open spec fn embedded_reaction_spec(s: EmbeddedState, error_counts: bool) -> EmbeddedReaction {
    match s {
        EmbeddedState::Connected => EmbeddedReaction::MarkConnected,
        EmbeddedState::Disconnected => EmbeddedReaction::MarkDisconnected { failed: false },
        EmbeddedState::Error => if error_counts {
            EmbeddedReaction::MarkDisconnected { failed: true }
        } else {
            EmbeddedReaction::Nothing
        },
        EmbeddedState::Connecting => EmbeddedReaction::Nothing,
    }
}

/// How the window reacts to a state change of an embedded session.
pub fn embedded_reaction(s: EmbeddedState, error_counts: bool) -> (r: EmbeddedReaction)
    ensures
        r == embedded_reaction_spec(s, error_counts),
{
    match s {
        EmbeddedState::Connected => EmbeddedReaction::MarkConnected,
        EmbeddedState::Disconnected => EmbeddedReaction::MarkDisconnected { failed: false },
        EmbeddedState::Error => if error_counts {
            EmbeddedReaction::MarkDisconnected { failed: true }
        } else {
            EmbeddedReaction::Nothing
        },
        EmbeddedState::Connecting => EmbeddedReaction::Nothing,
    }
}

/// Where an embedded client connects: the local end of the SSH tunnel
/// when there is one, else the host and port themselves.
pub fn embedded_endpoint(host: &str, port: u16, tunnel_local_port: Option<u16>) -> (r: (String, u16))
    ensures
        match tunnel_local_port {
            Some(p) => r.0@ == "127.0.0.1"@ && r.1 == p,
            None => r.0@ == host@ && r.1 == port,
        },
{
    match tunnel_local_port {
        Some(p) => (string_of(&chars_of("127.0.0.1")), p),
        None => (string_of(&chars_of(host)), port),
    }
}


// ---------------------------------------------------------------------------
// Local shell
// ---------------------------------------------------------------------------

/// The shell found on the host: its `$SHELL` when the query succeeded and
/// printed something (trimmed), else `/bin/bash`.
pub fn host_shell_choice(query_succeeded: bool, output: &str) -> (r: String)
    ensures
        r@ == (if query_succeeded && crate::text::trim_spec(output@).len() > 0 {
            crate::text::trim_spec(output@)
        } else {
            "/bin/bash"@
        }),
{
    if query_succeeded {
        let t = crate::text::trim_exec(&chars_of(output));
        if t.len() > 0 {
            return string_of(&t);
        }
    }
    string_of(&chars_of("/bin/bash"))
}

/// The command that runs a local shell on the host from inside Flatpak:
/// the custom command (if not empty) through the host shell, else the host
/// shell as a login shell, under `script` for a terminal.
pub open spec fn flatpak_local_shell_spec(host_shell: Seq<char>, custom: Seq<char>) -> Seq<char> {
    if custom.len() > 0 {
        "flatpak-spawn --host --env=TERM=xterm-256color -- script -qfc '"@ + host_shell + " -c '\"'\"'"@
            + replace_char_spec(custom, '\'', "'\\''"@) + "'\"'\"'' /dev/null"@
    } else {
        "flatpak-spawn --host --env=TERM=xterm-256color -- script -qfc '"@ + host_shell + " --login' /dev/null"@
    }
}

/// The host command of a local shell under Flatpak.
pub fn flatpak_local_shell_command(host_shell: &str, custom: &str) -> (r: String)
    ensures
        r@ == flatpak_local_shell_spec(host_shell@, custom@),
{
    let c = chars_of(custom);
    let head = concat_chars(&chars_of("flatpak-spawn --host --env=TERM=xterm-256color -- script -qfc '"), &chars_of(host_shell));
    if c.len() > 0 {
        let escaped = replace_char_exec(&c, '\'', &chars_of("'\\''"));
        let a = concat_chars(&head, &chars_of(" -c '\"'\"'"));
        let b = concat_chars(&a, &escaped);
        string_of(&concat_chars(&b, &chars_of("'\"'\"'' /dev/null")))
    } else {
        string_of(&concat_chars(&head, &chars_of(" --login' /dev/null")))
    }
}

/// The arguments that start a local shell outside Flatpak: the custom
/// command (if not empty) through the user's shell, else the shell alone.
pub fn local_shell_argv(shell: &str, custom: &str) -> (r: Vec<String>)
    ensures
        str_views(r@) == (if custom@.len() > 0 {
            seq![shell@, "-c"@, custom@]
        } else {
            seq![shell@]
        }),
{
    let mut v: Vec<Vec<char>> = Vec::new();
    push_text(&mut v, shell);
    if chars_of(custom).len() > 0 {
        push_text(&mut v, "-c");
        push_text(&mut v, custom);
    }
    crate::text::strings_of(&v)
}

/// The host command that passes a terminal size on to the host's terminal.
pub fn host_resize_command(rows: u64, cols: u64) -> (r: String)
    ensures
        r@ == "flatpak-spawn --host -- stty rows "@ + decimal_spec(rows as nat) + " cols "@ + decimal_spec(cols as nat),
{
    let a = concat_chars(&chars_of("flatpak-spawn --host -- stty rows "), &decimal_u64(rows));
    let b = concat_chars(&a, &chars_of(" cols "));
    string_of(&concat_chars(&b, &decimal_u64(cols)))
}

// ---------------------------------------------------------------------------
// Activity notifications
// ---------------------------------------------------------------------------

/// What the activity monitor reported.
#[derive(Clone, Copy, Debug, PartialEq, Eq, Structural)]
pub enum ActivityKind {
    Activity,
    Silence,
}

/// How an activity or silence notice is shown.
#[derive(Clone, Debug)]
pub struct ActivityNotice {
    /// The tab's indicator icon.
    pub icon: String,
    /// Whether the toast is a warning (else information).
    pub warning: bool,
    /// Whether a desktop notification is sent too.
    pub desktop: bool,
}

/// Activity shows the information icon, silence the warning icon; a
/// desktop notification goes out only while the window is not active.
pub fn activity_notice(kind: ActivityKind, window_active: bool) -> (r: ActivityNotice)
    ensures
        r.icon@ == (match kind {
            ActivityKind::Activity => "dialog-information-symbolic"@,
            ActivityKind::Silence => "dialog-warning-symbolic"@,
        }),
        r.warning == (kind == ActivityKind::Silence),
        r.desktop == !window_active,
{
    match kind {
        ActivityKind::Activity => ActivityNotice {
            icon: string_of(&chars_of("dialog-information-symbolic")),
            warning: false,
            desktop: !window_active,
        },
        ActivityKind::Silence => ActivityNotice {
            icon: string_of(&chars_of("dialog-warning-symbolic")),
            warning: true,
            desktop: !window_active,
        },
    }
}

// ---------------------------------------------------------------------------
// Standalone tunnels
// ---------------------------------------------------------------------------

/// What the tunnel logic reads of a standalone tunnel.
#[derive(Clone, Copy, Debug)]
pub struct TunnelRecord {
    pub id: u128,
    pub connection_id: u128,
    pub enabled: bool,
    pub auto_start: bool,
    pub auto_reconnect: bool,
}

/// A connection a standalone tunnel may run over, with the password of its
/// cached credentials, if credentials are cached.
#[derive(Clone, Debug)]
pub struct TunnelConnection {
    pub id: u128,
    pub cached_password: Option<String>,
}

/// A tunnel to start: its index, the index of its connection, and the
/// password handed to it.
#[derive(Clone, Debug)]
pub struct TunnelStart {
    pub tunnel: usize,
    pub connection: usize,
    pub password: Option<String>,
}

/// `k` is the first index of a connection with identifier `id`.
pub open spec fn is_first_connection(conns: Seq<TunnelConnection>, id: u128, k: int) -> bool {
    &&& 0 <= k < conns.len()
    &&& conns[k].id == id
    &&& forall|j: int| 0 <= j < k ==> conns[j].id != id
}

/// The index of the first connection with identifier `id`, if any.
pub open spec fn first_connection(conns: Seq<TunnelConnection>, id: u128) -> Option<int> {
    if exists|k: int| is_first_connection(conns, id, k) {
        Some(choose|k: int| is_first_connection(conns, id, k))
    } else {
        None
    }
}

/// The cached password handed to a tunnel: only a non-empty one.
pub open spec fn handed_password(c: TunnelConnection) -> Option<Seq<char>> {
    match c.cached_password {
        Some(p) => if p@.len() > 0 {
            Some(p@)
        } else {
            None
        },
        None => None,
    }
}

/// The tunnels started with the window, in order: enabled, set to start,
/// and over a connection that exists (the first with the tunnel's
/// connection identifier), each with that connection's non-empty cached
/// password.
pub open spec fn autostart_plan(
    tunnels: Seq<TunnelRecord>,
    conns: Seq<TunnelConnection>,
) -> Seq<(int, int, Option<Seq<char>>)>
    decreases tunnels.len(),
{
    if tunnels.len() == 0 {
        Seq::empty()
    } else {
        let rest = autostart_plan(tunnels.drop_last(), conns);
        let t = tunnels.last();
        if t.enabled && t.auto_start {
            match first_connection(conns, t.connection_id) {
                Some(c) => rest.push((tunnels.len() - 1, c, handed_password(conns[c]))),
                None => rest,
            }
        } else {
            rest
        }
    }
}

/// A tunnel start as plain values.
pub open spec fn start_view(s: TunnelStart) -> (int, int, Option<Seq<char>>) {
    (s.tunnel as int, s.connection as int, crate::text::opt_string_view(s.password))
}

/// The index of the first connection with identifier `id`.
fn find_connection(conns: &[TunnelConnection], id: u128) -> (r: Option<usize>)
    ensures
        match r {
            Some(i) => first_connection(conns@, id) == Some(i as int),
            None => first_connection(conns@, id) is None,
        },
{
    let mut i: usize = 0;
    while i < conns.len()
        invariant
            i <= conns.len(),
            forall|j: int| 0 <= j < i ==> conns@[j].id != id,
        decreases conns.len() - i,
    {
        if conns[i].id == id {
            proof {
                assert(is_first_connection(conns@, id, i as int));
                let k = choose|k: int| is_first_connection(conns@, id, k);
                assert(k == i as int) by {
                    if k < i as int {
                        assert(conns@[k].id != id);
                    } else if k > i as int {
                        assert(conns@[i as int].id != id);
                    }
                }
            }
            return Some(i);
        }
        i = i + 1;
    }
    assert forall|k: int| !is_first_connection(conns@, id, k) by {
        if 0 <= k < conns.len() {
            assert(conns@[k].id != id);
        }
    }
    None
}

/// The tunnels to start with the window, with their connections and the
/// passwords handed over.
pub fn tunnel_starts(tunnels: &[TunnelRecord], conns: &[TunnelConnection]) -> (r: Vec<TunnelStart>)
    ensures
        r@.map_values(|s: TunnelStart| start_view(s)) == autostart_plan(tunnels@, conns@),
{
    let mut out: Vec<TunnelStart> = Vec::new();
    let mut i: usize = 0;
    while i < tunnels.len()
        invariant
            i <= tunnels.len(),
            out@.map_values(|s: TunnelStart| start_view(s)) == autostart_plan(tunnels@.take(i as int), conns@),
        decreases tunnels.len() - i,
    {
        assert(tunnels@.take(i + 1).drop_last() =~= tunnels@.take(i as int));
        assert(tunnels@.take(i + 1).last() == tunnels@[i as int]);
        let t = &tunnels[i];
        if t.enabled && t.auto_start {
            match find_connection(conns, t.connection_id) {
                Some(c) => {
                    let password = match &conns[c].cached_password {
                        Some(p) => {
                            let pc = chars_of(p.as_str());
                            if pc.len() > 0 {
                                Some(string_of(&pc))
                            } else {
                                None
                            }
                        },
                        None => None,
                    };
                    let start = TunnelStart { tunnel: i, connection: c, password };
                    let ghost before = out@;
                    out.push(start);
                    assert(out@.map_values(|s: TunnelStart| start_view(s)) =~= before.map_values(
                        |s: TunnelStart| start_view(s),
                    ).push(start_view(start)));
                },
                None => {},
            }
        }
        i = i + 1;
    }
    assert(tunnels@.take(tunnels.len() as int) =~= tunnels@);
    out
}

/// A failed tunnel is restarted when it is enabled, set to reconnect and has
/// not used up its attempts.
pub fn tunnel_restart_due(t: &TunnelRecord, exceeded_max_reconnects: bool) -> (r: bool)
    ensures
        r == (t.auto_reconnect && t.enabled && !exceeded_max_reconnects),
{
    t.auto_reconnect && t.enabled && !exceeded_max_reconnects
}

// ---------------------------------------------------------------------------
// SFTP
// ---------------------------------------------------------------------------

/// SFTP opens in Midnight Commander when the setting asks for it, and
/// always under Flatpak; otherwise in a file manager.
pub fn sftp_uses_mc(sftp_use_mc: bool, flatpak: bool) -> (r: bool)
    ensures
        r == (sftp_use_mc || flatpak),
{
    sftp_use_mc || flatpak
}

/// Midnight Commander cannot ask for a password: warn when the connection
/// authenticates by password and no key can be put in the agent.
pub fn mc_password_warning(uses_password_auth: bool, key_path_known: bool) -> (r: bool)
    ensures
        r == (uses_password_auth && !key_path_known),
{
    uses_password_auth && !key_path_known
}

/// The tab title of an SFTP session in Midnight Commander: `mc: <name>`.
pub fn mc_tab_name(connection_name: &str) -> (r: String)
    ensures
        r@ == "mc: "@ + connection_name@,
{
    string_of(&concat_chars(&chars_of("mc: "), &chars_of(connection_name)))
}

/// The `PATH` setting that puts the known-hosts wrapper directory first.
pub fn mc_path_env(wrapper_dir: &str, path: &str) -> (r: String)
    ensures
        r@ == "PATH="@ + wrapper_dir@ + ":"@ + path@,
{
    let a = concat_chars(&chars_of("PATH="), &chars_of(wrapper_dir));
    let b = concat_chars(&a, &chars_of(":"));
    string_of(&concat_chars(&b, &chars_of(path)))
}
} // verus!
