//! Decisions taken while an SSH session runs: the command text shown before
//! it starts, when the target password may be typed in automatically, the
//! one-shot auto-fill of that password, when the session counts as
//! established, and the one-shot starts (recording, monitoring) that wait
//! for output.
use vstd::prelude::*;
use crate::text::{
    append_pieces, char_vecs_of, chars_of, concat_chars, contains_exec, contains_seq, decimal_spec,
    decimal_u64, join_exec, join_spec, opt_view, push_piece, push_text, str_to_lowercase,
    str_views, string_of, unicode_lowercase, views,
};
use crate::jump::{find_record, lookup_record, HostRecord, JumpSettings};
use crate::credentials::ProtocolKind;

verus! {

// ---------------------------------------------------------------------------
// The command shown in the terminal
// ---------------------------------------------------------------------------

/// `[user@]host`.
pub open spec fn destination_spec(username: Option<Seq<char>>, host: Seq<char>) -> Seq<char> {
    match username {
        Some(u) => u + "@"@ + host,
        None => host,
    }
}

/// The words of the `ssh` command shown before a session starts:
/// `[waypipe] ssh [-p port] [-i key] <extra args> [user@]host`, the port
/// only when it is not 22.
pub open spec fn display_words(
    use_waypipe: bool,
    port: u16,
    identity_file: Option<Seq<char>>,
    extra_args: Seq<Seq<char>>,
    username: Option<Seq<char>>,
    host: Seq<char>,
) -> Seq<Seq<char>> {
    (if use_waypipe {
        seq!["waypipe"@, "ssh"@]
    } else {
        seq!["ssh"@]
    }) + (if port != 22 {
        seq!["-p"@, decimal_spec(port as nat)]
    } else {
        Seq::empty()
    }) + (match identity_file {
        Some(k) => seq!["-i"@, k],
        None => Seq::empty(),
    }) + extra_args + seq![destination_spec(username, host)]
}

/// The `ssh` command text shown in the terminal before the session starts.
pub fn ssh_display_command(
    use_waypipe: bool,
    port: u16,
    identity_file: Option<&str>,
    extra_args: &[String],
    username: Option<&str>,
    host: &str,
) -> (r: String)
    ensures
        r@ == join_spec(
            display_words(use_waypipe, port, opt_view(identity_file), str_views(extra_args@), opt_view(username), host@),
            " "@,
        ),
{
    let mut words: Vec<Vec<char>> = Vec::new();
    if use_waypipe {
        push_text(&mut words, "waypipe");
    }
    push_text(&mut words, "ssh");
    let ghost w0: Seq<Seq<char>> = if use_waypipe {
        seq!["waypipe"@, "ssh"@]
    } else {
        seq!["ssh"@]
    };
    assert(views(words@) =~= w0);
    if port != 22 {
        push_text(&mut words, "-p");
        push_piece(&mut words, decimal_u64(port as u64));
    }
    match identity_file {
        Some(k) => {
            push_text(&mut words, "-i");
            push_text(&mut words, k);
        },
        None => {},
    }
    let extra = char_vecs_of(extra_args);
    append_pieces(&mut words, &extra);
    let dest = match username {
        Some(u) => {
            let ua = concat_chars(&chars_of(u), &chars_of("@"));
            concat_chars(&ua, &chars_of(host))
        },
        None => chars_of(host),
    };
    push_piece(&mut words, dest);
    assert(views(words@) =~= display_words(
        use_waypipe,
        port,
        opt_view(identity_file),
        str_views(extra_args@),
        opt_view(username),
        host@,
    ));
    let joined = join_exec(&words, &chars_of(" "));
    string_of(&joined)
}

// ---------------------------------------------------------------------------
// Failure text through a jump host
// ---------------------------------------------------------------------------

/// The number of known `ssh` failure messages.
pub open spec fn ssh_failure_pattern_count() -> int {
    10
}

/// The known `ssh` failure messages.
pub open spec fn ssh_failure_pattern(i: int) -> Seq<char> {
    if i == 0 {
        "Connection timed out"@
    } else if i == 1 {
        "Connection refused"@
    } else if i == 2 {
        "No route to host"@
    } else if i == 3 {
        "Network is unreachable"@
    } else if i == 4 {
        "Host key verification failed"@
    } else if i == 5 {
        "Permission denied"@
    } else if i == 6 {
        "Too many authentication failures"@
    } else if i == 7 {
        "Connection closed by"@
    } else if i == 8 {
        "Connection reset by"@
    } else {
        "ssh: connect to host"@
    }
}

/// The failure message number `i` (`i < 10`).
fn failure_pattern(i: usize) -> (r: &'static str)
    requires
        i < 10,
    ensures
        r@ == ssh_failure_pattern(i as int),
{
    if i == 0 {
        "Connection timed out"
    } else if i == 1 {
        "Connection refused"
    } else if i == 2 {
        "No route to host"
    } else if i == 3 {
        "Network is unreachable"
    } else if i == 4 {
        "Host key verification failed"
    } else if i == 5 {
        "Permission denied"
    } else if i == 6 {
        "Too many authentication failures"
    } else if i == 7 {
        "Connection closed by"
    } else if i == 8 {
        "Connection reset by"
    } else {
        "ssh: connect to host"
    }
}

/// The text holds a known `ssh` failure message, both compared in lowercase.
pub open spec fn has_ssh_failure(text: Seq<char>) -> bool {
    exists|i: int|
        0 <= i < ssh_failure_pattern_count() && #[trigger] contains_seq(
            unicode_lowercase(text),
            unicode_lowercase(ssh_failure_pattern(i)),
        )
}

/// Whether terminal text holds a known `ssh` failure message, ignoring case.
pub fn contains_ssh_failure(text: &str) -> (r: bool)
    ensures
        r == has_ssh_failure(text@),
{
    let lower = chars_of(str_to_lowercase(text).as_str());
    let mut i: usize = 0;
    while i < 10
        invariant
            i <= 10,
            lower@ == unicode_lowercase(text@),
            forall|j: int| 0 <= j < i ==> !#[trigger] contains_seq(
                unicode_lowercase(text@),
                unicode_lowercase(ssh_failure_pattern(j)),
            ),
        decreases 10 - i,
    {
        let p = str_to_lowercase(failure_pattern(i));
        if contains_exec(&lower, &chars_of(p.as_str())) {
            return true;
        }
        i = i + 1;
    }
    false
}

// ---------------------------------------------------------------------------
// Session status
// ---------------------------------------------------------------------------

/// The cursor row past which terminal output means the session is up.
pub open spec fn established_row_threshold() -> int {
    2
}

/// The session counts as established: the cursor is past the second row
/// and, through a jump host, the terminal shows no `ssh` failure.
pub open spec fn established_spec(cursor_row: Option<i64>, uses_jump_host: bool, text: Option<Seq<char>>) -> bool {
    match cursor_row {
        Some(row) => row > established_row_threshold() && !(uses_jump_host && match text {
            Some(t) => has_ssh_failure(t),
            None => false,
        }),
        None => false,
    }
}

/// One check of the status detector: `connected` is whether the session was
/// already counted; the result is the new flag and whether to count the
/// session now.
pub fn status_detect_step(
    connected: bool,
    cursor_row: Option<i64>,
    uses_jump_host: bool,
    terminal_text: Option<&str>,
) -> (r: (bool, bool))
    ensures
        r.1 == (!connected && established_spec(cursor_row, uses_jump_host, opt_view(terminal_text))),
        r.0 == (connected || r.1),
{
    if connected {
        return (true, false);
    }
    match cursor_row {
        Some(row) => {
            if row > 2 {
                if uses_jump_host {
                    match terminal_text {
                        Some(t) => {
                            if contains_ssh_failure(t) {
                                return (false, false);
                            }
                        },
                        None => {},
                    }
                }
                (true, true)
            } else {
                (false, false)
            }
        },
        None => (false, false),
    }
}

// ---------------------------------------------------------------------------
// When the target password may be typed in
// ---------------------------------------------------------------------------

/// The connection goes through a jump host: an SSH connection with a jump
/// host reference or a custom `ProxyCommand`, or one that inherits a
/// `ProxyJump` from its groups.
pub open spec fn has_jump_host_spec(ssh: Option<JumpSettings>, inherited_proxy: bool) -> bool {
    (match ssh {
        Some(s) => s.jump_host_id is Some || s.proxy_command is Some,
        None => false,
    }) || inherited_proxy
}

/// Whether the connection goes through a jump host.
pub fn has_jump_host(ssh: &Option<JumpSettings>, inherited_proxy: bool) -> (r: bool)
    ensures
        r == has_jump_host_spec(*ssh, inherited_proxy),
{
    let own = match ssh {
        Some(s) => s.jump_host_id.is_some() || s.proxy_command.is_some(),
        None => false,
    };
    own || inherited_proxy
}

/// A connection goes through a jump host whenever its SSH settings hold a
/// custom `ProxyCommand` or a jump host reference, or it inherits a
/// `ProxyJump` from its groups, whatever the other two say; a connection
/// with none of the three is direct.
pub proof fn proxy_command_or_jump_reference_means_jump_host(
    ssh: Option<JumpSettings>,
    inherited_proxy: bool,
)
    ensures
        (ssh matches Some(s) && s.proxy_command is Some) ==> has_jump_host_spec(ssh, inherited_proxy),
        (ssh matches Some(s) && s.jump_host_id is Some) ==> has_jump_host_spec(ssh, inherited_proxy),
        inherited_proxy ==> has_jump_host_spec(ssh, inherited_proxy),
        !inherited_proxy && (ssh is None || (ssh->0.jump_host_id is None && ssh->0.proxy_command is None))
            ==> !has_jump_host_spec(ssh, inherited_proxy),
{
}

/// The first jump hop may ask for a password in the terminal: an SSH
/// connection whose referenced hop has a password source, or whose hop
/// cannot be inspected (missing, or a manual proxy only).
pub open spec fn bastion_may_prompt_spec(conn: HostRecord, store: Seq<HostRecord>) -> bool {
    match conn.ssh {
        Some(s) => match s.jump_host_id {
            Some(jid) => match find_record(store, jid) {
                Some(c) => c.has_password_source,
                None => true,
            },
            None => true,
        },
        None => false,
    }
}

/// Whether the first jump hop of `conn` may ask for a password in the
/// terminal.
pub fn bastion_may_prompt_for_password(conn: &HostRecord, store: &[HostRecord]) -> (r: bool)
    ensures
        r == bastion_may_prompt_spec(*conn, store@),
{
    match &conn.ssh {
        Some(s) => match s.jump_host_id {
            Some(jid) => match lookup_record(store, jid) {
                Some(i) => store[i].has_password_source,
                None => true,
            },
            None => true,
        },
        None => false,
    }
}

/// The target password may be typed in automatically: there is no jump
/// host, or the jump host got its own password out of band, or it cannot
/// prompt in the terminal.
pub open spec fn allow_target_autofill_spec(
    has_jump_host: bool,
    bastion_handled_out_of_band: bool,
    bastion_may_prompt: bool,
) -> bool {
    !has_jump_host || bastion_handled_out_of_band || !bastion_may_prompt
}

/// Whether the target password may be typed in automatically.
pub fn allow_target_autofill(
    has_jump_host: bool,
    bastion_handled_out_of_band: bool,
    bastion_may_prompt: bool,
) -> (r: bool)
    ensures
        r == allow_target_autofill_spec(has_jump_host, bastion_handled_out_of_band, bastion_may_prompt),
{
    !has_jump_host || bastion_handled_out_of_band || !bastion_may_prompt
}

// ---------------------------------------------------------------------------
// One-shot password auto-fill
// ---------------------------------------------------------------------------

/// The auto-fill flags of one session.
#[derive(Clone, Copy, Debug, PartialEq, Eq, Structural)]
pub struct AutofillState {
    /// The password was typed in.
    pub password_sent: bool,
    /// The one deferred re-check was scheduled.
    pub recheck_scheduled: bool,
}

/// What the terminal reports to the auto-fill.
#[derive(Clone, Copy, Debug, PartialEq, Eq, Structural)]
pub enum AutofillEvent {
    /// The contents changed or the cursor moved; `prompt_visible` says
    /// whether the cursor line is a password prompt.
    TerminalChanged { prompt_visible: bool },
    /// The deferred re-check fired.
    RecheckDue { prompt_visible: bool },
}

/// The next flags and what to do.
#[derive(Clone, Copy, Debug, PartialEq, Eq, Structural)]
pub struct AutofillStep {
    pub state: AutofillState,
    /// Type the password followed by a newline.
    pub send_password: bool,
    /// Schedule the deferred re-check.
    pub schedule_recheck: bool,
}

/// The flags before any event.
pub open spec fn autofill_initial() -> AutofillState {
    AutofillState { password_sent: false, recheck_scheduled: false }
}

/// One event: the password is typed in when it was not yet and a prompt is
/// visible; after a terminal change that typed nothing, one re-check is
/// scheduled unless one already was.
pub open spec fn autofill_step_spec(s: AutofillState, e: AutofillEvent) -> AutofillStep {
    let prompt = match e {
        AutofillEvent::TerminalChanged { prompt_visible } => prompt_visible,
        AutofillEvent::RecheckDue { prompt_visible } => prompt_visible,
    };
    let send = !s.password_sent && prompt;
    let sent = s.password_sent || send;
    let schedule = (e is TerminalChanged) && !sent && !s.recheck_scheduled;
    AutofillStep {
        state: AutofillState { password_sent: sent, recheck_scheduled: s.recheck_scheduled || schedule },
        send_password: send,
        schedule_recheck: schedule,
    }
}

/// Applies one terminal event to the auto-fill flags.
pub fn autofill_step(s: AutofillState, e: AutofillEvent) -> (r: AutofillStep)
    ensures
        r == autofill_step_spec(s, e),
{
    let (prompt, is_change) = match e {
        AutofillEvent::TerminalChanged { prompt_visible } => (prompt_visible, true),
        AutofillEvent::RecheckDue { prompt_visible } => (prompt_visible, false),
    };
    let mut state = s;
    let mut send_password = false;
    if !state.password_sent && prompt {
        send_password = true;
        state.password_sent = true;
    }
    let mut schedule_recheck = false;
    if is_change && !state.password_sent && !state.recheck_scheduled {
        state.recheck_scheduled = true;
        schedule_recheck = true;
    }
    AutofillStep { state, send_password, schedule_recheck }
}

/// The flags after a sequence of events, with the number of times the
/// password was typed and re-checks were scheduled.
pub open spec fn autofill_run(s: AutofillState, events: Seq<AutofillEvent>) -> (AutofillState, nat, nat)
    decreases events.len(),
{
    if events.len() == 0 {
        (s, 0, 0)
    } else {
        let (prev, sends, schedules) = autofill_run(s, events.drop_last());
        let step = autofill_step_spec(prev, events.last());
        (
            step.state,
            sends + if step.send_password { 1nat } else { 0nat },
            schedules + if step.schedule_recheck { 1nat } else { 0nat },
        )
    }
}

/// Over any sequence of terminal events, the password is typed in at most
/// once and at most one re-check is scheduled; a flag, once set, stays set.
pub proof fn autofill_at_most_once(s: AutofillState, events: Seq<AutofillEvent>)
    ensures
        autofill_run(s, events).1 + (if s.password_sent { 1nat } else { 0nat })
            == (if autofill_run(s, events).0.password_sent { 1nat } else { 0nat }),
        autofill_run(s, events).2 + (if s.recheck_scheduled { 1nat } else { 0nat })
            == (if autofill_run(s, events).0.recheck_scheduled { 1nat } else { 0nat }),
        autofill_run(autofill_initial(), events).1 <= 1,
        autofill_run(autofill_initial(), events).2 <= 1,
    decreases events.len(),
{
    if events.len() > 0 {
        autofill_at_most_once(s, events.drop_last());
        autofill_at_most_once(autofill_initial(), events.drop_last());
    }
}


// ---------------------------------------------------------------------------
// One-shot starts that wait for output (recording, monitoring)
// ---------------------------------------------------------------------------

/// The cursor row past which output starts a session's automatic recording:
/// SSH and Mosh wait for the login (row 2), Telnet and Kubernetes for any
/// output (row 0); other protocols are not started by output.
pub open spec fn auto_recording_row_spec(p: ProtocolKind) -> Option<i64> {
    match p {
        ProtocolKind::Ssh => Some(2),
        ProtocolKind::Mosh => Some(2),
        ProtocolKind::Telnet => Some(0),
        ProtocolKind::Kubernetes => Some(0),
        _ => None,
    }
}

/// The cursor row that starts the automatic recording of a protocol.
pub fn auto_recording_row(p: ProtocolKind) -> (r: Option<i64>)
    ensures
        r == auto_recording_row_spec(p),
{
    match p {
        ProtocolKind::Ssh => Some(2),
        ProtocolKind::Mosh => Some(2),
        ProtocolKind::Telnet => Some(0),
        ProtocolKind::Kubernetes => Some(0),
        _ => None,
    }
}

/// A one-shot start fires when it has not yet and the cursor is past the
/// threshold row.
pub open spec fn output_trigger_spec(started: bool, cursor_row: Option<i64>, threshold: i64) -> bool {
    !started && (cursor_row matches Some(row) && row > threshold)
}

/// One check of a one-shot start on a terminal change: the new flag and
/// whether to start now.
pub fn output_trigger_step(started: bool, cursor_row: Option<i64>, threshold: i64) -> (r: (bool, bool))
    ensures
        r.1 == output_trigger_spec(started, cursor_row, threshold),
        r.0 == (started || r.1),
{
    if started {
        return (true, false);
    }
    match cursor_row {
        Some(row) => if row > threshold {
            (true, true)
        } else {
            (false, false)
        },
        None => (false, false),
    }
}

/// The flag after a sequence of cursor rows, with the number of starts.
pub open spec fn output_trigger_run(started: bool, rows: Seq<Option<i64>>, threshold: i64) -> (bool, nat)
    decreases rows.len(),
{
    if rows.len() == 0 {
        (started, 0)
    } else {
        let (prev, fired) = output_trigger_run(started, rows.drop_last(), threshold);
        let now = output_trigger_spec(prev, rows.last(), threshold);
        (prev || now, fired + if now { 1nat } else { 0nat })
    }
}

/// Some row of `rows` is past `threshold`.
pub open spec fn some_row_past(rows: Seq<Option<i64>>, threshold: i64) -> bool {
    exists|i: int| 0 <= i < rows.len() && (#[trigger] rows[i] matches Some(row) && row > threshold)
}

/// Over any sequence of terminal changes a one-shot start fires at most
/// once, and, from the unstarted state, it has fired exactly when some
/// cursor row went past the threshold.
pub proof fn output_trigger_fires_once(rows: Seq<Option<i64>>, threshold: i64)
    ensures
        output_trigger_run(false, rows, threshold).1 <= 1,
        output_trigger_run(false, rows, threshold).1 == 1 <==> some_row_past(rows, threshold),
        output_trigger_run(false, rows, threshold).0 <==> some_row_past(rows, threshold),
    decreases rows.len(),
{
    if rows.len() > 0 {
        let init = rows.drop_last();
        output_trigger_fires_once(init, threshold);
        if some_row_past(init, threshold) {
            let i = choose|i: int| 0 <= i < init.len() && (#[trigger] init[i] matches Some(row) && row > threshold);
            assert(rows[i] == init[i]);
        }
        if some_row_past(rows, threshold) && !some_row_past(init, threshold) {
            let i = choose|i: int| 0 <= i < rows.len() && (#[trigger] rows[i] matches Some(row) && row > threshold);
            if i < rows.len() - 1 {
                assert(init[i] == rows[i]);
            }
        }
        if !some_row_past(rows, threshold) {
            assert(!(rows[rows.len() - 1] matches Some(row) && row > threshold));
            assert forall|i: int| 0 <= i < init.len() implies !(#[trigger] init[i] matches Some(row) && row > threshold) by {
                assert(init[i] == rows[i]);
            }
        }
    }
}

} // verus!
