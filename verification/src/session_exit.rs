//! What happens when a terminal session's child process exits: reading the
//! `waitpid` status, deciding whether the exit was a failure, and choosing
//! between closing the tab, showing the reconnect overlay and polling the
//! host for an automatic reconnect.
use vstd::prelude::*;
use crate::text::{append_all, chars_of, decimal_i64, signed_decimal_spec, str_eq};

verus! {

/// The signal number in a `waitpid` status: its low seven bits.
pub open spec fn term_sig_spec(status: int) -> int {
    status % 128
}

/// The exit code in a `waitpid` status: bits 8 to 15.
pub open spec fn exit_code_spec(status: int) -> int {
    (status / 256) % 256
}

/// Hang-up, interrupt, kill and terminate: the signals a user or the
/// application sends on purpose.
pub open spec fn is_standard_termination_signal(sig: int) -> bool {
    sig == 1 || sig == 2 || sig == 9 || sig == 15
}

/// The exit codes a shell reports for a child killed by one of the standard
/// termination signals (128 plus the signal number).
pub open spec fn is_signal_kill_code(code: int) -> bool {
    code == 129 || code == 130 || code == 137 || code == 143
}

/// An exit counts as a failure when a non-standard signal killed the child,
/// or when it exited with a non-zero code that does not report a standard
/// termination signal.
pub open spec fn is_failure_spec(status: int) -> bool {
    let sig = term_sig_spec(status);
    let code = exit_code_spec(status);
    if sig != 0 {
        !is_standard_termination_signal(sig)
    } else {
        code != 0 && !is_signal_kill_code(code)
    }
}

/// A `waitpid` status whose low seven bits are 1, 2, 9 or 15 (hang-up,
/// interrupt, kill, terminate) is never a failure; one whose low seven bits
/// name any other signal always is. With no signal, exit codes 0, 129, 130,
/// 137 and 143 are no failure and every other code is.
pub proof fn standard_termination_signals_are_not_failures(status: int)
    ensures
        (status % 128 == 1 || status % 128 == 2 || status % 128 == 9 || status % 128 == 15)
            ==> !is_failure_spec(status),
        (status % 128 != 0 && status % 128 != 1 && status % 128 != 2 && status % 128 != 9
            && status % 128 != 15) ==> is_failure_spec(status),
        status % 128 == 0 ==> (!is_failure_spec(status) <==> ((status / 256) % 256 == 0 || (status
            / 256) % 256 == 129 || (status / 256) % 256 == 130 || (status / 256) % 256 == 137 || (
        status / 256) % 256 == 143)),
{
}

/// A classified `waitpid` status.
#[derive(Clone, Copy, Debug, PartialEq, Eq)]
pub struct ExitClassification {
    pub term_sig: i32,
    pub exit_code: i32,
    pub is_failure: bool,
}

/// Reads the signal number and exit code out of a `waitpid` status and
/// decides whether the exit was a failure.
pub fn classify_exit_status(exit_status: i32) -> (r: ExitClassification)
    ensures
        r.term_sig == term_sig_spec(exit_status as int),
        r.exit_code == exit_code_spec(exit_status as int),
        r.is_failure == is_failure_spec(exit_status as int),
{
    let term_sig = exit_status & 0x7f;
    let exit_code = (exit_status >> 8u32) & 0xff;
    assert(term_sig == exit_status % 128) by (bit_vector)
        requires
            term_sig == exit_status & 0x7f,
    ;
    assert(exit_code == (exit_status / 256) % 256) by (bit_vector)
        requires
            exit_code == (exit_status >> 8u32) & 0xff,
    ;
    let is_signaled = term_sig != 0;
    let is_failure = if is_signaled {
        !(term_sig == 1 || term_sig == 2 || term_sig == 9 || term_sig == 15)
    } else {
        exit_code != 0 && !(exit_code == 129 || exit_code == 130 || exit_code == 137
            || exit_code == 143)
    };
    ExitClassification { term_sig, exit_code, is_failure }
}


/// What the child-exited handler does right away.
#[derive(Clone, Copy, Debug, PartialEq, Eq)]
pub enum ChildExitPlan {
    /// The tab was already closed by the user: record the end of the
    /// connection and decrement the sidebar's session count.
    TabAlreadyClosed,
    /// The application is shutting down: only decrement the session count.
    ShuttingDown,
    /// A clean exit with close-on-clean-exit enabled: close the tab on the
    /// next idle iteration.
    CloseTab,
    /// Mark the tab disconnected and show the reconnect overlay on the next
    /// idle iteration.
    ShowReconnect,
}

/// What the child-exited handler writes to the connection history.
#[derive(Clone, Debug, PartialEq, Eq)]
pub enum HistoryRecord {
    /// Nothing is recorded.
    Nothing,
    /// The connection ended normally.
    End,
    /// The connection failed, with this message.
    Failed(String),
}

/// The decision of the child-exited handler.
#[derive(Clone, Debug, PartialEq, Eq)]
pub struct ChildExitDecision {
    pub classification: ExitClassification,
    pub plan: ChildExitPlan,
    pub record: HistoryRecord,
}

/// The plan for a child exit, from the facts the handler reads.
pub open spec fn child_exit_plan_spec(
    session_exists: bool,
    shutting_down: bool,
    is_failure: bool,
    close_on_clean_exit: bool,
) -> ChildExitPlan {
    if !session_exists {
        ChildExitPlan::TabAlreadyClosed
    } else if shutting_down {
        ChildExitPlan::ShuttingDown
    } else if !is_failure && close_on_clean_exit {
        ChildExitPlan::CloseTab
    } else {
        ChildExitPlan::ShowReconnect
    }
}

/// `Exit status: S (Signal: T, Code: C)`.
pub open spec fn exit_failure_message_spec(status: int) -> Seq<char> {
    "Exit status: "@ + signed_decimal_spec(status) + " (Signal: "@ + signed_decimal_spec(
        term_sig_spec(status),
    ) + ", Code: "@ + signed_decimal_spec(exit_code_spec(status)) + ")"@
}

/// The history message for a failed exit.
pub fn exit_failure_message(exit_status: i32) -> (r: String)
    ensures
        r@ == exit_failure_message_spec(exit_status as int),
{
    let c = classify_exit_status(exit_status);
    let mut v = chars_of("Exit status: ");
    append_all(&mut v, &decimal_i64(exit_status as i64));
    append_all(&mut v, &chars_of(" (Signal: "));
    append_all(&mut v, &decimal_i64(c.term_sig as i64));
    append_all(&mut v, &chars_of(", Code: "));
    append_all(&mut v, &decimal_i64(c.exit_code as i64));
    append_all(&mut v, &chars_of(")"));
    crate::text::string_of(&v)
}

/// Decides what the child-exited handler does: the tab may already be gone,
/// the application may be shutting down, a clean exit may close the tab,
/// and otherwise the reconnect overlay is shown. A failure is recorded with
/// its status in the history, any other exit as an end; nothing is
/// recorded while shutting down.
pub fn decide_child_exit(
    exit_status: i32,
    session_exists: bool,
    shutting_down: bool,
    close_on_clean_exit: bool,
) -> (r: ChildExitDecision)
    ensures
        r.classification.term_sig == term_sig_spec(exit_status as int),
        r.classification.exit_code == exit_code_spec(exit_status as int),
        r.classification.is_failure == is_failure_spec(exit_status as int),
        r.plan == child_exit_plan_spec(
            session_exists,
            shutting_down,
            is_failure_spec(exit_status as int),
            close_on_clean_exit,
        ),
        r.plan == ChildExitPlan::TabAlreadyClosed ==> r.record == HistoryRecord::End,
        r.plan == ChildExitPlan::ShuttingDown ==> r.record == HistoryRecord::Nothing,
        (r.plan == ChildExitPlan::CloseTab || r.plan == ChildExitPlan::ShowReconnect) ==> (
        if is_failure_spec(exit_status as int) {
            r.record matches HistoryRecord::Failed(m) && m@ == exit_failure_message_spec(
                exit_status as int,
            )
        } else {
            r.record == HistoryRecord::End
        }),
{
    let c = classify_exit_status(exit_status);
    if !session_exists {
        return ChildExitDecision {
            classification: c,
            plan: ChildExitPlan::TabAlreadyClosed,
            record: HistoryRecord::End,
        };
    }
    if shutting_down {
        return ChildExitDecision {
            classification: c,
            plan: ChildExitPlan::ShuttingDown,
            record: HistoryRecord::Nothing,
        };
    }
    let record = if c.is_failure {
        HistoryRecord::Failed(exit_failure_message(exit_status))
    } else {
        HistoryRecord::End
    };
    let plan = if !c.is_failure && close_on_clean_exit {
        ChildExitPlan::CloseTab
    } else {
        ChildExitPlan::ShowReconnect
    };
    ChildExitDecision { classification: c, plan, record }
}

/// A session whose child a standard termination signal ended (low seven
/// bits 1, 2, 9 or 15), with its tab still open outside shutdown, closes the
/// tab when close-on-clean-exit is on and shows the reconnect overlay
/// otherwise.
pub proof fn standard_termination_closes_tab(
    status: int,
    close_on_clean_exit: bool,
)
    requires
        status % 128 == 1 || status % 128 == 2 || status % 128 == 9 || status % 128 == 15,
    ensures
        child_exit_plan_spec(true, false, is_failure_spec(status), close_on_clean_exit) == (if close_on_clean_exit {
            ChildExitPlan::CloseTab
        } else {
            ChildExitPlan::ShowReconnect
        }),
{
}

/// What the deferred part of the child-exited handler does.
#[derive(Clone, Copy, Debug, PartialEq, Eq)]
pub enum ReconnectOverlayPlan {
    /// The tab was closed before the deferred step ran: only decrement.
    SessionGone,
    /// Show the disconnected tab and the reconnect overlay.
    OverlayOnly,
    /// Show the overlay and poll the host to reconnect when it is back.
    OverlayAndPoll,
}

/// The session the deferred step still finds.
#[derive(Clone, Debug, PartialEq, Eq)]
pub struct ExitedSession {
    /// The session's protocol tag (`ssh`, `telnet`, ...).
    pub protocol: String,
    /// Seconds between the session's start and now.
    pub elapsed_secs: i64,
}

/// Polling for an automatic reconnect starts only after a failure that is
/// neither an SSH authentication failure (exit code 255 on an `ssh`
/// session: the host is reachable, the credentials are wrong) nor a crash
/// within five seconds of the start, and only when the connection still
/// exists with retrying enabled.
pub open spec fn should_poll_spec(
    protocol: Seq<char>,
    elapsed_secs: int,
    is_failure: bool,
    exit_code: int,
    retry_enabled: Option<bool>,
) -> bool {
    &&& is_failure
    &&& !(exit_code == 255 && protocol == "ssh"@)
    &&& !(elapsed_secs < 5)
    &&& retry_enabled == Some(true)
}

/// Decides the deferred step after a child exit. `retry_enabled` is `None`
/// when the connection no longer exists, else whether its retry policy is
/// enabled.
pub fn plan_reconnect_overlay(
    session: Option<ExitedSession>,
    is_failure: bool,
    exit_code: i32,
    retry_enabled: Option<bool>,
) -> (r: ReconnectOverlayPlan)
    ensures
        session is None ==> r == ReconnectOverlayPlan::SessionGone,
        session matches Some(s) ==> (r == if should_poll_spec(
            s.protocol@,
            s.elapsed_secs as int,
            is_failure,
            exit_code as int,
            retry_enabled,
        ) {
            ReconnectOverlayPlan::OverlayAndPoll
        } else {
            ReconnectOverlayPlan::OverlayOnly
        }),
{
    match session {
        None => ReconnectOverlayPlan::SessionGone,
        Some(s) => {
            let is_ssh_auth_failure = exit_code == 255 && str_eq(s.protocol.as_str(), "ssh");
            let is_rapid_crash = s.elapsed_secs < 5;
            let enabled = match retry_enabled {
                Some(e) => e,
                None => false,
            };
            if is_failure && !is_ssh_auth_failure && !is_rapid_crash && retry_enabled.is_some()
                && enabled {
                ReconnectOverlayPlan::OverlayAndPoll
            } else {
                ReconnectOverlayPlan::OverlayOnly
            }
        },
    }
}

} // verus!
