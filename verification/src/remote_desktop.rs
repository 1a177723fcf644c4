//! RDP and VNC session rules: the resolution handed to the RDP client, how
//! an embedded RDP tab reacts to its states, when typed credentials are
//! stored, the KeePass key of a VNC password, and which client shows a
//! session.
use vstd::prelude::*;
use crate::credentials::{PasswordSourceKind, SecretBackend};
use crate::text::{chars_of, concat_chars, starts_with, string_of, strip_prefix_exec};

verus! {

/// The narrowest and lowest resolution asked of an RDP server.
pub open spec fn min_rdp_width() -> int {
    640
}

pub open spec fn min_rdp_height() -> int {
    480
}

/// A widget side rounded down to a multiple of 4 (many RDP servers and
/// codecs need that), but not below `min`.
pub open spec fn rdp_side_spec(raw: u32, min: u32) -> u32 {
    let rounded = ((raw / 4) * 4) as u32;
    if rounded < min {
        min
    } else {
        rounded
    }
}

/// The RDP resolution for a widget of `raw_width` by `raw_height` pixels.
pub fn rdp_resolution(raw_width: u32, raw_height: u32) -> (r: (u32, u32))
    ensures
        r.0 == rdp_side_spec(raw_width, 640),
        r.1 == rdp_side_spec(raw_height, 480),
        r.0 % 4 == 0,
        r.1 % 4 == 0,
        r.0 >= min_rdp_width(),
        r.1 >= min_rdp_height(),
        r.0 <= raw_width || r.0 == min_rdp_width(),
        r.1 <= raw_height || r.1 == min_rdp_height(),
{
    let w = (raw_width / 4) * 4;
    let h = (raw_height / 4) * 4;
    let w2 = if w < 640 {
        640
    } else {
        w
    };
    let h2 = if h < 480 {
        480
    } else {
        h
    };
    (w2, h2)
}

/// The states an embedded RDP session reports.
#[derive(Clone, Copy, Debug, PartialEq, Eq, Structural)]
pub enum RdpState {
    Connecting,
    Connected,
    Disconnected,
    Error,
}

/// What the window does on a state change of an embedded RDP tab.
#[derive(Clone, Copy, Debug, PartialEq, Eq, Structural)]
pub struct RdpReaction {
    /// The session has been connected at least once.
    pub was_connected: bool,
    /// Mark the tab connected and count the session.
    pub mark_connected: bool,
    /// Stop recording, uncount the session and close its history entry.
    pub end_session: bool,
    /// Keep the tab, marked disconnected, so it can reconnect.
    pub mark_disconnected: bool,
    /// Close the tab: the session never came up.
    pub close_tab: bool,
    /// Record the failure in history.
    pub record_failure: bool,
    /// Clear the sidebar status.
    pub clear_status: bool,
}

/// One state change of an embedded RDP tab; `was_connected` is whether it
/// was connected before.
pub open spec fn rdp_reaction_spec(was_connected: bool, s: RdpState) -> RdpReaction {
    let none = RdpReaction {
        was_connected,
        mark_connected: false,
        end_session: false,
        mark_disconnected: false,
        close_tab: false,
        record_failure: false,
        clear_status: false,
    };
    match s {
        RdpState::Connected => RdpReaction { was_connected: true, mark_connected: true, ..none },
        RdpState::Disconnected => RdpReaction {
            end_session: true,
            mark_disconnected: was_connected,
            close_tab: !was_connected,
            ..none
        },
        RdpState::Error => RdpReaction {
            record_failure: true,
            close_tab: !was_connected,
            clear_status: !was_connected,
            ..none
        },
        RdpState::Connecting => none,
    }
}

/// How an embedded RDP tab reacts to a state change.
pub fn rdp_reaction(was_connected: bool, s: RdpState) -> (r: RdpReaction)
    ensures
        r == rdp_reaction_spec(was_connected, s),
{
    let mut r = RdpReaction {
        was_connected,
        mark_connected: false,
        end_session: false,
        mark_disconnected: false,
        close_tab: false,
        record_failure: false,
        clear_status: false,
    };
    match s {
        RdpState::Connected => {
            r.was_connected = true;
            r.mark_connected = true;
        },
        RdpState::Disconnected => {
            r.end_session = true;
            r.mark_disconnected = was_connected;
            r.close_tab = !was_connected;
        },
        RdpState::Error => {
            r.record_failure = true;
            r.close_tab = !was_connected;
            r.clear_status = !was_connected;
        },
        RdpState::Connecting => {},
    }
    r
}

/// A tab that was ever connected is never closed by a later state change:
/// once connected it stays "was connected", and a disconnect then keeps it
/// for reconnecting.
pub proof fn rdp_connected_tab_is_kept(s: RdpState)
    ensures
        rdp_reaction_spec(true, s).was_connected,
        !rdp_reaction_spec(true, s).close_tab,
        s == RdpState::Disconnected ==> rdp_reaction_spec(true, s).mark_disconnected,
{
}

/// Typed credentials are stored when the user asks, or when the connection
/// keeps its password in the vault anyway.
pub fn should_store_credentials(save_requested: bool, source: Option<PasswordSourceKind>) -> (r: bool)
    ensures
        r == (save_requested || source == Some(PasswordSourceKind::Vault)),
{
    save_requested || match source {
        Some(s) => s == PasswordSourceKind::Vault,
        None => false,
    }
}

/// The KeePass lookup key of a VNC password: the entry path without its
/// leading `RustConn/`, followed by ` (vnc)`.
pub open spec fn vnc_lookup_key_spec(entry_path: Seq<char>) -> Seq<char> {
    (if starts_with(entry_path, "RustConn/"@) {
        entry_path.subrange(9, entry_path.len() as int)
    } else {
        entry_path
    }) + " (vnc)"@
}

/// The KeePass lookup key of a VNC password.
pub fn vnc_lookup_key(entry_path: &str) -> (r: String)
    ensures
        r@ == vnc_lookup_key_spec(entry_path@),
{
    proof {
        reveal_strlit("RustConn/");
    }
    let p = chars_of(entry_path);
    let name = match strip_prefix_exec(&p, &chars_of("RustConn/")) {
        Some(rest) => rest,
        None => p,
    };
    string_of(&concat_chars(&name, &chars_of(" (vnc)")))
}

/// The password dialog tries the KeePass database first when KeePass is
/// the enabled backend and a database is configured.
pub fn keepass_prefill(kdbx_enabled: bool, backend: SecretBackend, kdbx_path_set: bool) -> (r: bool)
    ensures
        r == (kdbx_enabled && (backend == SecretBackend::KeePassXc || backend == SecretBackend::KdbxFile)
            && kdbx_path_set),
{
    let keepass = match backend {
        SecretBackend::KeePassXc | SecretBackend::KdbxFile => true,
        _ => false,
    };
    kdbx_enabled && keepass && kdbx_path_set
}


/// How a connection's session is shown.
#[derive(Clone, Copy, Debug, PartialEq, Eq, Structural)]
pub enum WindowMode {
    /// In its tab.
    InTab,
    /// In an external window.
    External,
    /// In its tab, with the main window maximized.
    Fullscreen,
}

/// The client a remote-desktop session runs in.
#[derive(Clone, Copy, Debug, PartialEq, Eq, Structural)]
pub enum ClientMode {
    Embedded,
    External,
}

/// The client of a session and whether the main window is maximized.
#[derive(Clone, Copy, Debug, PartialEq, Eq, Structural)]
pub struct DisplayPlan {
    pub client: ClientMode,
    pub maximize: bool,
}

/// A VNC session uses the external viewer when its window mode is external,
/// else the configured client; fullscreen maximizes the main window.
pub open spec fn vnc_display_spec(window: WindowMode, configured: ClientMode) -> DisplayPlan {
    DisplayPlan {
        client: if window == WindowMode::External { ClientMode::External } else { configured },
        maximize: window == WindowMode::Fullscreen,
    }
}

/// How a VNC session is shown.
pub fn vnc_display_plan(window: WindowMode, configured: ClientMode) -> (r: DisplayPlan)
    ensures
        r == vnc_display_spec(window, configured),
{
    let client = match window {
        WindowMode::External => ClientMode::External,
        _ => configured,
    };
    let maximize = match window {
        WindowMode::Fullscreen => true,
        _ => false,
    };
    DisplayPlan { client, maximize }
}

/// An RDP session runs in the configured client; only an embedded session
/// in fullscreen mode maximizes the main window.
pub open spec fn rdp_display_spec(window: WindowMode, configured: ClientMode) -> DisplayPlan {
    DisplayPlan {
        client: configured,
        maximize: configured == ClientMode::Embedded && window == WindowMode::Fullscreen,
    }
}

/// How an RDP session is shown.
pub fn rdp_display_plan(window: WindowMode, configured: ClientMode) -> (r: DisplayPlan)
    ensures
        r == rdp_display_spec(window, configured),
{
    let maximize = match (configured, window) {
        (ClientMode::Embedded, WindowMode::Fullscreen) => true,
        _ => false,
    };
    DisplayPlan { client: configured, maximize }
}

} // verus!
