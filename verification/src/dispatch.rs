//! Window-level decisions: which starter a protocol goes to, what a start
//! attempt reports, how a disconnected tab reconnects, the sidebar width
//! kept between runs, closing the window, and the protocol filters of the
//! sidebar search.
use vstd::prelude::*;
use crate::text::{
    chars_of, split_exec, split_spec, starts_with, starts_with_exec, str_eq, str_to_lowercase,
    str_views, strings_of, strip_prefix_exec, trim_exec, trim_spec, unicode_lowercase, views,
    opt_view,
};

verus! {

// ---------------------------------------------------------------------------
// Starting a connection
// ---------------------------------------------------------------------------

/// The starter a protocol name is routed to.
#[derive(Clone, Copy, Debug, PartialEq, Eq, Structural)]
pub enum ProtocolRoute {
    Ssh,
    Vnc,
    /// RDP needs credentials first and starts elsewhere.
    Rdp,
    Spice,
    Telnet,
    Serial,
    Kubernetes,
    Mosh,
    ZeroTrust,
    Sftp,
    Web,
    Unknown,
}

/// The route of a protocol name: `zerotrust` alone or with a `zerotrust:`
/// provider suffix goes to Zero Trust; unknown names start nothing.
pub open spec fn route_spec(p: Seq<char>) -> ProtocolRoute {
    if p == "ssh"@ {
        ProtocolRoute::Ssh
    } else if p == "vnc"@ {
        ProtocolRoute::Vnc
    } else if p == "rdp"@ {
        ProtocolRoute::Rdp
    } else if p == "spice"@ {
        ProtocolRoute::Spice
    } else if p == "telnet"@ {
        ProtocolRoute::Telnet
    } else if p == "serial"@ {
        ProtocolRoute::Serial
    } else if p == "kubernetes"@ {
        ProtocolRoute::Kubernetes
    } else if p == "mosh"@ {
        ProtocolRoute::Mosh
    } else if p == "zerotrust"@ || starts_with(p, "zerotrust:"@) {
        ProtocolRoute::ZeroTrust
    } else if p == "sftp"@ {
        ProtocolRoute::Sftp
    } else if p == "web"@ {
        ProtocolRoute::Web
    } else {
        ProtocolRoute::Unknown
    }
}

/// Each known protocol tag routes to its own starter and to no other:
/// `ssh` to SSH, `vnc` to VNC, `rdp` to RDP, `spice` to SPICE, `telnet` to
/// Telnet, `serial` to serial, `kubernetes` to Kubernetes, `mosh` to Mosh,
/// `sftp` to SFTP, `web` to the web starter, and `zerotrust` alone or with a
/// `zerotrust:` provider suffix to Zero Trust. Only a tag outside that list
/// routes nowhere.
pub proof fn each_protocol_tag_routes_to_its_starter(p: Seq<char>)
    ensures
        (route_spec(p) == ProtocolRoute::Ssh) <==> p == "ssh"@,
        (route_spec(p) == ProtocolRoute::Vnc) <==> p == "vnc"@,
        (route_spec(p) == ProtocolRoute::Rdp) <==> p == "rdp"@,
        (route_spec(p) == ProtocolRoute::Spice) <==> p == "spice"@,
        (route_spec(p) == ProtocolRoute::Telnet) <==> p == "telnet"@,
        (route_spec(p) == ProtocolRoute::Serial) <==> p == "serial"@,
        (route_spec(p) == ProtocolRoute::Kubernetes) <==> p == "kubernetes"@,
        (route_spec(p) == ProtocolRoute::Mosh) <==> p == "mosh"@,
        (route_spec(p) == ProtocolRoute::Sftp) <==> p == "sftp"@,
        (route_spec(p) == ProtocolRoute::Web) <==> p == "web"@,
        (route_spec(p) == ProtocolRoute::ZeroTrust) <==> (p == "zerotrust"@ || starts_with(
            p,
            "zerotrust:"@,
        )),
        (route_spec(p) == ProtocolRoute::Unknown) <==> !(p == "ssh"@ || p == "vnc"@ || p
            == "rdp"@ || p == "spice"@ || p == "telnet"@ || p == "serial"@ || p == "kubernetes"@
            || p == "mosh"@ || p == "sftp"@ || p == "web"@ || p == "zerotrust"@ || starts_with(
            p,
            "zerotrust:"@,
        )),
{
    reveal_strlit("ssh");
    reveal_strlit("vnc");
    reveal_strlit("rdp");
    reveal_strlit("spice");
    reveal_strlit("telnet");
    reveal_strlit("serial");
    reveal_strlit("kubernetes");
    reveal_strlit("mosh");
    reveal_strlit("sftp");
    reveal_strlit("web");
    reveal_strlit("zerotrust");
    reveal_strlit("zerotrust:");
    assert("ssh"@[0] != "vnc"@[0]);
    assert("ssh"@[0] != "rdp"@[0]);
    assert("ssh"@[0] != "web"@[0]);
    assert("vnc"@[0] != "rdp"@[0]);
    assert("vnc"@[0] != "web"@[0]);
    assert("rdp"@[0] != "web"@[0]);
    assert("telnet"@[0] != "serial"@[0]);
    assert("mosh"@[0] != "sftp"@[0]);
    if starts_with(p, "zerotrust:"@) {
        assert(p.subrange(0, 10)[0] == p[0]);
        assert(p[0] == 'z');
        assert(p != "kubernetes"@) by {
            assert("kubernetes"@[0] == 'k');
        }
    }
}

/// Routes a protocol name to its starter.
pub fn route_protocol(protocol: &str) -> (r: ProtocolRoute)
    ensures
        r == route_spec(protocol@),
{
    if str_eq(protocol, "ssh") {
        ProtocolRoute::Ssh
    } else if str_eq(protocol, "vnc") {
        ProtocolRoute::Vnc
    } else if str_eq(protocol, "rdp") {
        ProtocolRoute::Rdp
    } else if str_eq(protocol, "spice") {
        ProtocolRoute::Spice
    } else if str_eq(protocol, "telnet") {
        ProtocolRoute::Telnet
    } else if str_eq(protocol, "serial") {
        ProtocolRoute::Serial
    } else if str_eq(protocol, "kubernetes") {
        ProtocolRoute::Kubernetes
    } else if str_eq(protocol, "mosh") {
        ProtocolRoute::Mosh
    } else if str_eq(protocol, "zerotrust") || starts_with_exec(&chars_of(protocol), &chars_of("zerotrust:")) {
        ProtocolRoute::ZeroTrust
    } else if str_eq(protocol, "sftp") {
        ProtocolRoute::Sftp
    } else if str_eq(protocol, "web") {
        ProtocolRoute::Web
    } else {
        ProtocolRoute::Unknown
    }
}

/// What a start attempt reports.
#[derive(Clone, Copy, Debug, PartialEq, Eq, Structural)]
pub enum ConnectionStartResult {
    /// A session was created.
    Started(u128),
    /// A port check runs in the background; the session comes later.
    Pending,
    Failed,
}

/// The protocols whose starters may first probe the port in the background.
pub open spec fn may_be_pending_spec(p: Seq<char>) -> bool {
    p == "ssh"@ || p == "vnc"@ || p == "spice"@ || p == "telnet"@ || p == "mosh"@
}

/// What a start attempt of `protocol` reports when the starter returned
/// `session`.
pub fn start_result(protocol: &str, session: Option<u128>) -> (r: ConnectionStartResult)
    ensures
        r == (match session {
            Some(id) => ConnectionStartResult::Started(id),
            None => if may_be_pending_spec(protocol@) {
                ConnectionStartResult::Pending
            } else {
                ConnectionStartResult::Failed
            },
        }),
{
    match session {
        Some(id) => ConnectionStartResult::Started(id),
        None => {
            let pending = str_eq(protocol, "ssh") || str_eq(protocol, "vnc") || str_eq(protocol, "spice")
                || str_eq(protocol, "telnet") || str_eq(protocol, "mosh");
            if pending {
                ConnectionStartResult::Pending
            } else {
                ConnectionStartResult::Failed
            }
        },
    }
}

/// A failed pre-connect task stops the connection when it asks to.
pub fn pre_connect_aborts(task_failed: bool, abort_on_failure: bool) -> (r: bool)
    ensures
        r == (task_failed && abort_on_failure),
{
    task_failed && abort_on_failure
}

// ---------------------------------------------------------------------------
// Sessions in tabs and panes
// ---------------------------------------------------------------------------

/// Protocols shown in a terminal (VTE) tab.
pub open spec fn is_vte_spec(p: Seq<char>) -> bool {
    p == "ssh"@ || p == "telnet"@ || p == "serial"@ || p == "kubernetes"@ || p == "mosh"@
        || starts_with(p, "zerotrust"@)
}

/// Whether a protocol runs in a terminal tab.
pub fn is_vte_protocol(protocol: &str) -> (r: bool)
    ensures
        r == is_vte_spec(protocol@),
{
    str_eq(protocol, "ssh") || str_eq(protocol, "telnet") || str_eq(protocol, "serial")
        || str_eq(protocol, "kubernetes") || str_eq(protocol, "mosh")
        || starts_with_exec(&chars_of(protocol), &chars_of("zerotrust"))
}

/// How a disconnected tab is reconnected.
#[derive(Clone, Copy, Debug, PartialEq, Eq, Structural)]
pub enum ReconnectPlan {
    /// Reuse the terminal and start `ssh` again in it.
    InPlaceSsh,
    /// Reuse the terminal for another terminal protocol.
    InPlaceGeneric,
    /// Close the tab and start the connection anew.
    Recreate,
}

/// Terminal sessions reconnect in place (SSH by its own path); other
/// sessions, or ones whose protocol is unknown, are recreated.
pub open spec fn reconnect_plan_spec(protocol: Option<Seq<char>>) -> ReconnectPlan {
    match protocol {
        Some(p) => if !is_vte_spec(p) {
            ReconnectPlan::Recreate
        } else if p == "ssh"@ {
            ReconnectPlan::InPlaceSsh
        } else {
            ReconnectPlan::InPlaceGeneric
        },
        None => ReconnectPlan::Recreate,
    }
}

/// How to reconnect a session of `protocol`.
pub fn reconnect_plan(protocol: Option<&str>) -> (r: ReconnectPlan)
    ensures
        r == reconnect_plan_spec(opt_view(protocol)),
{
    match protocol {
        Some(p) => if !is_vte_protocol(p) {
            ReconnectPlan::Recreate
        } else if str_eq(p, "ssh") {
            ReconnectPlan::InPlaceSsh
        } else {
            ReconnectPlan::InPlaceGeneric
        },
        None => ReconnectPlan::Recreate,
    }
}

/// After a recreated tab: the new (last) page moves back to the old tab's
/// position, when the old position is known and a page was added. Returns
/// the new page's index and the position to move it to.
pub fn recreated_tab_move(old_position: Option<u32>, tabs_before: u32, tabs_after: u32) -> (r: Option<(u32, u32)>)
    ensures
        r == (match old_position {
            Some(pos) => if tabs_after > tabs_before {
                Some(((tabs_after - 1) as u32, pos))
            } else {
                None
            },
            None => None,
        }),
{
    match old_position {
        Some(pos) => if tabs_after > tabs_before {
            Some((tabs_after - 1, pos))
        } else {
            None
        },
        None => None,
    }
}

/// Sessions drawn directly in the tab (no terminal).
pub open spec fn displays_in_tab_spec(p: Seq<char>) -> bool {
    p == "vnc"@ || p == "rdp"@ || p == "spice"@
}

/// Whether a session of `protocol` is drawn directly in its tab.
pub fn displays_in_tab(protocol: &str) -> (r: bool)
    ensures
        r == displays_in_tab_spec(protocol@),
{
    str_eq(protocol, "vnc") || str_eq(protocol, "rdp") || str_eq(protocol, "spice")
}

/// Sessions that may be moved into a split pane.
pub open spec fn split_selectable_spec(p: Seq<char>) -> bool {
    p == "ssh"@ || p == "local"@ || starts_with(p, "zerotrust"@)
}

/// Whether a session of `protocol` may be moved into a split pane.
pub fn split_selectable(protocol: &str) -> (r: bool)
    ensures
        r == split_selectable_spec(protocol@),
{
    str_eq(protocol, "ssh") || str_eq(protocol, "local") || starts_with_exec(&chars_of(protocol), &chars_of("zerotrust"))
}

/// A Zero Trust session counts as established once any output moved the
/// cursor off the first row.
pub fn zero_trust_established(cursor_row: Option<i64>) -> (r: bool)
    ensures
        r == (cursor_row is Some && cursor_row.unwrap() > 0),
{
    match cursor_row {
        Some(row) => row > 0,
        None => false,
    }
}

// ---------------------------------------------------------------------------
// Window geometry
// ---------------------------------------------------------------------------

/// The narrowest and widest sidebar.
pub open spec fn sidebar_min() -> int {
    260
}

pub open spec fn sidebar_max() -> int {
    500
}

/// The saved sidebar width is used when it lies in `260..=500`; anything
/// else (set by an older version, or too narrow) falls back to 320.
pub open spec fn restore_sidebar_width_spec(saved: Option<i32>) -> i32 {
    match saved {
        Some(w) => if 260 <= w <= 500 {
            w
        } else {
            320
        },
        None => 320,
    }
}

/// The sidebar width to start with.
pub fn restore_sidebar_width(saved: Option<i32>) -> (r: i32)
    ensures
        r == restore_sidebar_width_spec(saved),
        sidebar_min() <= r <= sidebar_max(),
{
    match saved {
        Some(w) => if 260 <= w && w <= 500 {
            w
        } else {
            320
        },
        None => 320,
    }
}

/// The sidebar width saved on close: never narrower than 260.
pub fn saved_sidebar_width(current: i32) -> (r: i32)
    ensures
        r == (if current < 260 { 260 } else { current }),
{
    if current < 260 {
        260
    } else {
        current
    }
}

/// A width saved on close comes back unchanged at the next start when it
/// does not exceed 500, and a restored width always lies in `260..=500`.
pub proof fn sidebar_width_round_trip(current: i32, saved: Option<i32>)
    ensures
        260 <= current <= 500 ==> restore_sidebar_width_spec(Some(current)) == current,
        current <= 500 ==> restore_sidebar_width_spec(Some(if current < 260 { 260i32 } else { current })) == (
        if current < 260 {
            260i32
        } else {
            current
        }),
        sidebar_min() <= restore_sidebar_width_spec(saved) <= sidebar_max(),
{
}

/// The saved window size is applied when remembered and both sides are
/// positive.
pub fn saved_window_size(remember: bool, width: Option<i32>, height: Option<i32>) -> (r: Option<(i32, i32)>)
    ensures
        r == (if remember && width is Some && height is Some && width.unwrap() > 0 && height.unwrap() > 0 {
            Some((width.unwrap(), height.unwrap()))
        } else {
            None
        }),
{
    if !remember {
        return None;
    }
    match (width, height) {
        (Some(w), Some(h)) => if w > 0 && h > 0 {
            Some((w, h))
        } else {
            None
        },
        _ => None,
    }
}

/// What a close request of the main window leads to.
#[derive(Clone, Copy, Debug, PartialEq, Eq, Structural)]
pub enum CloseDecision {
    /// Ask before closing open sessions.
    Confirm,
    /// Hide the window; the application keeps running in the tray.
    HideToTray,
    Close,
}

/// With minimize-to-tray (and the tray icon) the window hides; otherwise it
/// asks first while sessions are open, unless the user already confirmed.
pub open spec fn close_decision_spec(minimize_to_tray: bool, tray_icon: bool, force_close: bool, open_sessions: usize) -> CloseDecision {
    if minimize_to_tray && tray_icon {
        CloseDecision::HideToTray
    } else if !force_close && open_sessions > 0 {
        CloseDecision::Confirm
    } else {
        CloseDecision::Close
    }
}

/// Decides what a close request does.
pub fn close_decision(minimize_to_tray: bool, tray_icon: bool, force_close: bool, open_sessions: usize) -> (r: CloseDecision)
    ensures
        r == close_decision_spec(minimize_to_tray, tray_icon, force_close, open_sessions),
{
    if minimize_to_tray && tray_icon {
        CloseDecision::HideToTray
    } else if !force_close && open_sessions > 0 {
        CloseDecision::Confirm
    } else {
        CloseDecision::Close
    }
}

/// Once the user confirmed, the next close request closes (or hides), and a
/// request never asks when no session is open.
pub proof fn close_after_confirm(minimize_to_tray: bool, tray_icon: bool, open_sessions: usize)
    ensures
        close_decision_spec(minimize_to_tray, tray_icon, true, open_sessions) != CloseDecision::Confirm,
        close_decision_spec(minimize_to_tray, tray_icon, false, 0) != CloseDecision::Confirm,
{
}

// ---------------------------------------------------------------------------
// Protocol filters of the sidebar search
// ---------------------------------------------------------------------------

/// `s` with the prefix `p` removed, when it has it.
pub open spec fn strip_spec(s: Seq<char>, p: Seq<char>) -> Option<Seq<char>> {
    if starts_with(s, p) {
        Some(s.subrange(p.len() as int, s.len() as int))
    } else {
        None
    }
}

/// The protocol names a search query filters by: `protocol:`, `proto:` or
/// `p:` and one name (trimmed), or `protocols:` and names separated by
/// commas. Any other query is a text search (`None`).
pub open spec fn protocol_filter_spec(q: Seq<char>) -> Option<Seq<Seq<char>>> {
    let single = match strip_spec(q, "protocol:"@) {
        Some(r) => Some(r),
        None => match strip_spec(q, "proto:"@) {
            Some(r) => Some(r),
            None => strip_spec(q, "p:"@),
        },
    };
    match single {
        Some(name) => Some(seq![trim_spec(name)]),
        None => match strip_spec(q, "protocols:"@) {
            Some(list) => Some(split_spec(list, ',')),
            None => None,
        },
    }
}

/// The protocol names a search query filters by, if it is a filter.
pub fn parse_protocol_filter(query: &str) -> (r: Option<Vec<String>>)
    ensures
        match r {
            Some(v) => protocol_filter_spec(query@) == Some(str_views(v@)),
            None => protocol_filter_spec(query@) is None,
        },
{
    let q = chars_of(query);
    let single = match strip_prefix_exec(&q, &chars_of("protocol:")) {
        Some(r) => Some(r),
        None => match strip_prefix_exec(&q, &chars_of("proto:")) {
            Some(r) => Some(r),
            None => strip_prefix_exec(&q, &chars_of("p:")),
        },
    };
    match single {
        Some(name) => {
            let t = trim_exec(&name);
            let mut v: Vec<Vec<char>> = Vec::new();
            v.push(t);
            let r = strings_of(&v);
            assert(views(v@) =~= seq![trim_spec(name@)]);
            Some(r)
        },
        None => match strip_prefix_exec(&q, &chars_of("protocols:")) {
            Some(list) => {
                let parts = split_exec(&list, ',');
                Some(strings_of(&parts))
            },
            None => None,
        },
    }
}

/// A connection passes the filter when its protocol name equals one of the
/// names, both lowercased.
pub open spec fn protocol_matches_spec(names: Seq<Seq<char>>, protocol: Seq<char>) -> bool {
    exists|i: int| 0 <= i < names.len() && unicode_lowercase(#[trigger] names[i]) == unicode_lowercase(protocol)
}

/// Whether `protocol` is one of `names`, ignoring case.
pub fn protocol_matches(names: &[String], protocol: &str) -> (r: bool)
    ensures
        r == protocol_matches_spec(str_views(names@), protocol@),
{
    let target = str_to_lowercase(protocol);
    let ghost n = str_views(names@);
    let mut i: usize = 0;
    while i < names.len()
        invariant
            i <= names.len(),
            n == str_views(names@),
            target@ == unicode_lowercase(protocol@),
            forall|j: int| 0 <= j < i ==> unicode_lowercase(#[trigger] n[j]) != unicode_lowercase(protocol@),
        decreases names.len() - i,
    {
        let l = str_to_lowercase(names[i].as_str());
        assert(n[i as int] == names@[i as int]@);
        if str_eq(l.as_str(), target.as_str()) {
            return true;
        }
        i = i + 1;
    }
    false
}

/// The indices of the connections (by protocol name) that pass the filter,
/// in order.
pub open spec fn filter_indices_spec(names: Seq<Seq<char>>, protocols: Seq<Seq<char>>) -> Seq<int>
    decreases protocols.len(),
{
    if protocols.len() == 0 {
        Seq::empty()
    } else {
        let rest = filter_indices_spec(names, protocols.drop_last());
        if protocol_matches_spec(names, protocols.last()) {
            rest.push(protocols.len() - 1)
        } else {
            rest
        }
    }
}

/// The indices of the connections whose protocol passes the filter.
pub fn filter_by_protocol(names: &[String], protocols: &[String]) -> (r: Vec<usize>)
    ensures
        r@.map_values(|i: usize| i as int) == filter_indices_spec(str_views(names@), str_views(protocols@)),
{
    let mut out: Vec<usize> = Vec::new();
    let mut i: usize = 0;
    while i < protocols.len()
        invariant
            i <= protocols.len(),
            out@.map_values(|k: usize| k as int) == filter_indices_spec(
                str_views(names@),
                str_views(protocols@).take(i as int),
            ),
        decreases protocols.len() - i,
    {
        assert(str_views(protocols@).take(i + 1).drop_last() =~= str_views(protocols@).take(i as int));
        assert(str_views(protocols@).take(i + 1).last() == protocols@[i as int]@);
        let ghost before = out@;
        if protocol_matches(names, protocols[i].as_str()) {
            out.push(i);
            assert(out@.map_values(|k: usize| k as int) =~= before.map_values(|k: usize| k as int).push(i as int));
        }
        i = i + 1;
    }
    assert(str_views(protocols@).take(protocols.len() as int) =~= str_views(protocols@));
    out
}

/// A debounced search runs only if its query is still the pending one.
pub fn debounced_search_due(pending: Option<&str>, query: &str) -> (r: bool)
    ensures
        r == (opt_view(pending) == Some(query@)),
{
    match pending {
        Some(p) => str_eq(p, query),
        None => false,
    }
}


/// The sidebar width applied from the settings: clamped to `260..=500`.
pub fn clamp_sidebar_width(w: i32) -> (r: i32)
    ensures
        r == (if w < 260 { 260 } else if w > 500 { 500 } else { w }),
        sidebar_min() <= r <= sidebar_max(),
{
    if w < 260 {
        260
    } else if w > 500 {
        500
    } else {
        w
    }
}

/// Command-palette entries that run a window action.
#[derive(Clone, Copy, Debug, PartialEq, Eq, Structural)]
pub enum PaletteCommand {
    OpenSettings,
    NewConnection,
    NewGroup,
    Import,
    Export,
    LocalShell,
    QuickConnect,
    /// An entry handled elsewhere (or not at all).
    Other,
}

/// The window action a palette command runs.
pub open spec fn palette_action_spec(c: PaletteCommand) -> Option<Seq<char>> {
    match c {
        PaletteCommand::OpenSettings => Some("settings"@),
        PaletteCommand::NewConnection => Some("new-connection"@),
        PaletteCommand::NewGroup => Some("new-group"@),
        PaletteCommand::Import => Some("import"@),
        PaletteCommand::Export => Some("export"@),
        PaletteCommand::LocalShell => Some("local-shell"@),
        PaletteCommand::QuickConnect => Some("quick-connect"@),
        PaletteCommand::Other => None,
    }
}

/// The name of the window action a palette command runs.
pub fn palette_action(c: PaletteCommand) -> (r: Option<&'static str>)
    ensures
        opt_view(r) == palette_action_spec(c),
{
    match c {
        PaletteCommand::OpenSettings => Some("settings"),
        PaletteCommand::NewConnection => Some("new-connection"),
        PaletteCommand::NewGroup => Some("new-group"),
        PaletteCommand::Import => Some("import"),
        PaletteCommand::Export => Some("export"),
        PaletteCommand::LocalShell => Some("local-shell"),
        PaletteCommand::QuickConnect => Some("quick-connect"),
        PaletteCommand::Other => None,
    }
}
} // verus!
