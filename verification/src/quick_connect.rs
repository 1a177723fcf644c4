//! The quick-connect dialog: default ports per protocol, when a protocol
//! change may overwrite the port, templates, the history filter and the
//! values a connection starts with.
use vstd::prelude::*;
use crate::credentials::ProtocolKind;
use crate::text::{
    chars_of, concat_chars, contains_exec, contains_seq, opt_view, str_to_lowercase, string_of,
    trim_exec, trim_spec, unicode_lowercase,
};

verus! {

/// The quick-connect protocols, by their index in the dropdown.
#[derive(Clone, Copy, Debug, PartialEq, Eq, Structural)]
pub enum QuickProtocol {
    Ssh,
    Rdp,
    Vnc,
    Telnet,
}

/// Index 1 is RDP, 2 VNC, 3 Telnet; 0 and any other index are SSH.
pub open spec fn quick_protocol_spec(index: u32) -> QuickProtocol {
    if index == 1 {
        QuickProtocol::Rdp
    } else if index == 2 {
        QuickProtocol::Vnc
    } else if index == 3 {
        QuickProtocol::Telnet
    } else {
        QuickProtocol::Ssh
    }
}

/// The protocol chosen in the dropdown.
pub fn quick_protocol(index: u32) -> (r: QuickProtocol)
    ensures
        r == quick_protocol_spec(index),
{
    if index == 1 {
        QuickProtocol::Rdp
    } else if index == 2 {
        QuickProtocol::Vnc
    } else if index == 3 {
        QuickProtocol::Telnet
    } else {
        QuickProtocol::Ssh
    }
}

/// The default port of the protocol at a dropdown index.
pub open spec fn default_port_spec(index: u32) -> u16 {
    match quick_protocol_spec(index) {
        QuickProtocol::Rdp => 3389,
        QuickProtocol::Vnc => 5900,
        QuickProtocol::Telnet => 23,
        QuickProtocol::Ssh => 22,
    }
}

/// The default port of the protocol at a dropdown index.
pub fn default_port(index: u32) -> (r: u16)
    ensures
        r == default_port_spec(index),
{
    match quick_protocol(index) {
        QuickProtocol::Rdp => 3389,
        QuickProtocol::Vnc => 5900,
        QuickProtocol::Telnet => 23,
        QuickProtocol::Ssh => 22,
    }
}

/// The dropdown index of a template's protocol: SSH, RDP, VNC and Telnet
/// have their own; any other protocol selects SSH.
pub fn template_protocol_index(p: ProtocolKind) -> (r: u32)
    ensures
        r == (match p {
            ProtocolKind::Rdp => 1u32,
            ProtocolKind::Vnc => 2u32,
            ProtocolKind::Telnet => 3u32,
            _ => 0u32,
        }),
{
    match p {
        ProtocolKind::Rdp => 1,
        ProtocolKind::Vnc => 2,
        ProtocolKind::Telnet => 3,
        _ => 0,
    }
}

/// The template at a dropdown index: index 0 is "(None)".
pub fn template_at(selected: u32, template_count: usize) -> (r: Option<usize>)
    ensures
        r == (if selected == 0 || selected as int > template_count {
            None
        } else {
            Some((selected - 1) as usize)
        }),
{
    if selected == 0 {
        return None;
    }
    let i: usize = (selected - 1) as usize;
    if i < template_count {
        Some(i)
    } else {
        None
    }
}

/// The port field and whether the user changed it since the protocol was
/// last chosen.
#[derive(Clone, Copy, Debug, PartialEq, Eq, Structural)]
pub struct PortField {
    pub port: u16,
    pub manually_changed: bool,
}

/// The port field when the dialog opens (SSH, port 22).
pub open spec fn port_field_initial() -> PortField {
    PortField { port: 22, manually_changed: false }
}

/// A new port value (typed, or set by a template).
pub open spec fn port_edited_spec(f: PortField, port: u16) -> PortField {
    PortField { port, manually_changed: true }
}

/// The port field after the user (or a template) set the port.
pub fn port_edited(f: PortField, port: u16) -> (r: PortField)
    ensures
        r == port_edited_spec(f, port),
{
    PortField { port, manually_changed: true }
}

/// A protocol change sets the protocol's default port unless the port was
/// changed by hand since the last change; either way the next protocol
/// change may set the port again.
pub open spec fn protocol_changed_spec(f: PortField, index: u32) -> PortField {
    PortField {
        port: if f.manually_changed { f.port } else { default_port_spec(index) },
        manually_changed: false,
    }
}

/// The port field after a protocol change.
pub fn protocol_changed(f: PortField, index: u32) -> (r: PortField)
    ensures
        r == protocol_changed_spec(f, index),
{
    let port = if f.manually_changed {
        f.port
    } else {
        default_port(index)
    };
    PortField { port, manually_changed: false }
}

/// A port typed by hand survives the next protocol change, and two
/// protocol changes in a row end on the latter's default port; the dialog
/// opens on SSH's default port, which a first protocol change replaces by
/// the chosen protocol's default.
pub proof fn manual_port_survives_one_change(f: PortField, port: u16, a: u32, b: u32)
    ensures
        protocol_changed_spec(port_edited_spec(f, port), a).port == port,
        protocol_changed_spec(protocol_changed_spec(f, a), b).port == default_port_spec(b),
        !protocol_changed_spec(f, a).manually_changed,
        port_field_initial().port == default_port_spec(0),
        protocol_changed_spec(port_field_initial(), a).port == default_port_spec(a),
{
}

/// A history entry shows when the filter is empty or occurs, ignoring case,
/// in its host or user name.
pub open spec fn history_visible_spec(filter: Seq<char>, host: Seq<char>, username: Option<Seq<char>>) -> bool {
    let f = unicode_lowercase(filter);
    f.len() == 0 || contains_seq(unicode_lowercase(host), f) || match username {
        Some(u) => contains_seq(unicode_lowercase(u), f),
        None => false,
    }
}

/// Whether a history entry shows for the text typed in the host field.
pub fn history_visible(filter: &str, host: &str, username: Option<&str>) -> (r: bool)
    ensures
        r == history_visible_spec(filter@, host@, opt_view(username)),
{
    let f = chars_of(str_to_lowercase(filter).as_str());
    if f.len() == 0 {
        return true;
    }
    if contains_exec(&chars_of(str_to_lowercase(host).as_str()), &f) {
        return true;
    }
    match username {
        Some(u) => contains_exec(&chars_of(str_to_lowercase(u).as_str()), &f),
        None => false,
    }
}

/// An optional field: `None` when blank, else the text as typed.
pub fn optional_field(text: &str) -> (r: Option<String>)
    ensures
        match r {
            Some(s) => trim_spec(text@).len() > 0 && s@ == text@,
            None => trim_spec(text@).len() == 0,
        },
{
    if trim_exec(&chars_of(text)).len() == 0 {
        None
    } else {
        Some(string_of(&chars_of(text)))
    }
}

/// A quick connection needs a host that is not blank.
pub fn quick_connect_ready(host: &str) -> (r: bool)
    ensures
        r == (trim_spec(host@).len() > 0),
{
    trim_exec(&chars_of(host)).len() > 0
}

/// The tab title of a quick connection: `Quick: <host>`.
pub fn quick_tab_name(host: &str) -> (r: String)
    ensures
        r@ == "Quick: "@ + host@,
{
    string_of(&concat_chars(&chars_of("Quick: "), &chars_of(host)))
}

} // verus!
