use rustconn_window::quick_connect::{
    default_port, history_visible, optional_field, port_edited, protocol_changed, quick_connect_ready,
    quick_protocol, quick_tab_name, template_at, template_protocol_index, PortField, QuickProtocol,
};
use rustconn_window::remote_desktop::{
    keepass_prefill, rdp_reaction, rdp_resolution, should_store_credentials, vnc_lookup_key, RdpState,
};
use rustconn_window::credentials::{PasswordSourceKind, ProtocolKind, SecretBackend};

#[test]
fn quick_protocols_and_ports() {
    assert_eq!(quick_protocol(0), QuickProtocol::Ssh);
    assert_eq!(quick_protocol(2), QuickProtocol::Vnc);
    assert_eq!(quick_protocol(9), QuickProtocol::Ssh);
    assert_eq!(default_port(0), 22);
    assert_eq!(default_port(1), 3389);
    assert_eq!(default_port(2), 5900);
    assert_eq!(default_port(3), 23);
    assert_eq!(default_port(4), 22);
    assert_eq!(template_protocol_index(ProtocolKind::Telnet), 3);
    assert_eq!(template_protocol_index(ProtocolKind::Mosh), 0);
    assert_eq!(template_at(0, 2), None);
    assert_eq!(template_at(2, 2), Some(1));
    assert_eq!(template_at(3, 2), None);
}

#[test]
fn port_field_follows_protocol_until_edited() {
    let f = PortField { port: 22, manually_changed: false };
    let f = protocol_changed(f, 1);
    assert_eq!(f.port, 3389);
    let f = port_edited(f, 4000);
    let f = protocol_changed(f, 2);
    assert_eq!(f.port, 4000);
    assert!(!f.manually_changed);
    let f = protocol_changed(f, 3);
    assert_eq!(f.port, 23);
}

#[test]
fn history_filter_and_fields() {
    assert!(history_visible("", "host", None));
    assert!(history_visible("HO", "myhost", None));
    assert!(history_visible("ali", "h", Some("Alice")));
    assert!(!history_visible("zz", "h", Some("Alice")));
    assert_eq!(optional_field("  "), None);
    assert_eq!(optional_field(" bob").as_deref(), Some(" bob"));
    assert!(quick_connect_ready(" h "));
    assert!(!quick_connect_ready("   "));
    assert_eq!(quick_tab_name("10.0.0.1"), "Quick: 10.0.0.1");
}

#[test]
fn rdp_resolution_rounds_down_to_four() {
    assert_eq!(rdp_resolution(1923, 1081), (1920, 1080));
    assert_eq!(rdp_resolution(100, 100), (640, 480));
    assert_eq!(rdp_resolution(642, 483), (640, 480));
    assert_eq!(rdp_resolution(0, 0), (640, 480));
}

#[test]
fn rdp_tab_reactions() {
    let r = rdp_reaction(false, RdpState::Connected);
    assert!(r.was_connected && r.mark_connected);
    let r = rdp_reaction(false, RdpState::Disconnected);
    assert!(r.close_tab && r.end_session && !r.mark_disconnected);
    let r = rdp_reaction(true, RdpState::Disconnected);
    assert!(!r.close_tab && r.mark_disconnected && r.end_session);
    let r = rdp_reaction(false, RdpState::Error);
    assert!(r.close_tab && r.record_failure && r.clear_status);
    let r = rdp_reaction(true, RdpState::Error);
    assert!(!r.close_tab && r.record_failure);
    let r = rdp_reaction(true, RdpState::Connecting);
    assert!(r.was_connected && !r.close_tab && !r.mark_connected);
}

#[test]
fn storing_and_keepass_keys() {
    assert!(should_store_credentials(true, None));
    assert!(should_store_credentials(false, Some(PasswordSourceKind::Vault)));
    assert!(!should_store_credentials(false, Some(PasswordSourceKind::Prompt)));
    assert_eq!(vnc_lookup_key("RustConn/Servers/vnc1"), "Servers/vnc1 (vnc)");
    assert_eq!(vnc_lookup_key("Other/vnc1"), "Other/vnc1 (vnc)");
    assert!(keepass_prefill(true, SecretBackend::KdbxFile, true));
    assert!(!keepass_prefill(true, SecretBackend::Bitwarden, true));
    assert!(!keepass_prefill(false, SecretBackend::KeePassXc, true));
}
