use rustconn_window::dispatch::{
    clamp_sidebar_width, close_decision, debounced_search_due, displays_in_tab, filter_by_protocol,
    is_vte_protocol, palette_action, parse_protocol_filter, pre_connect_aborts, protocol_matches,
    reconnect_plan, recreated_tab_move, restore_sidebar_width, route_protocol, saved_sidebar_width,
    saved_window_size, split_selectable, start_result, zero_trust_established, CloseDecision,
    ConnectionStartResult, PaletteCommand, ProtocolRoute, ReconnectPlan,
};

fn strings(v: &[&str]) -> Vec<String> {
    v.iter().map(|s| s.to_string()).collect()
}

#[test]
fn routes_each_protocol() {
    assert_eq!(route_protocol("ssh"), ProtocolRoute::Ssh);
    assert_eq!(route_protocol("rdp"), ProtocolRoute::Rdp);
    assert_eq!(route_protocol("zerotrust"), ProtocolRoute::ZeroTrust);
    assert_eq!(route_protocol("zerotrust:aws"), ProtocolRoute::ZeroTrust);
    assert_eq!(route_protocol("zerotrustx"), ProtocolRoute::Unknown);
    assert_eq!(route_protocol("web"), ProtocolRoute::Web);
    assert_eq!(route_protocol("SSH"), ProtocolRoute::Unknown);
}

#[test]
fn start_results() {
    assert_eq!(start_result("telnet", Some(7)), ConnectionStartResult::Started(7));
    assert_eq!(start_result("vnc", None), ConnectionStartResult::Pending);
    assert_eq!(start_result("rdp", None), ConnectionStartResult::Failed);
    assert_eq!(start_result("serial", None), ConnectionStartResult::Failed);
    assert!(pre_connect_aborts(true, true));
    assert!(!pre_connect_aborts(true, false));
}

#[test]
fn reconnect_plans() {
    assert_eq!(reconnect_plan(Some("ssh")), ReconnectPlan::InPlaceSsh);
    assert_eq!(reconnect_plan(Some("zerotrust:gcloud")), ReconnectPlan::InPlaceGeneric);
    assert_eq!(reconnect_plan(Some("vnc")), ReconnectPlan::Recreate);
    assert_eq!(reconnect_plan(None), ReconnectPlan::Recreate);
    assert!(is_vte_protocol("mosh"));
    assert!(!is_vte_protocol("local"));
    assert_eq!(recreated_tab_move(Some(2), 3, 4), Some((3, 2)));
    assert_eq!(recreated_tab_move(Some(2), 3, 3), None);
    assert_eq!(recreated_tab_move(None, 3, 4), None);
}

#[test]
fn tab_kinds() {
    assert!(displays_in_tab("spice"));
    assert!(!displays_in_tab("ssh"));
    assert!(split_selectable("local"));
    assert!(split_selectable("zerotrust:aws"));
    assert!(!split_selectable("rdp"));
    assert!(zero_trust_established(Some(1)));
    assert!(!zero_trust_established(Some(0)));
    assert!(!zero_trust_established(None));
}

#[test]
fn sidebar_width_rules() {
    assert_eq!(restore_sidebar_width(Some(300)), 300);
    assert_eq!(restore_sidebar_width(Some(501)), 320);
    assert_eq!(restore_sidebar_width(Some(259)), 320);
    assert_eq!(restore_sidebar_width(None), 320);
    assert_eq!(saved_sidebar_width(100), 260);
    assert_eq!(saved_sidebar_width(420), 420);
    // a width saved on close comes back at the next start
    assert_eq!(restore_sidebar_width(Some(saved_sidebar_width(420))), 420);
    assert_eq!(clamp_sidebar_width(900), 500);
    assert_eq!(clamp_sidebar_width(0), 260);
    assert_eq!(saved_window_size(true, Some(800), Some(600)), Some((800, 600)));
    assert_eq!(saved_window_size(true, Some(0), Some(600)), None);
    assert_eq!(saved_window_size(false, Some(800), Some(600)), None);
}

#[test]
fn close_requests() {
    assert_eq!(close_decision(false, false, false, 2), CloseDecision::Confirm);
    assert_eq!(close_decision(false, false, true, 2), CloseDecision::Close);
    assert_eq!(close_decision(false, false, false, 0), CloseDecision::Close);
    assert_eq!(close_decision(true, true, false, 5), CloseDecision::HideToTray);
    assert_eq!(close_decision(true, false, false, 5), CloseDecision::Confirm);
}

#[test]
fn protocol_filters() {
    assert_eq!(parse_protocol_filter("protocol: SSH "), Some(strings(&["SSH"])));
    assert_eq!(parse_protocol_filter("p:rdp"), Some(strings(&["rdp"])));
    assert_eq!(parse_protocol_filter("proto:vnc"), Some(strings(&["vnc"])));
    assert_eq!(parse_protocol_filter("protocols:ssh,rdp"), Some(strings(&["ssh", "rdp"])));
    assert_eq!(parse_protocol_filter("server"), None);
    assert!(protocol_matches(&strings(&["SSH"]), "ssh"));
    assert!(!protocol_matches(&strings(&["ssh "]), "ssh"));
    let idx = filter_by_protocol(&strings(&["ssh", "vnc"]), &strings(&["rdp", "ssh", "VNC", "telnet"]));
    assert_eq!(idx, vec![1, 2]);
    assert!(debounced_search_due(Some("abc"), "abc"));
    assert!(!debounced_search_due(Some("ab"), "abc"));
    assert!(!debounced_search_due(None, "abc"));
}

#[test]
fn palette_actions() {
    assert_eq!(palette_action(PaletteCommand::QuickConnect), Some("quick-connect"));
    assert_eq!(palette_action(PaletteCommand::OpenSettings), Some("settings"));
    assert_eq!(palette_action(PaletteCommand::Other), None);
}
