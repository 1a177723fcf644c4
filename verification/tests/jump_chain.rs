use rustconn_window::jump::{
    collect_ssh_jump_chain, jump_host_text, lookup_record, resolve_jump_chain_for_tunnel,
    tunnel_jump_chain, walk_jump_hops, HostRecord, JumpSettings, TunnelChain,
};
use rustconn_window::jump::tunnel_jump_destination;

fn ssh(jump: Option<u128>, proxy: Option<&str>, pkcs11: Option<&str>) -> Option<JumpSettings> {
    Some(JumpSettings {
        jump_host_id: jump,
        proxy_jump: proxy.map(|s| s.to_string()),
        pkcs11_provider: pkcs11.map(|s| s.to_string()),
        proxy_command: None,
    })
}

fn rec(id: u128, host: &str, user: Option<&str>, port: u16, s: Option<JumpSettings>) -> HostRecord {
    HostRecord {
        id,
        host: host.to_string(),
        username: user.map(|u| u.to_string()),
        port,
        has_password_source: true,
        ssh: s,
    }
}

fn strings(v: &[&str]) -> Vec<String> {
    v.iter().map(|s| s.to_string()).collect()
}

#[test]
fn jump_host_text_formats_user_host_and_port() {
    let t: String = jump_host_text("bastion", Some("admin"), 2222).into_iter().collect();
    assert_eq!(t, "admin@bastion:2222");
    let t: String = jump_host_text("bastion", None, 22).into_iter().collect();
    assert_eq!(t, "bastion");
    let t: String = jump_host_text("b", Some("u"), 22).into_iter().collect();
    assert_eq!(t, "u@b");
}

#[test]
fn lookup_record_finds_first_match() {
    let store = vec![rec(1, "a", None, 22, None), rec(2, "b", None, 22, None), rec(2, "c", None, 22, None)];
    assert_eq!(lookup_record(&store, 2), Some(1));
    assert_eq!(lookup_record(&store, 9), None);
}

#[test]
fn walk_follows_chain_and_stops_at_cycle() {
    // 10 -> 1 -> 2 -> 1 (cycle)
    let store = vec![
        rec(1, "h1", None, 22, ssh(Some(2), None, None)),
        rec(2, "h2", None, 22, ssh(Some(1), None, None)),
    ];
    assert_eq!(walk_jump_hops(&store, 10, Some(1)), vec![0, 1]);
    // the connection itself is never revisited
    assert_eq!(walk_jump_hops(&store, 2, Some(1)), vec![0]);
    // missing hop ends the walk
    assert_eq!(walk_jump_hops(&store, 10, Some(7)), Vec::<usize>::new());
}

#[test]
fn walk_is_limited_to_ten_hops() {
    let mut store = Vec::new();
    for i in 0..20u128 {
        store.push(rec(i, "h", None, 22, ssh(Some(i + 1), None, None)));
    }
    let hops = walk_jump_hops(&store, 100, Some(0));
    assert_eq!(hops.len(), 10);
    assert_eq!(hops, (0..10).collect::<Vec<usize>>());
}

#[test]
fn tunnel_chain_with_manual_proxies() {
    let store = vec![
        rec(1, "hop1", Some("u1"), 2201, ssh(Some(2), Some("manual1"), None)),
        rec(2, "hop2", None, 22, ssh(None, None, None)),
    ];
    let jump = rec(5, "jump", None, 22, ssh(Some(1), None, None));
    let chain = tunnel_jump_chain(&store, &jump, Some("inherited"));
    assert_eq!(chain.hops, strings(&["inherited", "manual1", "u1@hop1:2201", "hop2"]));
    assert_eq!(chain.first_hop, Some(0));
}

#[test]
fn tunnel_chain_of_non_ssh_jump_host_is_empty() {
    let store = vec![rec(1, "hop1", None, 22, None)];
    let jump = rec(5, "jump", None, 3389, None);
    let chain = tunnel_jump_chain(&store, &jump, Some("inherited"));
    assert!(chain.hops.is_empty());
    assert_eq!(chain.first_hop, None);
}

#[test]
fn tunnel_args_use_j_without_flatpak() {
    let chain = TunnelChain { hops: strings(&["a", "b@c:2"]), first_hop: Some(0) };
    let args = resolve_jump_chain_for_tunnel(&chain, None, None, &[]);
    // The chain is followed from the target outwards; `-J` lists the hops
    // from the client outwards.
    assert_eq!(args, strings(&["-J", "b@c:2,a"]));
}

#[test]
fn tunnel_args_use_proxy_command_under_flatpak() {
    let chain = TunnelChain { hops: strings(&["u@a", "b", "c"]), first_hop: Some(0) };
    let args = resolve_jump_chain_for_tunnel(
        &chain,
        Some("/kh"),
        Some("/key"),
        &strings(&["u@a"]),
    );
    assert_eq!(
        args,
        strings(&[
            "-o",
            "ProxyCommand=ssh -W %h:%p -o UserKnownHostsFile=/kh -i /key -o IdentitiesOnly=yes -J b,c u@a"
        ])
    );
}

#[test]
fn tunnel_args_empty_chain() {
    let chain = TunnelChain { hops: vec![], first_hop: None };
    assert!(resolve_jump_chain_for_tunnel(&chain, Some("/kh"), None, &[]).is_empty());
}

#[test]
fn ssh_chain_cached_first_hop_keeps_deeper_manual_proxies() {
    let store = vec![
        rec(1, "hop1", None, 22, ssh(Some(2), Some("m1"), Some("  /lib/p11.so "))),
        rec(2, "hop2", Some("u"), 2022, ssh(None, Some("m2"), None)),
    ];
    let c = collect_ssh_jump_chain(&store, 9, Some(1), Some("inh"), true);
    assert_eq!(c.hops, strings(&["inh", "m1", "hop1", "m2", "u@hop2:2022"]));
    assert_eq!(c.first_hop, Some(0));
    assert_eq!(c.first_hop_pkcs11.as_deref(), Some("  /lib/p11.so "));
}

#[test]
fn ssh_chain_vault_first_hop_drops_deeper_manual_proxies() {
    let store = vec![
        rec(1, "hop1", None, 22, ssh(Some(2), Some("m1"), Some("   "))),
        rec(2, "hop2", Some("u"), 2022, ssh(None, Some("m2"), None)),
    ];
    let c = collect_ssh_jump_chain(&store, 9, Some(1), None, false);
    assert_eq!(c.hops, strings(&["m1", "hop1", "u@hop2:2022"]));
    assert_eq!(c.first_hop_pkcs11, None);
}

#[test]
fn ssh_chain_without_jump_host() {
    let store = vec![rec(1, "hop1", None, 22, None)];
    let c = collect_ssh_jump_chain(&store, 9, None, Some("p"), false);
    assert_eq!(c.hops, strings(&["p"]));
    assert_eq!(c.first_hop, None);
}

#[test]
fn tunnel_destination_of_jump_host() {
    assert_eq!(tunnel_jump_destination(&rec(1, "bastion", Some("ops"), 2222, None)), "ops@bastion");
    assert_eq!(tunnel_jump_destination(&rec(1, "bastion", None, 22, None)), "bastion");
}
