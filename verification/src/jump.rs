//! Jump-host (bastion) chains: following a connection's jump-host
//! references through the connection store, and the `ssh` arguments that
//! route a tunnel through the chain.
use vstd::prelude::*;
use crate::text::{
    append_all, append_pieces, chars_of, concat_chars, decimal_spec, decimal_u64, join_exec,
    join_spec, opt_as_str, opt_string_view, opt_view, push_piece, push_text, str_views,
    strings_of, views,
};

verus! {

/// The SSH jump settings of a connection.
#[derive(Clone, Debug)]
pub struct JumpSettings {
    /// The connection used as this connection's jump host, by identifier.
    pub jump_host_id: Option<u128>,
    /// A manual `ProxyJump` string (`[user@]host[:port]`).
    pub proxy_jump: Option<String>,
    /// The PKCS#11 provider used to authenticate, if any.
    pub pkcs11_provider: Option<String>,
    /// A custom `ProxyCommand`, if any.
    pub proxy_command: Option<String>,
}

/// What the jump-chain logic reads of a stored connection.
#[derive(Clone, Debug)]
pub struct HostRecord {
    pub id: u128,
    pub host: String,
    pub username: Option<String>,
    pub port: u16,
    /// Whether the connection's password source is anything but "none", so
    /// that it may ask for a password interactively.
    pub has_password_source: bool,
    /// The SSH settings; `None` for a connection of another protocol.
    pub ssh: Option<JumpSettings>,
}

/// The first record of `store` with identifier `id`.
pub open spec fn find_record(store: Seq<HostRecord>, id: u128) -> Option<HostRecord>
    decreases store.len(),
{
    if store.len() == 0 {
        None
    } else if store[0].id == id {
        Some(store[0])
    } else {
        find_record(store.drop_first(), id)
    }
}

/// `[user@]host[:port]`, the port written only when it is not 22.
pub open spec fn jump_host_text_spec(host: Seq<char>, username: Option<Seq<char>>, port: u16) -> Seq<char> {
    let with_user = match username {
        Some(u) => u + "@"@ + host,
        None => host,
    };
    if port != 22 {
        with_user + ":"@ + decimal_spec(port as nat)
    } else {
        with_user
    }
}

/// The jump-host text of a record.
pub open spec fn record_text(r: HostRecord) -> Seq<char> {
    jump_host_text_spec(r.host@, opt_string_view(r.username), r.port)
}

/// The next hop a record names, if it is an SSH connection with a jump host.
pub open spec fn next_hop(r: HostRecord) -> Option<u128> {
    match r.ssh {
        Some(s) => s.jump_host_id,
        None => None,
    }
}

/// The pieces a hop contributes to a chain: its own manual `ProxyJump`, if
/// it has one, and then its `[user@]host[:port]`.
pub open spec fn hop_segment(r: HostRecord) -> Seq<Seq<char>> {
    let proxy: Seq<Seq<char>> = match r.ssh {
        Some(s) => match s.proxy_jump {
            Some(p) => seq![p@],
            None => Seq::empty(),
        },
        None => Seq::empty(),
    };
    proxy.push(record_text(r))
}

/// The records reached by following jump-host references from `current`:
/// at most `fuel` hops, stopping at a missing reference, at a record that
/// cannot be found, and at an identifier already in `visited`.
pub open spec fn walk_hops(
    store: Seq<HostRecord>,
    current: Option<u128>,
    visited: Seq<u128>,
    fuel: nat,
) -> Seq<HostRecord>
    decreases fuel,
{
    if fuel == 0 {
        Seq::empty()
    } else {
        match current {
            None => Seq::empty(),
            Some(id) => if visited.contains(id) {
                Seq::empty()
            } else {
                match find_record(store, id) {
                    None => Seq::empty(),
                    Some(r) => seq![r] + walk_hops(store, next_hop(r), visited.push(id), (fuel - 1) as nat),
                }
            },
        }
    }
}

/// The hop walk is bounded and never loops: it follows at most `fuel` hops,
/// never returns to an identifier in `visited` (the connection itself at
/// the start), and never visits a hop twice.
pub proof fn jump_walk_bounded(store: Seq<HostRecord>, current: Option<u128>, visited: Seq<u128>, fuel: nat)
    ensures
        walk_hops(store, current, visited, fuel).len() <= fuel,
        forall|i: int| 0 <= i < walk_hops(store, current, visited, fuel).len()
            ==> !visited.contains(#[trigger] walk_hops(store, current, visited, fuel)[i].id),
        forall|i: int, j: int| 0 <= i < j < walk_hops(store, current, visited, fuel).len()
            ==> walk_hops(store, current, visited, fuel)[i].id != walk_hops(store, current, visited, fuel)[j].id,
    decreases fuel,
{
    if fuel > 0 {
        match current {
            None => {},
            Some(id) => {
                if !visited.contains(id) {
                    match find_record(store, id) {
                        None => {},
                        Some(r) => {
                            lemma_find_record_id(store, id);
                            let v2 = visited.push(id);
                            jump_walk_bounded(store, next_hop(r), v2, (fuel - 1) as nat);
                            let rest = walk_hops(store, next_hop(r), v2, (fuel - 1) as nat);
                            let all = walk_hops(store, current, visited, fuel);
                            assert(all =~= seq![r] + rest);
                            assert forall|i: int| 0 <= i < all.len() implies !visited.contains(#[trigger] all[i].id) by {
                                if i > 0 {
                                    assert(all[i] == rest[i - 1]);
                                    assert(!v2.contains(rest[i - 1].id));
                                    if visited.contains(rest[i - 1].id) {
                                        let k = choose|k: int| 0 <= k < visited.len() && visited[k] == rest[i - 1].id;
                                        assert(v2[k] == rest[i - 1].id);
                                    }
                                }
                            }
                            assert forall|i: int, j: int| 0 <= i < j < all.len() implies all[i].id != all[j].id by {
                                if i == 0 {
                                    assert(all[j] == rest[j - 1]);
                                    assert(!v2.contains(rest[j - 1].id));
                                    assert(v2[v2.len() - 1] == id);
                                } else {
                                    assert(all[i] == rest[i - 1] && all[j] == rest[j - 1]);
                                }
                            }
                        },
                    }
                }
            },
        }
    }
}

/// The record found for `id` has that identifier.
proof fn lemma_find_record_id(store: Seq<HostRecord>, id: u128)
    ensures
        find_record(store, id) matches Some(r) ==> r.id == id,
    decreases store.len(),
{
    if store.len() > 0 && store[0].id != id {
        lemma_find_record_id(store.drop_first(), id);
    }
}

/// The segments of consecutive hops, concatenated.
pub open spec fn chain_of(hops: Seq<HostRecord>) -> Seq<Seq<char>>
    decreases hops.len(),
{
    if hops.len() == 0 {
        Seq::empty()
    } else {
        chain_of(hops.drop_last()) + hop_segment(hops.last())
    }
}

/// The `[user@]host[:port]` text of a jump host.
pub fn jump_host_text(host: &str, username: Option<&str>, port: u16) -> (r: Vec<char>)
    ensures
        r@ == jump_host_text_spec(host@, opt_view(username), port),
{
    let mut v: Vec<char> = Vec::new();
    match username {
        Some(u) => {
            append_all(&mut v, &chars_of(u));
            v.push('@');
            append_all(&mut v, &chars_of(host));
            assert(v@ =~= u@ + "@"@ + host@) by {
                assert("@"@ =~= seq!['@']) by { reveal_strlit("@"); }
            }
        },
        None => {
            append_all(&mut v, &chars_of(host));
        },
    }
    if port != 22 {
        let ghost before = v@;
        v.push(':');
        append_all(&mut v, &decimal_u64(port as u64));
        assert(v@ =~= before + ":"@ + decimal_spec(port as nat)) by {
            assert(":"@ =~= seq![':']) by { reveal_strlit(":"); }
        }
    }
    v
}

/// The SSH destination of a tunnel's jump host: `[user@]host` (its port is
/// passed on its own).
pub fn tunnel_jump_destination(jump_conn: &HostRecord) -> (r: String)
    ensures
        r@ == (match jump_conn.username {
            Some(u) => u@ + "@"@ + jump_conn.host@,
            None => jump_conn.host@,
        }),
{
    match &jump_conn.username {
        Some(u) => {
            let a = concat_chars(&chars_of(u.as_str()), &chars_of("@"));
            crate::text::string_of(&concat_chars(&a, &chars_of(jump_conn.host.as_str())))
        },
        None => crate::text::string_of(&chars_of(jump_conn.host.as_str())),
    }
}

/// The record with identifier `id`, if `store` holds one.
pub fn lookup_record(store: &[HostRecord], id: u128) -> (r: Option<usize>)
    ensures
        r is None ==> find_record(store@, id) is None,
        r matches Some(i) ==> i < store.len() && find_record(store@, id) == Some(store@[i as int]),
{
    let mut i: usize = 0;
    assert(store@.subrange(0, store.len() as int) =~= store@);
    while i < store.len()
        invariant
            i <= store.len(),
            find_record(store@, id) == find_record(store@.subrange(i as int, store.len() as int), id),
        decreases store.len() - i,
    {
        let ghost rest = store@.subrange(i as int, store.len() as int);
        assert(rest.drop_first() =~= store@.subrange(i + 1, store.len() as int));
        if store[i].id == id {
            return Some(i);
        }
        i = i + 1;
    }
    None
}

/// Whether `v` holds `x`.
fn contains_id(v: &Vec<u128>, x: u128) -> (r: bool)
    ensures
        r == v@.contains(x),
{
    let mut i: usize = 0;
    while i < v.len()
        invariant
            i <= v.len(),
            forall|j: int| 0 <= j < i ==> v@[j] != x,
        decreases v.len() - i,
    {
        if v[i] == x {
            assert(v@[i as int] == x);
            return true;
        }
        i = i + 1;
    }
    false
}

/// The hops reached from `start`, not revisiting `exclude`, at most ten.
pub fn walk_jump_hops(store: &[HostRecord], exclude: u128, start: Option<u128>) -> (r: Vec<usize>)
    ensures
        r.len() == walk_hops(store@, start, seq![exclude], 10).len(),
        forall|k: int| 0 <= k < r.len() ==> (#[trigger] r@[k] as int) < store.len()
            && store@[r@[k] as int] == walk_hops(store@, start, seq![exclude], 10)[k],
{
    let mut out: Vec<usize> = Vec::new();
    let mut visited: Vec<u128> = Vec::new();
    visited.push(exclude);
    let mut current = start;
    let mut fuel: usize = 10;
    let ghost total = walk_hops(store@, start, seq![exclude], 10);
    assert(visited@ =~= seq![exclude]);
    while fuel > 0
        invariant
            fuel <= 10,
            total == walk_hops(store@, start, seq![exclude], 10),
            out.len() + walk_hops(store@, current, visited@, fuel as nat).len() == total.len(),
            forall|k: int| 0 <= k < out.len() ==> (#[trigger] out@[k] as int) < store.len()
                && store@[out@[k] as int] == total[k],
            forall|k: int| 0 <= k < walk_hops(store@, current, visited@, fuel as nat).len()
                ==> #[trigger] walk_hops(store@, current, visited@, fuel as nat)[k] == total[out.len() + k],
        ensures
            walk_hops(store@, current, visited@, fuel as nat).len() == 0,
        decreases fuel,
    {
        let id = match current {
            None => break,
            Some(id) => id,
        };
        if contains_id(&visited, id) {
            break;
        }
        let idx = match lookup_record(store, id) {
            None => break,
            Some(i) => i,
        };
        let ghost rest_before = walk_hops(store@, current, visited@, fuel as nat);
        let rec = &store[idx];
        let next = match &rec.ssh {
            Some(s) => s.jump_host_id,
            None => None,
        };
        assert(next == next_hop(store@[idx as int]));
        let ghost rest_after = walk_hops(store@, next, visited@.push(id), (fuel - 1) as nat);
        assert(rest_before =~= seq![store@[idx as int]] + rest_after);
        assert(rest_before[0] == total[out.len() + 0]);
        assert(rest_before[0] == store@[idx as int]);
        assert(total[out.len() as int] == store@[idx as int]);
        let ghost old_out = out@;
        out.push(idx);
        assert(out@[old_out.len() as int] == idx);
        assert forall|k: int| 0 <= k < out.len() implies (#[trigger] out@[k] as int) < store.len()
            && store@[out@[k] as int] == total[k] by {
            if k < old_out.len() {
                assert(out@[k] == old_out[k]);
            } else {
                assert(k == old_out.len());
                assert(out@[k] == idx);
            }
        }
        visited.push(id);
        current = next;
        fuel = fuel - 1;
        assert forall|k: int| 0 <= k < rest_after.len() implies #[trigger] rest_after[k] == total[out.len() + k] by {
            assert(rest_after[k] == rest_before[k + 1]);
        }
    }
    out
}


/// A piece for each present value.
pub open spec fn opt_piece(p: Option<Seq<char>>) -> Seq<Seq<char>> {
    match p {
        Some(x) => seq![x],
        None => Seq::empty(),
    }
}

/// The chain text of one stored record.
fn record_text_exec(r: &HostRecord) -> (t: Vec<char>)
    ensures
        t@ == record_text(*r),
{
    jump_host_text(r.host.as_str(), opt_as_str(&r.username), r.port)
}

/// The pieces one hop contributes to a chain.
fn hop_segment_exec(r: &HostRecord) -> (seg: Vec<Vec<char>>)
    ensures
        views(seg@) == hop_segment(*r),
{
    let mut seg: Vec<Vec<char>> = Vec::new();
    match &r.ssh {
        Some(s) => match &s.proxy_jump {
            Some(p) => {
                push_text(&mut seg, p.as_str());
            },
            None => {},
        },
        None => {},
    }
    let t = record_text_exec(r);
    push_piece(&mut seg, t);
    seg
}

/// The records of `store` at the indices `idx`, read as `hops`.
pub open spec fn indexes_hops(store: Seq<HostRecord>, idx: Seq<usize>, hops: Seq<HostRecord>) -> bool {
    &&& idx.len() == hops.len()
    &&& forall|k: int| 0 <= k < idx.len() ==> (#[trigger] idx[k] as int) < store.len()
            && store[idx[k] as int] == hops[k]
}

/// The concatenated segments of the hops at the given store indices.
fn chain_exec(store: &[HostRecord], idx: &Vec<usize>, Ghost(hops): Ghost<Seq<HostRecord>>) -> (c: Vec<Vec<char>>)
    requires
        indexes_hops(store@, idx@, hops),
    ensures
        views(c@) == chain_of(hops),
{
    let mut out: Vec<Vec<char>> = Vec::new();
    let mut k: usize = 0;
    while k < idx.len()
        invariant
            k <= idx.len(),
            indexes_hops(store@, idx@, hops),
            views(out@) == chain_of(hops.take(k as int)),
        decreases idx.len() - k,
    {
        assert(idx@[k as int] < store.len());
        let seg = hop_segment_exec(&store[idx[k]]);
        append_pieces(&mut out, &seg);
        assert(hops.take(k + 1).drop_last() =~= hops.take(k as int));
        assert(hops.take(k + 1).last() == hops[k as int]);
        k = k + 1;
    }
    assert(hops.take(idx.len() as int) =~= hops);
    out
}

/// The hops above a tunnel's jump host, when that host is an SSH connection.
pub open spec fn tunnel_hops_spec(store: Seq<HostRecord>, jump_conn: HostRecord) -> Seq<HostRecord> {
    match jump_conn.ssh {
        Some(s) => walk_hops(store, s.jump_host_id, seq![jump_conn.id], 10),
        None => Seq::empty(),
    }
}

/// The jump chain above a tunnel's jump host: its inherited or manual
/// `ProxyJump` first, then the segments of the referenced hops. A jump host
/// that is not an SSH connection has no chain.
pub open spec fn tunnel_chain_spec(
    store: Seq<HostRecord>,
    jump_conn: HostRecord,
    inherited_proxy: Option<Seq<char>>,
) -> Seq<Seq<char>> {
    match jump_conn.ssh {
        Some(_) => opt_piece(inherited_proxy) + chain_of(tunnel_hops_spec(store, jump_conn)),
        None => Seq::empty(),
    }
}

/// A jump chain and the store index of its first referenced hop.
#[derive(Clone, Debug)]
pub struct TunnelChain {
    /// The chain, in the order the hops were followed.
    pub hops: Vec<String>,
    /// The store index of the first referenced hop, if any was followed.
    pub first_hop: Option<usize>,
}

/// Collects the jump chain above `jump_conn`, the jump host of an SSH
/// tunnel. `inherited_proxy` is the `ProxyJump` that `jump_conn` has itself
/// or inherits from its groups.
pub fn tunnel_jump_chain(
    store: &[HostRecord],
    jump_conn: &HostRecord,
    inherited_proxy: Option<&str>,
) -> (r: TunnelChain)
    ensures
        str_views(r.hops@) == tunnel_chain_spec(store@, *jump_conn, opt_view(inherited_proxy)),
        r.first_hop is None <==> tunnel_hops_spec(store@, *jump_conn).len() == 0,
        r.first_hop matches Some(i) ==> i < store.len()
            && store@[i as int] == tunnel_hops_spec(store@, *jump_conn)[0],
{
    let next = match &jump_conn.ssh {
        Some(s) => s.jump_host_id,
        None => {
            return TunnelChain { hops: Vec::new(), first_hop: None };
        },
    };
    let mut chain: Vec<Vec<char>> = Vec::new();
    match inherited_proxy {
        Some(p) => {
            push_text(&mut chain, p);
        },
        None => {},
    }
    let idx = walk_jump_hops(store, jump_conn.id, next);
    let ghost hops = tunnel_hops_spec(store@, *jump_conn);
    let rest = chain_exec(store, &idx, Ghost(hops));
    append_pieces(&mut chain, &rest);
    let first_hop = if idx.len() > 0 {
        Some(idx[0])
    } else {
        None
    };
    TunnelChain { hops: strings_of(&chain), first_hop }
}

/// `-i <key> -o IdentitiesOnly=yes` when an identity file is given.
pub open spec fn identity_parts(identity: Option<Seq<char>>) -> Seq<Seq<char>> {
    match identity {
        Some(k) => seq!["-i"@, k, "-o"@, "IdentitiesOnly=yes"@],
        None => Seq::empty(),
    }
}

/// The `ProxyCommand` words of a tunnel under Flatpak: `ssh -W %h:%p` with the
/// writable known-hosts file, the first hop's identity, the remaining hops as
/// `-J`, and the first hop's destination words.
pub open spec fn tunnel_proxy_parts(
    chain: Seq<Seq<char>>,
    known_hosts: Seq<char>,
    identity: Option<Seq<char>>,
    destination: Seq<Seq<char>>,
) -> Seq<Seq<char>> {
    seq!["ssh"@, "-W"@, "%h:%p"@, "-o"@, "UserKnownHostsFile="@ + known_hosts]
        + identity_parts(identity)
        + (if chain.len() > 1 {
        seq!["-J"@, join_spec(chain.drop_first(), ","@)]
    } else {
        Seq::empty()
    })
        + destination
}

/// The extra `ssh` arguments that route a tunnel through `chain` (listed in
/// the order the hops were followed, nearest the target first): none for an
/// empty chain; under Flatpak (a writable known-hosts file is given) one
/// `ProxyCommand` for the first hop; otherwise `-J` with the whole chain
/// reversed, since `ssh -J` visits its hops from the client outwards.
pub open spec fn tunnel_args_spec(
    chain: Seq<Seq<char>>,
    known_hosts: Option<Seq<char>>,
    identity: Option<Seq<char>>,
    destination: Seq<Seq<char>>,
) -> Seq<Seq<char>> {
    if chain.len() == 0 {
        Seq::empty()
    } else {
        match known_hosts {
            Some(kh) => seq![
                "-o"@,
                "ProxyCommand="@ + join_spec(tunnel_proxy_parts(chain, kh, identity, destination), " "@),
            ],
            None => seq!["-J"@, join_spec(chain.reverse(), ","@)],
        }
    }
}

/// The extra `ssh` arguments for a tunnel through `chain.hops`.
/// `known_hosts` is the writable known-hosts path under Flatpak,
/// `first_hop_identity` the identity file of the first referenced hop, and
/// `first_hop_destination` the destination words (`[-p port] [user@]host`)
/// of the chain's first element.
pub fn resolve_jump_chain_for_tunnel(
    chain: &TunnelChain,
    known_hosts: Option<&str>,
    first_hop_identity: Option<&str>,
    first_hop_destination: &[String],
) -> (r: Vec<String>)
    ensures
        str_views(r@) == tunnel_args_spec(
            str_views(chain.hops@),
            opt_view(known_hosts),
            opt_view(first_hop_identity),
            str_views(first_hop_destination@),
        ),
{
    let hops = crate::text::char_vecs_of(&chain.hops);
    let mut out: Vec<Vec<char>> = Vec::new();
    if hops.len() == 0 {
        return strings_of(&out);
    }
    match known_hosts {
        Some(kh) => {
            let mut parts: Vec<Vec<char>> = Vec::new();
            push_text(&mut parts, "ssh");
            push_text(&mut parts, "-W");
            push_text(&mut parts, "%h:%p");
            push_text(&mut parts, "-o");
            push_piece(&mut parts, concat_chars(&chars_of("UserKnownHostsFile="), &chars_of(kh)));
            match first_hop_identity {
                Some(k) => {
                    push_text(&mut parts, "-i");
                    push_text(&mut parts, k);
                    push_text(&mut parts, "-o");
                    push_text(&mut parts, "IdentitiesOnly=yes");
                },
                None => {},
            }
            if hops.len() > 1 {
                push_text(&mut parts, "-J");
                let inner = crate::text::slice_pieces_from(&hops, 1);
                push_piece(&mut parts, join_exec(&inner, &chars_of(",")));
            }
            let dest = crate::text::char_vecs_of(first_hop_destination);
            append_pieces(&mut parts, &dest);
            proof {
                let ghost c = views(hops@);
                assert(views(parts@) =~= tunnel_proxy_parts(
                    c,
                    kh@,
                    opt_view(first_hop_identity),
                    str_views(first_hop_destination@),
                ));
            }
            push_text(&mut out, "-o");
            let joined = join_exec(&parts, &chars_of(" "));
            push_piece(&mut out, concat_chars(&chars_of("ProxyCommand="), &joined));
        },
        None => {
            push_text(&mut out, "-J");
            let client_first = crate::text::reverse_pieces(&hops);
            push_piece(&mut out, join_exec(&client_first, &chars_of(",")));
        },
    }
    strings_of(&out)
}

/// The hops referenced from an SSH connection's own jump host.
pub open spec fn ssh_hops_spec(store: Seq<HostRecord>, connection_id: u128, jump_host_id: Option<u128>) -> Seq<HostRecord> {
    walk_hops(store, jump_host_id, seq![connection_id], 10)
}

/// The chain texts of the given records, one each.
pub open spec fn texts_of(hops: Seq<HostRecord>) -> Seq<Seq<char>> {
    hops.map_values(|r: HostRecord| record_text(r))
}

/// The first hop is an SSH connection whose own password was not cached,
/// so its password is looked up in the vault before the chain goes on.
pub open spec fn first_hop_uses_vault(hops: Seq<HostRecord>, first_hop_cached: bool) -> bool {
    hops.len() > 0 && hops[0].ssh is Some && !first_hop_cached
}

/// The jump chain of an SSH connection: the inherited `ProxyJump` first,
/// then the referenced hops. When the first hop's password comes from the
/// vault, the hops after it contribute their host text alone.
pub open spec fn ssh_chain_spec(
    store: Seq<HostRecord>,
    connection_id: u128,
    jump_host_id: Option<u128>,
    inherited_proxy: Option<Seq<char>>,
    first_hop_cached: bool,
) -> Seq<Seq<char>> {
    let hops = ssh_hops_spec(store, connection_id, jump_host_id);
    opt_piece(inherited_proxy) + if first_hop_uses_vault(hops, first_hop_cached) {
        hop_segment(hops[0]) + texts_of(hops.drop_first())
    } else {
        chain_of(hops)
    }
}

/// The PKCS#11 provider of the first hop, when it is an SSH connection with
/// a provider that is not blank.
pub open spec fn first_hop_pkcs11_spec(hops: Seq<HostRecord>) -> Option<Seq<char>> {
    if hops.len() > 0 {
        match hops[0].ssh {
            Some(s) => match s.pkcs11_provider {
                Some(p) => if crate::text::trim_spec(p@).len() > 0 {
                    Some(p@)
                } else {
                    None
                },
                None => None,
            },
            None => None,
        }
    } else {
        None
    }
}

/// The jump chain of an SSH connection and what its first hop brings.
#[derive(Clone, Debug)]
pub struct SshJumpChain {
    /// The chain, in the order the hops were followed.
    pub hops: Vec<String>,
    /// The store index of the first referenced hop, if any was followed.
    pub first_hop: Option<usize>,
    /// The first hop's PKCS#11 provider, when it opts in.
    pub first_hop_pkcs11: Option<String>,
}

/// Collects the jump chain of the SSH connection `connection_id`, whose own
/// jump host reference is `jump_host_id` and whose inherited `ProxyJump` is
/// `inherited_proxy`. `first_hop_cached` says whether the referenced jump
/// host has a non-empty cached password.
pub fn collect_ssh_jump_chain(
    store: &[HostRecord],
    connection_id: u128,
    jump_host_id: Option<u128>,
    inherited_proxy: Option<&str>,
    first_hop_cached: bool,
) -> (r: SshJumpChain)
    ensures
        str_views(r.hops@) == ssh_chain_spec(
            store@,
            connection_id,
            jump_host_id,
            opt_view(inherited_proxy),
            first_hop_cached,
        ),
        r.first_hop is None <==> ssh_hops_spec(store@, connection_id, jump_host_id).len() == 0,
        r.first_hop matches Some(i) ==> i < store.len()
            && store@[i as int] == ssh_hops_spec(store@, connection_id, jump_host_id)[0],
        opt_string_view(r.first_hop_pkcs11) == first_hop_pkcs11_spec(
            ssh_hops_spec(store@, connection_id, jump_host_id),
        ),
{
    let mut chain: Vec<Vec<char>> = Vec::new();
    match inherited_proxy {
        Some(p) => {
            push_text(&mut chain, p);
        },
        None => {},
    }
    let idx = walk_jump_hops(store, connection_id, jump_host_id);
    let ghost hops = ssh_hops_spec(store@, connection_id, jump_host_id);
    let ghost prefix = views(chain@);
    if idx.len() == 0 {
        let rest = chain_exec(store, &idx, Ghost(hops));
        append_pieces(&mut chain, &rest);
        return SshJumpChain { hops: strings_of(&chain), first_hop: None, first_hop_pkcs11: None };
    }
    let first = &store[idx[0]];
    let pkcs11 = match &first.ssh {
        Some(s) => match &s.pkcs11_provider {
            Some(p) => {
                let t = crate::text::trim_exec(&chars_of(p.as_str()));
                if t.len() > 0 {
                    Some(p.clone())
                } else {
                    None
                }
            },
            None => None,
        },
        None => None,
    };
    if first.ssh.is_some() && !first_hop_cached {
        let seg = hop_segment_exec(first);
        append_pieces(&mut chain, &seg);
        let mut k: usize = 1;
        while k < idx.len()
            invariant
                1 <= k <= idx.len(),
                indexes_hops(store@, idx@, hops),
                views(chain@) == prefix + hop_segment(hops[0]) + texts_of(hops.subrange(1, k as int)),
            decreases idx.len() - k,
        {
            assert(idx@[k as int] < store.len());
            let t = record_text_exec(&store[idx[k]]);
            push_piece(&mut chain, t);
            assert(texts_of(hops.subrange(1, k + 1)) =~= texts_of(hops.subrange(1, k as int)).push(record_text(hops[k as int])));
            k = k + 1;
        }
        assert(hops.subrange(1, idx.len() as int) =~= hops.drop_first());
    } else {
        let rest = chain_exec(store, &idx, Ghost(hops));
        append_pieces(&mut chain, &rest);
    }
    SshJumpChain { hops: strings_of(&chain), first_hop: Some(idx[0]), first_hop_pkcs11: pkcs11 }
}
} // verus!
